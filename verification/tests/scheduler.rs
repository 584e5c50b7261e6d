//! Tests of the job scheduler: startup reconciliation, reservation,
//! completion and the drift warning.

use rvoc_backend::config::Configuration;
use rvoc_backend::db::{Database, ScheduledJob};
use rvoc_backend::job_queue::{
    complete_job, initialise_job_queue, reserve_job, JobName,
};
use rvoc_backend::time::{Instant, TimeDelta};

fn now() -> Instant {
    Instant { millis: 1_700_000_000_000 }
}

#[test]
fn reconciliation_registers_every_configured_kind() {
    let configuration = Configuration::test_configuration();
    let mut db = Database::new();
    let deleted = initialise_job_queue(&mut db, &configuration, now()).unwrap();
    assert!(deleted.is_empty());
    assert_eq!(db.jobs_count(), 1);
    let row = db.jobs_get(&"UpdateWiktionary".to_string()).unwrap();
    assert_eq!(row.scheduled_execution_time, now());
    assert!(!row.in_progress);
}

#[test]
fn reconciliation_deletes_unknown_rows_and_keeps_known_ones() {
    let configuration = Configuration::test_configuration();
    let mut db = Database::new();
    let earlier = Instant { millis: 5 };
    db.jobs_insert(ScheduledJob {
        name: "UpdateWiktionary".to_string(),
        scheduled_execution_time: earlier,
        in_progress: false,
    });
    db.jobs_insert(ScheduledJob {
        name: "RetiredJobKind".to_string(),
        scheduled_execution_time: earlier,
        in_progress: false,
    });
    let deleted = initialise_job_queue(&mut db, &configuration, now()).unwrap();
    assert_eq!(deleted, vec!["RetiredJobKind".to_string()]);
    assert_eq!(db.jobs_count(), 1);
    // The known row keeps its earlier scheduled time.
    let row = db.jobs_get(&"UpdateWiktionary".to_string()).unwrap();
    assert_eq!(row.scheduled_execution_time, earlier);
}

#[test]
fn reconciliation_is_idempotent() {
    let configuration = Configuration::test_configuration();
    let mut db = Database::new();
    initialise_job_queue(&mut db, &configuration, now()).unwrap();
    let later = Instant { millis: now().millis + 1000 };
    let deleted = initialise_job_queue(&mut db, &configuration, later).unwrap();
    assert!(deleted.is_empty());
    assert_eq!(db.jobs_count(), 1);
    // The existing row is kept unchanged, not re-registered.
    let row = db.jobs_get(&"UpdateWiktionary".to_string()).unwrap();
    assert_eq!(row.scheduled_execution_time, now());
}

#[test]
fn reserve_returns_the_due_job_and_marks_it_in_progress() {
    let configuration = Configuration::test_configuration();
    let mut db = Database::new();
    let due = Instant { millis: now().millis - 500 };
    db.jobs_insert(ScheduledJob {
        name: "UpdateWiktionary".to_string(),
        scheduled_execution_time: due,
        in_progress: false,
    });
    let job = reserve_job(&mut db, &configuration, now()).unwrap().unwrap();
    assert_eq!(job.name, JobName::UpdateWiktionary);
    assert_eq!(job.scheduled_time, due);
    assert_eq!(job.start_time, now());
    let row = db.jobs_get(&"UpdateWiktionary".to_string()).unwrap();
    assert!(row.in_progress);
}

#[test]
fn second_reservation_of_the_same_job_finds_nothing() {
    let configuration = Configuration::test_configuration();
    let mut db = Database::new();
    db.jobs_insert(ScheduledJob {
        name: "UpdateWiktionary".to_string(),
        scheduled_execution_time: Instant { millis: 0 },
        in_progress: false,
    });
    let first = reserve_job(&mut db, &configuration, now()).unwrap();
    assert!(first.is_some());
    let second = reserve_job(&mut db, &configuration, now()).unwrap();
    assert!(second.is_none());
}

#[test]
fn reserve_skips_jobs_that_are_not_due_yet() {
    let configuration = Configuration::test_configuration();
    let mut db = Database::new();
    db.jobs_insert(ScheduledJob {
        name: "UpdateWiktionary".to_string(),
        scheduled_execution_time: Instant { millis: now().millis + 1 },
        in_progress: false,
    });
    assert!(reserve_job(&mut db, &configuration, now()).unwrap().is_none());
}

#[test]
fn reserve_deletes_a_due_row_with_an_unknown_name() {
    let configuration = Configuration::test_configuration();
    let mut db = Database::new();
    db.jobs_insert(ScheduledJob {
        name: "NoSuchKind".to_string(),
        scheduled_execution_time: Instant { millis: 0 },
        in_progress: false,
    });
    let reservation = reserve_job(&mut db, &configuration, now()).unwrap();
    assert!(reservation.is_none());
    assert_eq!(db.jobs_count(), 0);
}

#[test]
fn complete_schedules_the_next_execution_after_the_finish_time() {
    let configuration = Configuration::test_configuration();
    let mut db = Database::new();
    db.jobs_insert(ScheduledJob {
        name: "UpdateWiktionary".to_string(),
        scheduled_execution_time: Instant { millis: 0 },
        in_progress: false,
    });
    let job = reserve_job(&mut db, &configuration, now()).unwrap().unwrap();
    let finish_time = Instant { millis: now().millis + 2_000 };
    complete_job(&mut db, job, finish_time, &configuration).unwrap();
    let row = db.jobs_get(&"UpdateWiktionary".to_string()).unwrap();
    assert!(!row.in_progress);
    // The dictionary update reruns a day after it finished.
    assert_eq!(
        row.scheduled_execution_time.millis,
        finish_time.millis + 86_400_000
    );
    assert!(row.scheduled_execution_time.millis > finish_time.millis);
}

#[test]
fn drift_warning_fires_only_past_the_poll_interval_plus_margin() {
    let configuration = Configuration::test_configuration();
    let mut db = Database::new();
    db.jobs_insert(ScheduledJob {
        name: "UpdateWiktionary".to_string(),
        scheduled_execution_time: Instant { millis: 0 },
        in_progress: false,
    });
    // Poll interval is 60 s; the margin is 10 s.
    let on_time = reserve_job(&mut db, &configuration, Instant { millis: 70_000 })
        .unwrap()
        .unwrap();
    assert!(!on_time.is_late(configuration.job_queue_poll_interval));
    let mut db = Database::new();
    db.jobs_insert(ScheduledJob {
        name: "UpdateWiktionary".to_string(),
        scheduled_execution_time: Instant { millis: 0 },
        in_progress: false,
    });
    let late = reserve_job(&mut db, &configuration, Instant { millis: 70_001 })
        .unwrap()
        .unwrap();
    assert!(late.is_late(configuration.job_queue_poll_interval));
}

#[test]
fn completed_job_reports_delay_and_duration() {
    let job = rvoc_backend::job_queue::InProgressJob {
        scheduled_time: Instant { millis: 1_000 },
        start_time: Instant { millis: 4_000 },
        name: JobName::UpdateWiktionary,
    };
    let completed = job.finish(Instant { millis: 9_000 });
    assert_eq!(completed.delay(), TimeDelta { millis: 3_000 });
    assert_eq!(completed.duration(), TimeDelta { millis: 5_000 });
}

#[test]
fn job_names_round_trip_through_strings() {
    let name = JobName::UpdateWiktionary.as_string();
    assert_eq!(name, "UpdateWiktionary");
    assert_eq!(JobName::from_str(&name), Some(JobName::UpdateWiktionary));
    assert_eq!(JobName::from_str(&"unknown".to_string()), None);
    assert_eq!(JobName::all(), vec![JobName::UpdateWiktionary]);
}

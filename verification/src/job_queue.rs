//! The durable recurring-job scheduler, built on the retry engine.
//!
//! Each job kind has exactly one row in the job queue. Startup
//! reconciliation registers a row (due immediately) for every configured
//! kind that is missing and deletes every row whose name is not a
//! configured kind. A single cooperative poller then reserves the next due
//! job, runs it outside any transaction, and reschedules it on completion.
//! Mutual exclusion per job rests on the `in_progress` flag, set and
//! cleared inside transactions.

use vstd::prelude::*;
use crate::config::Configuration;
use crate::db::{
    job_eligible, name_set, removed_names_reported, Database, DbView, JobView, ScheduledJob,
};
use crate::error::{RVocError, TransactionError};
use crate::time::{Instant, TimeDelta};
use crate::transactions::{
    execute_transaction, is_retryable, lemma_engine_single_attempt, UnitOfWork,
};

verus! {

/// The closed set of job kinds.
#[derive(Clone, Copy, PartialEq, Eq, Structural, Debug)]
pub enum JobName {
    /// Update the dictionary data from the latest published dump.
    UpdateWiktionary,
}

impl JobName {
    /// The name under which this kind is persisted.
    pub open spec fn spec_str(self) -> Seq<char> {
        match self {
            JobName::UpdateWiktionary => "UpdateWiktionary"@,
        }
    }

    /// The name under which this kind is persisted.
    pub fn as_string(self) -> (r: String)
        ensures
            r@ == self.spec_str(),
    {
        match self {
            JobName::UpdateWiktionary => "UpdateWiktionary".to_owned(),
        }
    }

    /// Parse a persisted name back into a kind.
    pub fn from_str(name: &String) -> (r: Option<JobName>)
        ensures
            match r {
                Some(kind) => kind.spec_str() == name@,
                None => forall|kind: JobName| #[trigger] kind.spec_str() != name@,
            },
    {
        if *name == "UpdateWiktionary".to_owned() {
            Some(JobName::UpdateWiktionary)
        } else {
            None
        }
    }

    /// Every job kind, each exactly once.
    pub fn all() -> (r: Vec<JobName>)
        ensures
            r@.len() == 1,
            r@[0] == JobName::UpdateWiktionary,
    {
        vec![JobName::UpdateWiktionary]
    }

    /// The interval after which this kind reruns.
    pub open spec fn spec_interval(self, configuration: Configuration) -> TimeDelta {
        match self {
            JobName::UpdateWiktionary => configuration.wiktionary_update_interval,
        }
    }

    /// The interval after which this kind reruns.
    pub fn interval(self, configuration: &Configuration) -> (r: TimeDelta)
        ensures
            r == self.spec_interval(*configuration),
    {
        match self {
            JobName::UpdateWiktionary => configuration.wiktionary_update_interval,
        }
    }
}

/// The names of all configured job kinds.
pub open spec fn job_kind_names() -> Set<Seq<char>> {
    Set::new(|k: Seq<char>| exists|kind: JobName| (#[trigger] kind.spec_str()) == k)
}

/// A job that a worker has reserved and owns until completion.
pub struct InProgressJob {
    /// The instant at which the job was due.
    pub scheduled_time: Instant,
    /// The instant at which the worker reserved it.
    pub start_time: Instant,
    /// The kind of the job.
    pub name: JobName,
}

/// A job whose work has finished and that awaits rescheduling.
pub struct CompletedJob {
    /// The instant at which the job was due.
    pub scheduled_time: Instant,
    /// The instant at which the worker reserved it.
    pub start_time: Instant,
    /// The instant at which the work finished.
    pub finish_time: Instant,
    /// The kind of the job.
    pub name: JobName,
}

impl InProgressJob {
    /// Turn the reservation into a completed job at `finish_time`.
    pub fn finish(self, finish_time: Instant) -> (r: CompletedJob)
        ensures
            r.scheduled_time == self.scheduled_time,
            r.start_time == self.start_time,
            r.finish_time == finish_time,
            r.name == self.name,
    {
        CompletedJob {
            scheduled_time: self.scheduled_time,
            start_time: self.start_time,
            finish_time,
            name: self.name,
        }
    }

    /// Whether the job started later after its due time than the poll
    /// interval plus a ten-second safety margin; the poller logs a drift
    /// warning when it did.
    pub fn is_late(&self, poll_interval: TimeDelta) -> (r: bool)
        requires
            self.scheduled_time.millis <= self.start_time.millis,
            self.start_time.millis - self.scheduled_time.millis <= i64::MAX,
            0 <= poll_interval.millis <= i64::MAX - 10000,
        ensures
            r == (self.start_time.millis - self.scheduled_time.millis > poll_interval.millis
                + 10000),
    {
        self.start_time.millis - self.scheduled_time.millis > poll_interval.millis + 10000
    }

    /// An identical copy of this reservation.
    pub fn duplicate(&self) -> (r: InProgressJob)
        ensures
            r.scheduled_time == self.scheduled_time,
            r.start_time == self.start_time,
            r.name == self.name,
    {
        InProgressJob {
            scheduled_time: self.scheduled_time,
            start_time: self.start_time,
            name: self.name,
        }
    }
}

impl CompletedJob {
    /// The instant at which the job runs next: its kind's interval after the
    /// finish time. For a kind with a positive interval, the next scheduled
    /// time lies strictly after the finish time.
    pub fn schedule_next_execution(&self, configuration: &Configuration) -> (r: Instant)
        requires
            i64::MIN <= self.finish_time.millis + self.name.spec_interval(
                *configuration,
            ).millis <= i64::MAX,
        ensures
            r.millis == self.finish_time.millis + self.name.spec_interval(*configuration).millis,
            self.name.spec_interval(*configuration).millis > 0 ==> r.millis
                > self.finish_time.millis,
    {
        self.finish_time.add_delta(self.name.interval(configuration))
    }

    /// How long after its due time the job started.
    pub fn delay(&self) -> (r: TimeDelta)
        requires
            i64::MIN <= self.start_time.millis - self.scheduled_time.millis <= i64::MAX,
        ensures
            r.millis == self.start_time.millis - self.scheduled_time.millis,
    {
        self.start_time.delta_since(self.scheduled_time)
    }

    /// How long the work took.
    pub fn duration(&self) -> (r: TimeDelta)
        requires
            i64::MIN <= self.finish_time.millis - self.start_time.millis <= i64::MAX,
        ensures
            r.millis == self.finish_time.millis - self.start_time.millis,
    {
        self.finish_time.delta_since(self.start_time)
    }
}

/// What startup reconciliation does to the store: afterwards the job table
/// has exactly one row per configured kind — kept unchanged where it
/// existed, registered as due at `now` and not in progress where it was
/// missing — and no other rows.
pub open spec fn reconcile_post(pre: DbView, post: DbView, now: int) -> bool {
    &&& post.jobs.dom() == job_kind_names()
    &&& forall|k: Seq<char>|
        job_kind_names().contains(k) ==> #[trigger] post.jobs[k] == if pre.jobs.dom().contains(k) {
            pre.jobs[k]
        } else {
            JobView { name: k, scheduled_execution_time: now, in_progress: false }
        }
    &&& post.sessions == pre.sessions
}

/// The names returned by reconciliation: each was a row of the table before
/// and is not a configured kind.
pub open spec fn deleted_names_ok(pre: DbView, deleted: Seq<String>) -> bool {
    forall|j: int|
        0 <= j < deleted.len() ==> pre.jobs.dom().contains((#[trigger] deleted[j])@)
            && !job_kind_names().contains(deleted[j]@)
}

/// The report of reconciliation is complete: every row of the table whose
/// name is not a configured kind appears among the returned names.
pub open spec fn deleted_names_complete(pre: DbView, deleted: Seq<String>) -> bool {
    forall|k: Seq<char>|
        #[trigger] pre.jobs.dom().contains(k) && !job_kind_names().contains(k) ==> exists|j: int|
            0 <= j < deleted.len() && (#[trigger] deleted[j])@ == k
}

/// Whether `k` is the key of a row that is due at `now`, not in progress,
/// and of smallest scheduled execution time among such rows.
pub open spec fn is_min_eligible(jobs: Map<Seq<char>, JobView>, k: Seq<char>, now: int) -> bool {
    &&& jobs.dom().contains(k)
    &&& job_eligible(jobs[k], now)
    &&& forall|k2: Seq<char>|
        jobs.dom().contains(k2) && job_eligible(#[trigger] jobs[k2], now)
            ==> jobs[k].scheduled_execution_time <= jobs[k2].scheduled_execution_time
}

/// Whether no configured job kind is persisted under the name `k`.
pub open spec fn unknown_job_name(k: Seq<char>) -> bool {
    forall|kind: JobName| #[trigger] kind.spec_str() != k
}

/// What one reservation attempt does to the store and returns.
pub open spec fn reserve_post(
    pre: DbView,
    post: DbView,
    now: int,
    outcome: Result<Option<InProgressJob>, TransactionError<RVocError>>,
) -> bool {
    &&& post.sessions == pre.sessions
    &&& match outcome {
        Ok(None) => (post.jobs == pre.jobs && (forall|k: Seq<char>|
            pre.jobs.dom().contains(k) ==> !job_eligible(#[trigger] pre.jobs[k], now))) || (exists|
            k: Seq<char>,
        |
            #[trigger] is_min_eligible(pre.jobs, k, now) && unknown_job_name(k) && post.jobs
                == pre.jobs.remove(k)),
        Ok(Some(job)) => exists|k: Seq<char>|
            {
                &&& #[trigger] is_min_eligible(pre.jobs, k, now)
                &&& job.name.spec_str() == k
                &&& job.scheduled_time.millis == pre.jobs[k].scheduled_execution_time
                &&& job.start_time.millis == now
                &&& !pre.jobs[k].in_progress
                &&& post.jobs == pre.jobs.insert(
                    k,
                    JobView {
                        name: k,
                        scheduled_execution_time: pre.jobs[k].scheduled_execution_time,
                        in_progress: true,
                    },
                )
            },
        Err(_) => false,
    }
}

/// What one completion attempt does to the store: the row of the completed
/// kind, if it still exists, is rescheduled to `next` and released.
pub open spec fn complete_post(
    pre: DbView,
    post: DbView,
    name: Seq<char>,
    next: int,
    outcome: Result<(), TransactionError<RVocError>>,
) -> bool {
    &&& post.sessions == pre.sessions
    &&& outcome == Ok::<(), TransactionError<RVocError>>(())
    &&& if pre.jobs.dom().contains(name) {
        post.jobs == pre.jobs.insert(
            name,
            JobView { name, scheduled_execution_time: next, in_progress: false },
        )
    } else {
        post.jobs == pre.jobs
    }
}

/// The unit of work of startup reconciliation.
pub struct InitialiseJobQueueUnit {
    /// The instant at which newly registered rows become due.
    pub now: Instant,
}

impl UnitOfWork<Vec<String>, RVocError> for InitialiseJobQueueUnit {
    open spec fn post(
        &self,
        unit_after: Self,
        db_before: DbView,
        db_after: DbView,
        outcome: Result<Vec<String>, TransactionError<RVocError>>,
    ) -> bool {
        &&& unit_after == *self
        &&& match outcome {
            Ok(deleted) => reconcile_post(db_before, db_after, self.now.millis as int)
                && deleted_names_ok(db_before, deleted@) && deleted_names_complete(
                db_before,
                deleted@,
            ),
            Err(_) => false,
        }
    }

    fn attempt(&mut self, db: &mut Database) -> (outcome: Result<
        Vec<String>,
        TransactionError<RVocError>,
    >) {
        let ghost pre = db@;
        let kinds = JobName::all();
        let mut kind_names: Vec<String> = Vec::new();
        let mut i: usize = 0;
        while i < kinds.len()
            invariant
                old(db).wf(),
                db.wf(),
                pre == old(db)@,
                i <= kinds@.len(),
                kinds@.len() == 1,
                kinds@[0] == JobName::UpdateWiktionary,
                kind_names@.len() == i,
                forall|j: int|
                    0 <= j < i ==> (#[trigger] kind_names@[j])@ == kinds@[j].spec_str(),
                db@.sessions == pre.sessions,
                forall|k: Seq<char>|
                    #[trigger] db@.jobs.dom().contains(k) <==> pre.jobs.dom().contains(k) || (
                    exists|j: int| 0 <= j < i && (#[trigger] kinds@[j]).spec_str() == k),
                forall|k: Seq<char>|
                    db@.jobs.dom().contains(k) ==> #[trigger] db@.jobs[k] == if pre.jobs.dom().contains(
                        k,
                    ) {
                        pre.jobs[k]
                    } else {
                        JobView {
                            name: k,
                            scheduled_execution_time: self.now.millis as int,
                            in_progress: false,
                        }
                    },
            decreases kinds@.len() - i,
        {
            let name = kinds[i].as_string();
            let registered = name.clone();
            if !db.jobs_contains(&name) {
                db.jobs_insert(
                    ScheduledJob {
                        name,
                        scheduled_execution_time: self.now,
                        in_progress: false,
                    },
                );
            }
            kind_names.push(registered);
            i = i + 1;
        }
        let ghost mid = db@;
        let deleted = db.jobs_retain(&kind_names);
        proof {
            assert(name_set(kind_names@) =~= job_kind_names()) by {
                assert forall|k: Seq<char>| #[trigger]
                    name_set(kind_names@).contains(k) implies job_kind_names().contains(k) by {
                    let j = choose|j: int|
                        0 <= j < kind_names@.len() && (#[trigger] kind_names@[j])@ == k;
                    assert(kinds@[j].spec_str() == k);
                }
                assert forall|k: Seq<char>| #[trigger]
                    job_kind_names().contains(k) implies name_set(kind_names@).contains(k) by {
                    let kind = choose|kind: JobName| (#[trigger] kind.spec_str()) == k;
                    assert(kind == JobName::UpdateWiktionary);
                    assert((kind_names@[0])@ == k);
                }
            }
            assert(db@.jobs.dom() =~= job_kind_names()) by {
                assert forall|k: Seq<char>| #[trigger]
                    job_kind_names().contains(k) implies db@.jobs.dom().contains(k) by {
                    let kind = choose|kind: JobName| (#[trigger] kind.spec_str()) == k;
                    assert(kind == JobName::UpdateWiktionary);
                    assert((kinds@[0]).spec_str() == k);
                }
            }
            assert(deleted_names_complete(pre, deleted@)) by {
                assert forall|k: Seq<char>| #[trigger] pre.jobs.dom().contains(k)
                    && !job_kind_names().contains(k) implies exists|j: int|
                    0 <= j < deleted@.len() && (#[trigger] deleted@[j])@ == k by {
                    assert(mid.jobs.dom().contains(k));
                    assert(!name_set(kind_names@).contains(k));
                    assert(removed_names_reported(mid.jobs, name_set(kind_names@), deleted@));
                    assert(mid.jobs.dom().contains(k) && !name_set(kind_names@).contains(k));
                }
            }
            assert(reconcile_post(pre, db@, self.now.millis as int)) by {
                assert forall|k: Seq<char>|
                    job_kind_names().contains(k) implies #[trigger] db@.jobs[k] == if pre.jobs.dom().contains(
                    k,
                ) {
                    pre.jobs[k]
                } else {
                    JobView {
                        name: k,
                        scheduled_execution_time: self.now.millis as int,
                        in_progress: false,
                    }
                } by {
                    assert(db@.jobs.dom().contains(k));
                }
            }
        }
        Ok(deleted)
    }
}

/// Reconcile the job table against the configured set of job kinds inside
/// one retried transaction: afterwards it holds exactly one row per kind,
/// newly registered rows being due at `now`. The names of deleted unknown
/// rows are returned so that the caller can log each deletion.
pub fn initialise_job_queue(db: &mut Database, configuration: &Configuration, now: Instant) -> (r:
    Result<Vec<String>, RVocError>)
    requires
        old(db).wf(),
    ensures
        final (db).wf(),
        r is Ok,
        reconcile_post(old(db)@, final (db)@, now.millis as int),
        match r {
            Ok(deleted) => deleted_names_ok(old(db)@, deleted@) && deleted_names_complete(
                old(db)@,
                deleted@,
            ),
            Err(_) => false,
        },
{
    let mut unit = InitialiseJobQueueUnit { now };
    let ghost u0 = unit;
    let ghost db0 = db@;
    let r = execute_transaction(db, &mut unit, configuration.maximum_transaction_retry_count);
    proof {
        assert forall|a: InitialiseJobQueueUnit, b: InitialiseJobQueueUnit, d1: DbView, d2: DbView, oc: Result<Vec<String>, TransactionError<RVocError>>|
            #[trigger] a.post(b, d1, d2, oc) implies !is_retryable::<Vec<String>, RVocError>(
            oc,
        ) by {}
        lemma_engine_single_attempt(
            u0,
            unit,
            db0,
            db@,
            configuration.maximum_transaction_retry_count,
            r,
        );
        if r is Err {
            let oc = choose|oc: Result<Vec<String>, TransactionError<RVocError>>|
                #[trigger] u0.post(unit, db0, db0, oc) && !(oc is Ok);
            assert(false);
        }

    }
    r
}

/// The unit of work of one reservation attempt.
pub struct ReserveJobUnit {
    /// The instant at which the reservation is made.
    pub now: Instant,
}

impl UnitOfWork<Option<InProgressJob>, RVocError> for ReserveJobUnit {
    open spec fn post(
        &self,
        unit_after: Self,
        db_before: DbView,
        db_after: DbView,
        outcome: Result<Option<InProgressJob>, TransactionError<RVocError>>,
    ) -> bool {
        &&& unit_after == *self
        &&& reserve_post(db_before, db_after, self.now.millis as int, outcome)
    }

    fn attempt(&mut self, db: &mut Database) -> (outcome: Result<
        Option<InProgressJob>,
        TransactionError<RVocError>,
    >) {
        match db.jobs_find_due(self.now) {
            None => Ok(None),
            Some(row) => {
                match JobName::from_str(&row.name) {
                    None => {
                        // Self-healing: a row whose name no longer parses
                        // into a known kind is deleted.
                        proof {
                            assert(is_min_eligible(db@.jobs, row@.name, self.now.millis as int));
                        }
                        db.jobs_remove(&row.name);
                        Ok(None)
                    },
                    Some(kind) => {
                        let ghost k = row@.name;
                        let ghost pre = db@;
                        let scheduled_time = row.scheduled_execution_time;
                        let updated = row.set_in_progress();
                        let had_row = db.jobs_set(updated);
                        proof {
                            assert(had_row);
                            assert(is_min_eligible(pre.jobs, k, self.now.millis as int));
                        }
                        Ok(
                            Some(
                                InProgressJob {
                                    scheduled_time,
                                    start_time: self.now,
                                    name: kind,
                                },
                            ),
                        )
                    },
                }
            },
        }
    }
}

/// Check if there is a job due at `now`. If yes, mark it as in progress in
/// one retried transaction — one conditional update, so that no second
/// reservation of the same job can succeed — and return the reservation.
/// A due row whose name is no longer a known kind is deleted and nothing is
/// reserved.
pub fn reserve_job(db: &mut Database, configuration: &Configuration, now: Instant) -> (r: Result<
    Option<InProgressJob>,
    RVocError,
>)
    requires
        old(db).wf(),
    ensures
        final (db).wf(),
        r is Ok,
        match r {
            Ok(reservation) => reserve_post(
                old(db)@,
                final (db)@,
                now.millis as int,
                Ok(reservation),
            ),
            Err(_) => false,
        },
{
    let mut unit = ReserveJobUnit { now };
    let ghost u0 = unit;
    let ghost db0 = db@;
    let r: Result<Option<InProgressJob>, RVocError> = execute_transaction(
        db,
        &mut unit,
        configuration.maximum_transaction_retry_count,
    );
    proof {
        assert forall|a: ReserveJobUnit, b: ReserveJobUnit, d1: DbView, d2: DbView, oc: Result<Option<InProgressJob>, TransactionError<RVocError>>|
            #[trigger] a.post(b, d1, d2, oc) implies !is_retryable::<Option<InProgressJob>, RVocError>(
            oc,
        ) by {}
        lemma_engine_single_attempt(
            u0,
            unit,
            db0,
            db@,
            configuration.maximum_transaction_retry_count,
            r,
        );
        if r is Err {
            let oc = choose|oc: Result<Option<InProgressJob>, TransactionError<RVocError>>|
                #[trigger] u0.post(unit, db0, db0, oc) && !(oc is Ok);
            assert(false);
        }
    }
    match r {
        Ok(reservation) => Ok(reservation),
        Err(error) => Err(RVocError::AccessJobQueue { source: Box::new(error) }),
    }
}

/// The unit of work of one completion attempt.
pub struct CompleteJobUnit {
    /// The kind of the completed job.
    pub name: JobName,
    /// The instant at which the job runs next.
    pub next_scheduled_execution_time: Instant,
}

impl UnitOfWork<(), RVocError> for CompleteJobUnit {
    open spec fn post(
        &self,
        unit_after: Self,
        db_before: DbView,
        db_after: DbView,
        outcome: Result<(), TransactionError<RVocError>>,
    ) -> bool {
        &&& unit_after == *self
        &&& complete_post(
            db_before,
            db_after,
            self.name.spec_str(),
            self.next_scheduled_execution_time.millis as int,
            outcome,
        )
    }

    fn attempt(&mut self, db: &mut Database) -> (outcome: Result<(), TransactionError<RVocError>>) {
        let name = self.name.as_string();
        db.jobs_set(
            ScheduledJob {
                name,
                scheduled_execution_time: self.next_scheduled_execution_time,
                in_progress: false,
            },
        );
        Ok(())
    }
}

/// Complete a reserved job in one retried transaction: derive the next
/// scheduled time — the kind's interval after `finish_time` — and write it
/// back with `in_progress` cleared, so that the job returns to the
/// registered state.
pub fn complete_job(
    db: &mut Database,
    job: InProgressJob,
    finish_time: Instant,
    configuration: &Configuration,
) -> (r: Result<(), RVocError>)
    requires
        old(db).wf(),
        i64::MIN <= finish_time.millis + job.name.spec_interval(*configuration).millis
            <= i64::MAX,
    ensures
        final (db).wf(),
        r is Ok,
        complete_post(
            old(db)@,
            final (db)@,
            job.name.spec_str(),
            finish_time.millis + job.name.spec_interval(*configuration).millis,
            Ok(()),
        ),
{
    let completed_job = job.finish(finish_time);
    let next_scheduled_execution_time = completed_job.schedule_next_execution(configuration);
    let mut unit = CompleteJobUnit { name: completed_job.name, next_scheduled_execution_time };
    let ghost u0 = unit;
    let ghost db0 = db@;
    let r: Result<(), RVocError> = execute_transaction(
        db,
        &mut unit,
        configuration.maximum_transaction_retry_count,
    );
    proof {
        assert forall|a: CompleteJobUnit, b: CompleteJobUnit, d1: DbView, d2: DbView, oc: Result<(), TransactionError<RVocError>>|
            #[trigger] a.post(b, d1, d2, oc) implies !is_retryable::<(), RVocError>(oc) by {}
        lemma_engine_single_attempt(
            u0,
            unit,
            db0,
            db@,
            configuration.maximum_transaction_retry_count,
            r,
        );
        if r is Err {
            let oc = choose|oc: Result<(), TransactionError<RVocError>>|
                #[trigger] u0.post(unit, db0, db0, oc) && !(oc is Ok);
            assert(false);
        }
    }
    match r {
        Ok(()) => Ok(()),
        Err(error) => Err(RVocError::AccessJobQueue { source: Box::new(error) }),
    }
}

/// Two reservations in a row never return the same job: a successful
/// reservation sets `in_progress`, and a reservation only ever picks a row
/// that is not in progress, so the second caller observes a different job
/// or nothing.
pub proof fn lemma_reserve_exclusive(
    db0: DbView,
    db1: DbView,
    db2: DbView,
    now1: int,
    now2: int,
    job1: InProgressJob,
    job2: InProgressJob,
)
    requires
        reserve_post(db0, db1, now1, Ok(Some(job1))),
        reserve_post(db1, db2, now2, Ok(Some(job2))),
    ensures
        job1.name != job2.name,
{
    let k1 = choose|k: Seq<char>|
        {
            &&& #[trigger] is_min_eligible(db0.jobs, k, now1)
            &&& job1.name.spec_str() == k
            &&& job1.scheduled_time.millis == db0.jobs[k].scheduled_execution_time
            &&& job1.start_time.millis == now1
            &&& !db0.jobs[k].in_progress
            &&& db1.jobs == db0.jobs.insert(
                k,
                JobView {
                    name: k,
                    scheduled_execution_time: db0.jobs[k].scheduled_execution_time,
                    in_progress: true,
                },
            )
        };
    let k2 = choose|k: Seq<char>|
        {
            &&& #[trigger] is_min_eligible(db1.jobs, k, now2)
            &&& job2.name.spec_str() == k
            &&& job2.scheduled_time.millis == db1.jobs[k].scheduled_execution_time
            &&& job2.start_time.millis == now2
            &&& !db1.jobs[k].in_progress
            &&& db2.jobs == db1.jobs.insert(
                k,
                JobView {
                    name: k,
                    scheduled_execution_time: db1.jobs[k].scheduled_execution_time,
                    in_progress: true,
                },
            )
        };
    assert(db1.jobs[k1].in_progress);
    assert(k1 != k2);
    if job1.name == job2.name {
        assert(job1.name.spec_str() == job2.name.spec_str());
        assert(false);
    }
}

/// After completing a job of a kind with a positive interval, the row's new
/// scheduled execution time lies strictly after the finish time.
pub proof fn lemma_complete_schedules_after_finish(
    db0: DbView,
    db1: DbView,
    job: InProgressJob,
    finish: int,
    interval: int,
)
    requires
        complete_post(db0, db1, job.name.spec_str(), finish + interval, Ok(())),
        interval > 0,
        db0.jobs.dom().contains(job.name.spec_str()),
    ensures
        db1.jobs[job.name.spec_str()].scheduled_execution_time > finish,
        db1.jobs[job.name.spec_str()].in_progress == false,
{
}

} // verus!

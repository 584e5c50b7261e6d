//! Tests of the session store: creation and id collisions, reads, rotation,
//! idempotent deletion, clearing and the expiry sweep.

use rvoc_backend::config::Configuration;
use rvoc_backend::db::Database;
use rvoc_backend::error::RVocError;
use rvoc_backend::session::{
    delete_expired_sessions, RVocSessionData, RVocSessionStoreConnector, SessionExpiry,
    UpdateSessionResult, WriteSessionResult,
};
use rvoc_backend::session_id::SessionId;
use rvoc_backend::time::Instant;
use rvoc_backend::user::Username;

fn store() -> RVocSessionStoreConnector {
    RVocSessionStoreConnector::new(Configuration::test_configuration())
}

fn id_from(text: &str) -> SessionId {
    let configuration = Configuration::test_configuration();
    assert_eq!(text.len(), 32);
    SessionId::try_from_string(text.to_string(), &configuration).unwrap()
}

fn id_a() -> SessionId {
    id_from("aaaaaaaaaaaaaaaaaaaaaaaaaaaaaaaa")
}

fn id_b() -> SessionId {
    id_from("bbbbbbbbbbbbbbbbbbbbbbbbbbbbbbbb")
}

#[test]
fn create_twice_with_the_same_id_reports_the_collision() {
    let store = store();
    let mut db = Database::new();
    let expiry = SessionExpiry::DateTime(Instant { millis: 10_000 });
    let first = store
        .create_session(&mut db, &id_a(), &expiry, &RVocSessionData::Anonymous)
        .unwrap();
    assert_eq!(first, WriteSessionResult::Written);
    let second = store
        .create_session(&mut db, &id_a(), &expiry, &RVocSessionData::Anonymous)
        .unwrap();
    assert_eq!(second, WriteSessionResult::SessionIdExists);
    assert_eq!(db.sessions_count(), 1);
}

#[test]
fn read_returns_what_was_created() {
    let configuration = Configuration::test_configuration();
    let store = store();
    let mut db = Database::new();
    let expiry = SessionExpiry::DateTime(Instant { millis: 123_456 });
    let username = Username::new("frank".to_string(), &configuration).unwrap();
    store
        .create_session(&mut db, &id_a(), &expiry, &RVocSessionData::LoggedIn(username))
        .unwrap();
    let session = store.read_session(&mut db, &id_a()).unwrap().unwrap();
    assert_eq!(session.id.as_str(), id_a().as_str());
    assert_eq!(session.expiry, expiry);
    match session.data {
        RVocSessionData::LoggedIn(name) => assert_eq!(name.as_str(), "frank"),
        RVocSessionData::Anonymous => panic!("expected a logged-in session"),
    }
}

#[test]
fn never_expiry_round_trips_through_the_store() {
    let store = store();
    let mut db = Database::new();
    store
        .create_session(&mut db, &id_a(), &SessionExpiry::Never, &RVocSessionData::Anonymous)
        .unwrap();
    let session = store.read_session(&mut db, &id_a()).unwrap().unwrap();
    assert_eq!(session.expiry, SessionExpiry::Never);
}

#[test]
fn read_of_an_unknown_id_finds_nothing() {
    let store = store();
    let mut db = Database::new();
    assert!(store.read_session(&mut db, &id_a()).unwrap().is_none());
}

#[test]
fn update_with_an_unknown_previous_id_reports_not_found() {
    let store = store();
    let mut db = Database::new();
    let expiry = SessionExpiry::DateTime(Instant { millis: 10_000 });
    let outcome = store
        .update_session(&mut db, &id_b(), &id_a(), &expiry, &RVocSessionData::Anonymous)
        .unwrap();
    assert_eq!(outcome, UpdateSessionResult::PreviousSessionIdDoesNotExist);
    assert_eq!(db.sessions_count(), 0);
}

#[test]
fn update_rotates_the_session_id() {
    let store = store();
    let mut db = Database::new();
    let expiry = SessionExpiry::DateTime(Instant { millis: 10_000 });
    store
        .create_session(&mut db, &id_a(), &expiry, &RVocSessionData::Anonymous)
        .unwrap();
    let refreshed = SessionExpiry::DateTime(Instant { millis: 20_000 });
    let outcome = store
        .update_session(&mut db, &id_b(), &id_a(), &refreshed, &RVocSessionData::Anonymous)
        .unwrap();
    assert_eq!(outcome, UpdateSessionResult::Written);
    assert!(store.read_session(&mut db, &id_a()).unwrap().is_none());
    let session = store.read_session(&mut db, &id_b()).unwrap().unwrap();
    assert_eq!(session.expiry, refreshed);
}

#[test]
fn update_onto_an_existing_id_reports_the_collision() {
    let store = store();
    let mut db = Database::new();
    let expiry = SessionExpiry::DateTime(Instant { millis: 10_000 });
    store
        .create_session(&mut db, &id_a(), &expiry, &RVocSessionData::Anonymous)
        .unwrap();
    store
        .create_session(&mut db, &id_b(), &expiry, &RVocSessionData::Anonymous)
        .unwrap();
    let outcome = store
        .update_session(&mut db, &id_b(), &id_a(), &expiry, &RVocSessionData::Anonymous)
        .unwrap();
    assert_eq!(outcome, UpdateSessionResult::SessionIdExists);
    assert_eq!(db.sessions_count(), 2);
}

#[test]
fn update_onto_the_same_id_refreshes_the_session() {
    let store = store();
    let mut db = Database::new();
    let expiry = SessionExpiry::DateTime(Instant { millis: 10_000 });
    store
        .create_session(&mut db, &id_a(), &expiry, &RVocSessionData::Anonymous)
        .unwrap();
    let refreshed = SessionExpiry::DateTime(Instant { millis: 99_000 });
    let outcome = store
        .update_session(&mut db, &id_a(), &id_a(), &refreshed, &RVocSessionData::Anonymous)
        .unwrap();
    assert_eq!(outcome, UpdateSessionResult::Written);
    let session = store.read_session(&mut db, &id_a()).unwrap().unwrap();
    assert_eq!(session.expiry, refreshed);
}

#[test]
fn delete_of_an_absent_id_succeeds_and_read_finds_nothing() {
    let store = store();
    let mut db = Database::new();
    store.delete_session(&mut db, &id_a()).unwrap();
    assert!(store.read_session(&mut db, &id_a()).unwrap().is_none());
}

#[test]
fn delete_removes_only_the_given_session() {
    let store = store();
    let mut db = Database::new();
    let expiry = SessionExpiry::DateTime(Instant { millis: 10_000 });
    store
        .create_session(&mut db, &id_a(), &expiry, &RVocSessionData::Anonymous)
        .unwrap();
    store
        .create_session(&mut db, &id_b(), &expiry, &RVocSessionData::Anonymous)
        .unwrap();
    store.delete_session(&mut db, &id_a()).unwrap();
    assert!(store.read_session(&mut db, &id_a()).unwrap().is_none());
    assert!(store.read_session(&mut db, &id_b()).unwrap().is_some());
}

#[test]
fn clear_deletes_all_sessions() {
    let store = store();
    let mut db = Database::new();
    let expiry = SessionExpiry::DateTime(Instant { millis: 10_000 });
    store
        .create_session(&mut db, &id_a(), &expiry, &RVocSessionData::Anonymous)
        .unwrap();
    store
        .create_session(&mut db, &id_b(), &expiry, &RVocSessionData::Anonymous)
        .unwrap();
    store.clear(&mut db).unwrap();
    assert_eq!(db.sessions_count(), 0);
}

#[test]
fn expiry_sweep_deletes_exactly_the_expired_sessions() {
    let configuration = Configuration::test_configuration();
    let store = store();
    let mut db = Database::new();
    store
        .create_session(
            &mut db,
            &id_a(),
            &SessionExpiry::DateTime(Instant { millis: 1_000 }),
            &RVocSessionData::Anonymous,
        )
        .unwrap();
    store
        .create_session(
            &mut db,
            &id_b(),
            &SessionExpiry::Never,
            &RVocSessionData::Anonymous,
        )
        .unwrap();
    delete_expired_sessions(&mut db, &configuration, Instant { millis: 5_000 }).unwrap();
    assert!(store.read_session(&mut db, &id_a()).unwrap().is_none());
    assert!(store.read_session(&mut db, &id_b()).unwrap().is_some());
}

#[test]
fn a_session_expiring_exactly_now_survives_the_sweep() {
    let configuration = Configuration::test_configuration();
    let store = store();
    let mut db = Database::new();
    store
        .create_session(
            &mut db,
            &id_a(),
            &SessionExpiry::DateTime(Instant { millis: 5_000 }),
            &RVocSessionData::Anonymous,
        )
        .unwrap();
    delete_expired_sessions(&mut db, &configuration, Instant { millis: 5_000 }).unwrap();
    assert!(store.read_session(&mut db, &id_a()).unwrap().is_some());
}

#[test]
fn fresh_ids_are_drawn_until_one_is_free() {
    let store = store();
    let mut db = Database::new();
    let expiry = SessionExpiry::DateTime(Instant { millis: 10_000 });
    let id = store
        .create_session_with_new_id(&mut db, &expiry, &RVocSessionData::Anonymous)
        .unwrap();
    assert_eq!(id.as_str().len(), 32);
    assert!(SessionId::is_valid_session_id(id.as_str()));
    assert!(store.read_session(&mut db, &id).unwrap().is_some());
    assert_eq!(
        store.maximum_retries_on_id_collision(),
        Some(10)
    );
}

#[test]
fn session_id_validation_rejects_wrong_length_and_bad_characters() {
    let configuration = Configuration::test_configuration();
    match SessionId::try_from_string("short".to_string(), &configuration) {
        Err(RVocError::WrongSessionIdLength {
            given_session_id_length,
            configured_session_id_length,
        }) => {
            assert_eq!(given_session_id_length, 5);
            assert_eq!(configured_session_id_length, 32);
        }
        other => panic!("expected a length error, got {other:?}"),
    }
    let invalid = "!!!!!!!!!!!!!!!!!!!!!!!!!!!!!!!!".to_string();
    match SessionId::try_from_string(invalid, &configuration) {
        Err(RVocError::InvalidSessionId { session_id }) => {
            assert_eq!(session_id, "!!!!!!!!!!!!!!!!!!!!!!!!!!!!!!!!");
        }
        other => panic!("expected an invalid-id error, got {other:?}"),
    }
    assert!(SessionId::is_valid_session_id("AZaz09+/"));
    assert!(!SessionId::is_valid_session_id("white space"));
    assert!(!SessionId::is_valid_session_id("dash-ed"));
    assert!(SessionId::is_valid_session_id(""));
}

#[test]
fn generated_session_ids_have_the_configured_length_and_alphabet() {
    let configuration = Configuration::test_configuration();
    for _ in 0..16 {
        let id = SessionId::new(&configuration);
        assert_eq!(id.as_str().len(), 32);
        assert!(SessionId::is_valid_session_id(id.as_str()));
    }
}

//! Tests of the retry engine: how it treats temporary, permanent and
//! storage failures, and how often it invokes a unit of work.

use rvoc_backend::db::Database;
use rvoc_backend::error::{RVocError, StorageError};
use rvoc_backend::transactions::{
    execute_read_committed_transaction, execute_transaction, ScriptedOutcome, ScriptedUnit,
};

fn unit_of(outcomes: Vec<ScriptedOutcome>) -> ScriptedUnit {
    ScriptedUnit { outcomes }
}

#[test]
fn always_temporary_fails_with_retry_limit_after_max_retries_plus_one_invocations() {
    let mut db = Database::new();
    let max_retries: u64 = 4;
    let script = vec![ScriptedOutcome::ReportTemporary; 6];
    let initial = script.len();
    let mut unit = unit_of(script);
    let result: Result<u64, RVocError> = execute_transaction(&mut db, &mut unit, max_retries);
    match result {
        Err(RVocError::DatabaseTransactionRetryLimitReached { limit }) => {
            assert_eq!(limit, max_retries)
        }
        other => panic!("expected the retry limit, got {other:?}"),
    }
    let invocations = initial - unit.remaining_outcomes();
    assert_eq!(invocations, (max_retries + 1) as usize);
}

#[test]
fn permanent_failure_is_never_retried() {
    let mut db = Database::new();
    let mut unit = unit_of(vec![
        ScriptedOutcome::ReportPermanent,
        ScriptedOutcome::Succeed(1),
    ]);
    let result: Result<u64, RVocError> = execute_transaction(&mut db, &mut unit, 10);
    assert!(matches!(
        result,
        Err(RVocError::PermanentDatabaseTransactionError { .. })
    ));
    // Invocation count: exactly one outcome was consumed.
    assert_eq!(unit.remaining_outcomes(), 1);
}

#[test]
fn success_after_temporary_failures_is_returned() {
    let mut db = Database::new();
    let mut unit = unit_of(vec![
        ScriptedOutcome::ReportTemporary,
        ScriptedOutcome::ReportSerializationFailure,
        ScriptedOutcome::Succeed(42),
    ]);
    let result: Result<u64, RVocError> = execute_transaction(&mut db, &mut unit, 10);
    assert_eq!(result.unwrap(), 42);
    assert_eq!(unit.remaining_outcomes(), 0);
}

#[test]
fn serialization_failure_counts_as_temporary() {
    let mut db = Database::new();
    let max_retries: u64 = 2;
    let mut unit = unit_of(vec![ScriptedOutcome::ReportSerializationFailure; 3]);
    let result: Result<u64, RVocError> = execute_transaction(&mut db, &mut unit, max_retries);
    assert!(matches!(
        result,
        Err(RVocError::DatabaseTransactionRetryLimitReached { limit: 2 })
    ));
    assert_eq!(unit.remaining_outcomes(), 0);
}

#[test]
fn other_storage_failure_is_permanent() {
    let mut db = Database::new();
    let mut unit = unit_of(vec![
        ScriptedOutcome::ReportStorageFailure,
        ScriptedOutcome::Succeed(1),
    ]);
    let result: Result<u64, RVocError> = execute_transaction(&mut db, &mut unit, 10);
    match result {
        Err(RVocError::PermanentDatabaseTransactionError { source }) => {
            assert_eq!(source, StorageError::Other)
        }
        other => panic!("expected a permanent storage failure, got {other:?}"),
    }
    assert_eq!(unit.remaining_outcomes(), 1);
}

#[test]
fn read_committed_engine_retries_the_same_way() {
    let mut db = Database::new();
    let mut unit = unit_of(vec![
        ScriptedOutcome::ReportTemporary,
        ScriptedOutcome::Succeed(7),
    ]);
    let result: Result<u64, RVocError> =
        execute_read_committed_transaction(&mut db, &mut unit, 1);
    assert_eq!(result.unwrap(), 7);
    assert_eq!(unit.remaining_outcomes(), 0);
}

#[test]
fn zero_retries_means_one_attempt() {
    let mut db = Database::new();
    let mut unit = unit_of(vec![ScriptedOutcome::ReportTemporary; 2]);
    let result: Result<u64, RVocError> = execute_transaction(&mut db, &mut unit, 0);
    assert!(matches!(
        result,
        Err(RVocError::DatabaseTransactionRetryLimitReached { limit: 0 })
    ));
    assert_eq!(unit.remaining_outcomes(), 1);
}

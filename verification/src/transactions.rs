//! The retrying transaction engine.
//!
//! A unit of work is executed inside one transaction. A temporary failure
//! (an explicit marker, or a serialization failure reported by the storage)
//! is absorbed: the store is left unchanged and the unit is invoked again,
//! up to a bound. A permanent failure or any other storage error is returned
//! immediately. After `max_retries + 1` attempts without success the engine
//! gives up with the "too many temporary errors" failure.
//!
//! The engine's contract carries the trace of unit states across attempts,
//! so that callers can conclude how often a unit was invoked from what its
//! attempts can do.

use vstd::prelude::*;
use crate::db::{Database, DbView};
use crate::error::{
    PermanentTransactionError, StorageError, TooManyTemporaryTransactionErrors, TransactionError,
};

verus! {

/// The isolation level at which a transaction runs.
///
/// The in-memory model executes transactions one at a time, so the two
/// levels do not differ here; the surrounding program hands the level to
/// its database, where serializable is the default and read committed is
/// reserved for bulk work that tolerates races.
#[derive(Clone, Copy, PartialEq, Eq, Structural, Debug)]
pub enum TransactionIsolationLevel {
    Serializable,
    ReadCommitted,
}

/// A unit of work: the body of one transaction.
///
/// `attempt` runs the body once against the store, including the rollback
/// the database performs when the body fails: a failed attempt leaves the
/// store unchanged.
pub trait UnitOfWork<T, E>: Sized {
    /// The relation between the unit's state and the store before and after
    /// one attempt, and the attempt's outcome.
    spec fn post(
        &self,
        unit_after: Self,
        db_before: DbView,
        db_after: DbView,
        outcome: Result<T, TransactionError<E>>,
    ) -> bool;

    /// Run the body once inside one transaction.
    fn attempt(&mut self, db: &mut Database) -> (outcome: Result<T, TransactionError<E>>)
        requires
            old(db).wf(),
        ensures
            final (db).wf(),
            old(self).post(*final (self), old(db)@, final (db)@, outcome),
            !(outcome is Ok) ==> final (db)@ == old(db)@,
    ;
}

/// Whether an attempt's outcome is absorbed by retrying: an explicit
/// temporary marker, or a serialization failure reported by the storage.
pub open spec fn is_retryable<T, E>(outcome: Result<T, TransactionError<E>>) -> bool {
    match outcome {
        Ok(_) => false,
        Err(TransactionError::Temporary) => true,
        Err(TransactionError::Permanent(_)) => false,
        Err(TransactionError::Storage(s)) => s is SerializationFailure,
    }
}

/// One retried attempt: from unit state `u1` the unit reported a retryable
/// outcome and moved to state `u2`; the store was rolled back to `db`.
pub open spec fn retry_step<T, E, U: UnitOfWork<T, E>>(u1: U, u2: U, db: DbView) -> bool {
    exists|outcome: Result<T, TransactionError<E>>|
        is_retryable::<T, E>(outcome) && #[trigger] u1.post(u2, db, db, outcome)
}

/// A sequence of unit states joined by retried attempts, all starting from
/// the same store state `db`.
pub open spec fn retry_chain<T, E, U: UnitOfWork<T, E>>(us: Seq<U>, db: DbView) -> bool {
    forall|i: int|
        0 <= i < us.len() - 1 ==> #[trigger] retry_step::<T, E, U>(us[i], us[i + 1], db)
}

/// The trace of unit states the engine passed through: `us` starts at `u0`,
/// ends at `u1`, has one entry per attempt plus one, stays within the retry
/// budget, and all attempts but the last were retried from store state `db`.
pub open spec fn attempt_trace<T, E, U: UnitOfWork<T, E>>(
    us: Seq<U>,
    u0: U,
    u1: U,
    db: DbView,
    max_retries: u64,
) -> bool {
    &&& 2 <= us.len() <= max_retries + 2
    &&& us[0] == u0
    &&& us.last() == u1
    &&& retry_chain::<T, E, U>(us.drop_last(), db)
}

/// What the engine guarantees: the result is explained by a trace of
/// attempts of the unit, each retried attempt leaving the store unchanged.
pub open spec fn engine_post<T, E, U>(
    u0: U,
    u1: U,
    db0: DbView,
    db1: DbView,
    max_retries: u64,
    r: Result<T, E>,
) -> bool where
    E: PermanentTransactionError + TooManyTemporaryTransactionErrors,
    U: UnitOfWork<T, E>,
 {
    match r {
        Ok(t) => exists|us: Seq<U>|
            #[trigger] attempt_trace::<T, E, U>(us, u0, u1, db0, max_retries) && us[us.len()
                - 2].post(us[us.len() - 1], db0, db1, Ok(t)),
        Err(e) => db1 == db0 && {
            ||| exists|us: Seq<U>, pe: E|
                attempt_trace::<T, E, U>(us, u0, u1, db0, max_retries) && #[trigger] us[us.len()
                    - 2].post(
                    us[us.len() - 1],
                    db0,
                    db0,
                    Err(TransactionError::Permanent(pe)),
                ) && e == pe
            ||| exists|us: Seq<U>, s: StorageError|
                attempt_trace::<T, E, U>(us, u0, u1, db0, max_retries) && #[trigger] us[us.len()
                    - 2].post(us[us.len() - 1], db0, db0, Err(TransactionError::Storage(s))) && !(s
                    is SerializationFailure) && e == E::spec_permanent_error(s)
            ||| exists|us: Seq<U>|
                us.len() == max_retries + 2 && us[0] == u0 && us.last() == u1
                    && #[trigger] retry_chain::<T, E, U>(us, db0) && e
                    == E::spec_too_many_temporary_errors(max_retries)
        },
    }
}

/// Execute a unit of work at the given isolation level and retry on failure.
/// Temporary failures are absorbed and the unit is invoked again from
/// scratch; permanent failures are returned immediately. After
/// `max_retries + 1` attempts without success, the "too many temporary
/// errors" failure is returned. On any error the store is unchanged.
pub fn execute_transaction_with_isolation_level<T, E, U>(
    db: &mut Database,
    unit: &mut U,
    max_retries: u64,
    isolation_level: TransactionIsolationLevel,
) -> (r: Result<T, E>) where
    E: PermanentTransactionError + TooManyTemporaryTransactionErrors,
    U: UnitOfWork<T, E>,

    requires
        old(db).wf(),
    ensures
        final (db).wf(),
        engine_post::<T, E, U>(*old(unit), *final (unit), old(db)@, final (db)@, max_retries, r),
        !(r is Ok) ==> final (db)@ == old(db)@,
{
    let ghost u0 = *unit;
    let ghost db0 = db@;
    let ghost mut trace: Seq<U> = seq![*unit];
    let mut attempt_index: u64 = 0;
    loop
        invariant
            db.wf(),
            db@ == db0,
            db0 == old(db)@,
            u0 == *old(unit),
            attempt_index <= max_retries,
            trace.len() == attempt_index + 1,
            trace[0] == u0,
            trace.last() == *unit,
            retry_chain::<T, E, U>(trace, db0),
        decreases max_retries - attempt_index,
    {
        let ghost u_before = *unit;
        let ghost trace_before = trace;
        let outcome = unit.attempt(db);
        let ghost outcome_snapshot = outcome;
        proof {
            trace = trace.push(*unit);
            assert(trace.drop_last() =~= trace_before);
            assert(trace.last() == *unit);
        }
        match outcome {
            Ok(t) => {
                proof {
                    assert(attempt_trace::<T, E, U>(trace, u0, *unit, db0, max_retries));
                    assert(trace[trace.len() - 2] == u_before);
                    assert(u_before.post(*unit, db0, db@, Ok(t)));
                }
                return Ok(t);
            },
            Err(TransactionError::Permanent(e)) => {
                proof {
                    assert(attempt_trace::<T, E, U>(trace, u0, *unit, db0, max_retries));
                    assert(trace[trace.len() - 2] == u_before);
                    assert(u_before.post(*unit, db0, db0, Err(TransactionError::Permanent(e))));
                }
                return Err(e);
            },
            Err(TransactionError::Storage(s)) => {
                match s {
                    StorageError::SerializationFailure => {
                        proof {
                            assert(is_retryable::<T, E>(outcome_snapshot));
                            assert(u_before.post(*unit, db0, db0, outcome_snapshot));
                            assert(retry_step::<T, E, U>(u_before, *unit, db0));
                            assert forall|i: int| 0 <= i < trace.len() - 1 implies #[trigger] retry_step::<
                                T,
                                E,
                                U,
                            >(trace[i], trace[i + 1], db0) by {
                                if i < trace.len() - 2 {
                                    assert(trace[i] == trace_before[i]);
                                    assert(trace[i + 1] == trace_before[i + 1]);
                                    assert(retry_step::<T, E, U>(
                                        trace_before[i],
                                        trace_before[i + 1],
                                        db0,
                                    ));
                                } else {
                                    assert(trace[i] == u_before);
                                    assert(trace[i + 1] == *unit);
                                }
                            }
                        }
                    },
                    _ => {
                        proof {
                            assert(attempt_trace::<T, E, U>(trace, u0, *unit, db0, max_retries));
                            assert(trace[trace.len() - 2] == u_before);
                            assert(u_before.post(
                                *unit,
                                db0,
                                db0,
                                Err(TransactionError::Storage(s)),
                            ));
                        }
                        return Err(E::permanent_error(s));
                    },
                }
            },
            Err(TransactionError::Temporary) => {
                proof {
                    assert(is_retryable::<T, E>(outcome_snapshot));
                    assert(u_before.post(*unit, db0, db0, outcome_snapshot));
                    assert(retry_step::<T, E, U>(u_before, *unit, db0));
                    assert forall|i: int| 0 <= i < trace.len() - 1 implies #[trigger] retry_step::<
                        T,
                        E,
                        U,
                    >(trace[i], trace[i + 1], db0) by {
                        if i < trace.len() - 2 {
                            assert(trace[i] == trace_before[i]);
                            assert(trace[i + 1] == trace_before[i + 1]);
                            assert(retry_step::<T, E, U>(trace_before[i], trace_before[i + 1], db0));
                        } else {
                            assert(trace[i] == u_before);
                            assert(trace[i + 1] == *unit);
                        }
                    }
                }
            },
        }
        if attempt_index == max_retries {
            proof {
                assert(trace.len() == max_retries + 2);
                assert(retry_chain::<T, E, U>(trace, db0));
            }
            return Err(E::too_many_temporary_errors(max_retries));
        }
        attempt_index = attempt_index + 1;
    }
}

/// Execute a unit of work at serializable isolation and retry on failure.
/// See `execute_transaction_with_isolation_level`.
pub fn execute_transaction<T, E, U>(db: &mut Database, unit: &mut U, max_retries: u64) -> (r:
    Result<T, E>) where
    E: PermanentTransactionError + TooManyTemporaryTransactionErrors,
    U: UnitOfWork<T, E>,

    requires
        old(db).wf(),
    ensures
        final (db).wf(),
        engine_post::<T, E, U>(*old(unit), *final (unit), old(db)@, final (db)@, max_retries, r),
        !(r is Ok) ==> final (db)@ == old(db)@,
{
    execute_transaction_with_isolation_level(
        db,
        unit,
        max_retries,
        TransactionIsolationLevel::Serializable,
    )
}

/// Execute a unit of work at read committed isolation and retry on failure.
/// Read committed is the weakest isolation level and should only be used
/// for bulk work that tolerates races, such as the expiry sweep.
/// See `execute_transaction_with_isolation_level`.
pub fn execute_read_committed_transaction<T, E, U>(
    db: &mut Database,
    unit: &mut U,
    max_retries: u64,
) -> (r: Result<T, E>) where
    E: PermanentTransactionError + TooManyTemporaryTransactionErrors,
    U: UnitOfWork<T, E>,

    requires
        old(db).wf(),
    ensures
        final (db).wf(),
        engine_post::<T, E, U>(*old(unit), *final (unit), old(db)@, final (db)@, max_retries, r),
        !(r is Ok) ==> final (db)@ == old(db)@,
{
    execute_transaction_with_isolation_level(
        db,
        unit,
        max_retries,
        TransactionIsolationLevel::ReadCommitted,
    )
}


/// Extract one step of a retry chain.
proof fn lemma_chain_step<T, E, U: UnitOfWork<T, E>>(us: Seq<U>, db: DbView, i: int)
    requires
        retry_chain::<T, E, U>(us, db),
        0 <= i < us.len() - 1,
    ensures
        retry_step::<T, E, U>(us[i], us[i + 1], db),
{
}

/// Along a chain of retried attempts, a unit that counts each invocation
/// is invoked once per step.
proof fn lemma_retry_chain_counts<T, E, U: UnitOfWork<T, E>>(
    us: Seq<U>,
    db: DbView,
    invocations: spec_fn(U) -> int,
)
    requires
        retry_chain::<T, E, U>(us, db),
        us.len() >= 1,
        forall|a: U, b: U, d1: DbView, d2: DbView, oc: Result<T, TransactionError<E>>|
            #[trigger] a.post(b, d1, d2, oc) ==> invocations(b) == invocations(a) + 1,
    ensures
        invocations(us.last()) == invocations(us[0]) + us.len() - 1,
    decreases us.len(),
{
    if us.len() > 1 {
        let prefix = us.drop_last();
        assert(retry_chain::<T, E, U>(prefix, db)) by {
            assert forall|i: int| 0 <= i < prefix.len() - 1 implies #[trigger] retry_step::<
                T,
                E,
                U,
            >(prefix[i], prefix[i + 1], db) by {
                assert(prefix[i] == us[i]);
                assert(prefix[i + 1] == us[i + 1]);
                assert(retry_step::<T, E, U>(us[i], us[i + 1], db));
            }
        }
        lemma_retry_chain_counts(prefix, db, invocations);
        lemma_chain_step(us, db, us.len() - 2);
        assert(us[us.len() - 2 + 1] == us[us.len() - 1]);
        let oc = choose|oc: Result<T, TransactionError<E>>|
            is_retryable::<T, E>(oc) && #[trigger] us[us.len() - 2].post(
                us[us.len() - 1],
                db,
                db,
                oc,
            );
        assert(invocations(us[us.len() - 1]) == invocations(us[us.len() - 2]) + 1);
        assert(prefix.last() == us[us.len() - 2]);
        assert(prefix[0] == us[0]);
    }
}

/// A unit of work whose every attempt reports a retryable failure makes the
/// engine fail with the retry limit, after exactly `max_retries + 1`
/// invocations of the unit.
///
/// `invocations` abstracts how the unit counts its invocations: each
/// attempt must increment it by one.
pub proof fn lemma_always_temporary_reaches_retry_limit<T, E, U>(
    u0: U,
    u1: U,
    db0: DbView,
    db1: DbView,
    max_retries: u64,
    r: Result<T, E>,
    invocations: spec_fn(U) -> int,
) where E: PermanentTransactionError + TooManyTemporaryTransactionErrors, U: UnitOfWork<T, E>
    requires
        engine_post::<T, E, U>(u0, u1, db0, db1, max_retries, r),
        forall|a: U, b: U, d1: DbView, d2: DbView, oc: Result<T, TransactionError<E>>|
            #[trigger] a.post(b, d1, d2, oc) ==> is_retryable::<T, E>(oc) && invocations(b)
                == invocations(a) + 1,
    ensures
        r == Err::<T, E>(E::spec_too_many_temporary_errors(max_retries)),
        invocations(u1) == invocations(u0) + max_retries + 1,
        db1 == db0,
{
    match r {
        Ok(t) => {
            let us = choose|us: Seq<U>|
                #[trigger] attempt_trace::<T, E, U>(us, u0, u1, db0, max_retries) && us[us.len()
                    - 2].post(us[us.len() - 1], db0, db1, Ok(t));
            assert(is_retryable::<T, E>(Ok::<T, TransactionError<E>>(t)));
            assert(false);
        },
        Err(e) => {
            if exists|us: Seq<U>, pe: E|
                attempt_trace::<T, E, U>(us, u0, u1, db0, max_retries) && #[trigger] us[us.len()
                    - 2].post(us[us.len() - 1], db0, db0, Err(TransactionError::Permanent(pe)))
                    && e == pe {
                let (us, pe) = choose|us: Seq<U>, pe: E|
                    attempt_trace::<T, E, U>(us, u0, u1, db0, max_retries) && #[trigger] us[us.len()
                        - 2].post(us[us.len() - 1], db0, db0, Err(TransactionError::Permanent(pe)))
                        && e == pe;
                assert(is_retryable::<T, E>(
                    Err::<T, TransactionError<E>>(TransactionError::Permanent(pe)),
                ));
                assert(false);
            } else if exists|us: Seq<U>, s: StorageError|
                attempt_trace::<T, E, U>(us, u0, u1, db0, max_retries) && #[trigger] us[us.len()
                    - 2].post(us[us.len() - 1], db0, db0, Err(TransactionError::Storage(s))) && !(s
                    is SerializationFailure) && e == E::spec_permanent_error(s) {
                let (us, s) = choose|us: Seq<U>, s: StorageError|
                    attempt_trace::<T, E, U>(us, u0, u1, db0, max_retries) && #[trigger] us[us.len()
                        - 2].post(us[us.len() - 1], db0, db0, Err(TransactionError::Storage(s)))
                        && !(s is SerializationFailure) && e == E::spec_permanent_error(s);
                assert(is_retryable::<T, E>(
                    Err::<T, TransactionError<E>>(TransactionError::Storage(s)),
                ));
                assert(false);
            } else {
                let us = choose|us: Seq<U>|
                    us.len() == max_retries + 2 && us[0] == u0 && us.last() == u1
                        && #[trigger] retry_chain::<T, E, U>(us, db0) && e
                        == E::spec_too_many_temporary_errors(max_retries);
                lemma_retry_chain_counts(us, db0, invocations);
            }
        },
    }
}

/// A unit of work whose every attempt reports a permanent failure is never
/// retried: the engine returns an error after exactly one invocation.
///
/// `invocations` abstracts how the unit counts its invocations: each
/// attempt must increment it by one.
pub proof fn lemma_permanent_error_not_retried<T, E, U>(
    u0: U,
    u1: U,
    db0: DbView,
    db1: DbView,
    max_retries: u64,
    r: Result<T, E>,
    invocations: spec_fn(U) -> int,
) where E: PermanentTransactionError + TooManyTemporaryTransactionErrors, U: UnitOfWork<T, E>
    requires
        engine_post::<T, E, U>(u0, u1, db0, db1, max_retries, r),
        forall|a: U, b: U, d1: DbView, d2: DbView, oc: Result<T, TransactionError<E>>|
            #[trigger] a.post(b, d1, d2, oc) ==> (oc matches Err(TransactionError::Permanent(_)))
                && invocations(b) == invocations(a) + 1,
    ensures
        r is Err,
        invocations(u1) == invocations(u0) + 1,
        db1 == db0,
{
    match r {
        Ok(t) => {
            let us = choose|us: Seq<U>|
                #[trigger] attempt_trace::<T, E, U>(us, u0, u1, db0, max_retries) && us[us.len()
                    - 2].post(us[us.len() - 1], db0, db1, Ok(t));
            assert(false);
        },
        Err(e) => {
            if exists|us: Seq<U>, pe: E|
                attempt_trace::<T, E, U>(us, u0, u1, db0, max_retries) && #[trigger] us[us.len()
                    - 2].post(us[us.len() - 1], db0, db0, Err(TransactionError::Permanent(pe)))
                    && e == pe {
                let (us, pe) = choose|us: Seq<U>, pe: E|
                    attempt_trace::<T, E, U>(us, u0, u1, db0, max_retries) && #[trigger] us[us.len()
                        - 2].post(us[us.len() - 1], db0, db0, Err(TransactionError::Permanent(pe)))
                        && e == pe;
                assert(us.len() == 2) by {
                    if us.len() > 2 {
                        let prefix = us.drop_last();
                        lemma_chain_step(prefix, db0, 0);
                        assert(prefix[0int + 1] == prefix[1int]);
                        let oc = choose|oc: Result<T, TransactionError<E>>|
                            is_retryable::<T, E>(oc) && #[trigger] prefix[0].post(
                                prefix[1],
                                db0,
                                db0,
                                oc,
                            );
                        assert(oc matches Err(TransactionError::Permanent(_)));
                        assert(!is_retryable::<T, E>(oc));
                    }
                }
                assert(us[us.len() - 2] == u0);
                assert(us[us.len() - 1] == u1);
            } else if exists|us: Seq<U>, s: StorageError|
                attempt_trace::<T, E, U>(us, u0, u1, db0, max_retries) && #[trigger] us[us.len()
                    - 2].post(us[us.len() - 1], db0, db0, Err(TransactionError::Storage(s))) && !(s
                    is SerializationFailure) && e == E::spec_permanent_error(s) {
                let (us, s) = choose|us: Seq<U>, s: StorageError|
                    attempt_trace::<T, E, U>(us, u0, u1, db0, max_retries) && #[trigger] us[us.len()
                        - 2].post(us[us.len() - 1], db0, db0, Err(TransactionError::Storage(s)))
                        && !(s is SerializationFailure) && e == E::spec_permanent_error(s);
                assert(false);
            } else {
                let us = choose|us: Seq<U>|
                    us.len() == max_retries + 2 && us[0] == u0 && us.last() == u1
                        && #[trigger] retry_chain::<T, E, U>(us, db0) && e
                        == E::spec_too_many_temporary_errors(max_retries);
                lemma_chain_step(us, db0, 0);
                assert(us[0int + 1] == us[1int]);
                let oc = choose|oc: Result<T, TransactionError<E>>|
                    is_retryable::<T, E>(oc) && #[trigger] us[0].post(us[1], db0, db0, oc);
                assert(oc matches Err(TransactionError::Permanent(_)));
                assert(!is_retryable::<T, E>(oc));
                assert(false);
            }
        },
    }
}


/// For a unit of work that never reports a retryable failure, the engine
/// performs exactly one attempt: the result and the final store state come
/// from one invocation of the unit on the initial store state.
pub proof fn lemma_engine_single_attempt<T, E, U>(
    u0: U,
    u1: U,
    db0: DbView,
    db1: DbView,
    max_retries: u64,
    r: Result<T, E>,
) where E: PermanentTransactionError + TooManyTemporaryTransactionErrors, U: UnitOfWork<T, E>
    requires
        engine_post::<T, E, U>(u0, u1, db0, db1, max_retries, r),
        forall|a: U, b: U, d1: DbView, d2: DbView, oc: Result<T, TransactionError<E>>|
            #[trigger] a.post(b, d1, d2, oc) ==> !is_retryable::<T, E>(oc),
    ensures
        match r {
            Ok(t) => u0.post(u1, db0, db1, Ok(t)),
            Err(e) => db1 == db0 && exists|oc: Result<T, TransactionError<E>>|
                #[trigger] u0.post(u1, db0, db0, oc) && match oc {
                    Ok(_) => false,
                    Err(TransactionError::Temporary) => false,
                    Err(TransactionError::Permanent(pe)) => e == pe,
                    Err(TransactionError::Storage(s)) => !(s is SerializationFailure) && e
                        == E::spec_permanent_error(s),
                },
        },
{
    match r {
        Ok(t) => {
            let us = choose|us: Seq<U>|
                #[trigger] attempt_trace::<T, E, U>(us, u0, u1, db0, max_retries) && us[us.len()
                    - 2].post(us[us.len() - 1], db0, db1, Ok(t));
            assert(us.len() == 2) by {
                if us.len() > 2 {
                    let prefix = us.drop_last();
                    lemma_chain_step(prefix, db0, 0);
                    let oc = choose|oc: Result<T, TransactionError<E>>|
                        is_retryable::<T, E>(oc) && #[trigger] prefix[0int].post(
                            prefix[0int + 1],
                            db0,
                            db0,
                            oc,
                        );
                    assert(false);
                }
            }
            assert(us[us.len() - 2] == u0);
            assert(us[us.len() - 1] == u1);
        },
        Err(e) => {
            if exists|us: Seq<U>, pe: E|
                attempt_trace::<T, E, U>(us, u0, u1, db0, max_retries) && #[trigger] us[us.len()
                    - 2].post(us[us.len() - 1], db0, db0, Err(TransactionError::Permanent(pe)))
                    && e == pe {
                let (us, pe) = choose|us: Seq<U>, pe: E|
                    attempt_trace::<T, E, U>(us, u0, u1, db0, max_retries) && #[trigger] us[us.len()
                        - 2].post(us[us.len() - 1], db0, db0, Err(TransactionError::Permanent(pe)))
                        && e == pe;
                assert(us.len() == 2) by {
                    if us.len() > 2 {
                        let prefix = us.drop_last();
                        lemma_chain_step(prefix, db0, 0);
                        let oc = choose|oc: Result<T, TransactionError<E>>|
                            is_retryable::<T, E>(oc) && #[trigger] prefix[0int].post(
                                prefix[0int + 1],
                                db0,
                                db0,
                                oc,
                            );
                        assert(false);
                    }
                }
                assert(us[us.len() - 2] == u0);
                assert(us[us.len() - 1] == u1);
                assert(u0.post(u1, db0, db0, Err(TransactionError::Permanent(pe))));
            } else if exists|us: Seq<U>, s: StorageError|
                attempt_trace::<T, E, U>(us, u0, u1, db0, max_retries) && #[trigger] us[us.len()
                    - 2].post(us[us.len() - 1], db0, db0, Err(TransactionError::Storage(s))) && !(s
                    is SerializationFailure) && e == E::spec_permanent_error(s) {
                let (us, s) = choose|us: Seq<U>, s: StorageError|
                    attempt_trace::<T, E, U>(us, u0, u1, db0, max_retries) && #[trigger] us[us.len()
                        - 2].post(us[us.len() - 1], db0, db0, Err(TransactionError::Storage(s)))
                        && !(s is SerializationFailure) && e == E::spec_permanent_error(s);
                assert(us.len() == 2) by {
                    if us.len() > 2 {
                        let prefix = us.drop_last();
                        lemma_chain_step(prefix, db0, 0);
                        let oc = choose|oc: Result<T, TransactionError<E>>|
                            is_retryable::<T, E>(oc) && #[trigger] prefix[0int].post(
                                prefix[0int + 1],
                                db0,
                                db0,
                                oc,
                            );
                        assert(false);
                    }
                }
                assert(us[us.len() - 2] == u0);
                assert(us[us.len() - 1] == u1);
                assert(u0.post(u1, db0, db0, Err(TransactionError::Storage(s))));
            } else {
                let us = choose|us: Seq<U>|
                    us.len() == max_retries + 2 && us[0] == u0 && us.last() == u1
                        && #[trigger] retry_chain::<T, E, U>(us, db0) && e
                        == E::spec_too_many_temporary_errors(max_retries);
                lemma_chain_step(us, db0, 0);
                let oc = choose|oc: Result<T, TransactionError<E>>|
                    is_retryable::<T, E>(oc) && #[trigger] us[0int].post(us[0int + 1], db0, db0, oc);
                assert(false);
            }
        },
    }
}


/// One scripted outcome of a transaction attempt.
#[derive(Clone, Copy, PartialEq, Eq, Structural, Debug)]
pub enum ScriptedOutcome {
    /// The attempt succeeds with the given value.
    Succeed(u64),
    /// The attempt reports an explicit temporary failure.
    ReportTemporary,
    /// The attempt reports a serialization failure from the storage.
    ReportSerializationFailure,
    /// The attempt reports a storage failure that is not a serialization
    /// failure.
    ReportStorageFailure,
    /// The attempt reports a permanent failure.
    ReportPermanent,
}

/// The result of one attempt that follows a scripted outcome.
pub open spec fn scripted_result(outcome: ScriptedOutcome) -> Result<
    u64,
    TransactionError<crate::error::RVocError>,
> {
    match outcome {
        ScriptedOutcome::Succeed(value) => Ok(value),
        ScriptedOutcome::ReportTemporary => Err(TransactionError::Temporary),
        ScriptedOutcome::ReportSerializationFailure => Err(
            TransactionError::Storage(StorageError::SerializationFailure),
        ),
        ScriptedOutcome::ReportStorageFailure => Err(
            TransactionError::Storage(StorageError::Other),
        ),
        ScriptedOutcome::ReportPermanent => Err(
            TransactionError::Permanent(
                crate::error::RVocError::spec_permanent_error(StorageError::Other),
            ),
        ),
    }
}

/// A unit of work that replays a prescribed sequence of outcomes, consuming
/// one per attempt, and leaves the store untouched. It makes the engine's
/// retry behaviour observable: how often the engine invoked the unit is the
/// number of outcomes consumed. An exhausted script reports a permanent
/// failure.
pub struct ScriptedUnit {
    /// The outcomes the next attempts will report, in order.
    pub outcomes: Vec<ScriptedOutcome>,
}

impl ScriptedUnit {
    /// How many scripted outcomes have not been consumed yet.
    pub fn remaining_outcomes(&self) -> (r: usize)
        ensures
            r == self.outcomes@.len(),
    {
        self.outcomes.len()
    }
}

impl UnitOfWork<u64, crate::error::RVocError> for ScriptedUnit {
    open spec fn post(
        &self,
        unit_after: Self,
        db_before: DbView,
        db_after: DbView,
        outcome: Result<u64, TransactionError<crate::error::RVocError>>,
    ) -> bool {
        &&& db_after == db_before
        &&& if self.outcomes@.len() > 0 {
            unit_after.outcomes@ == self.outcomes@.subrange(1, self.outcomes@.len() as int)
                && outcome == scripted_result(self.outcomes@[0])
        } else {
            unit_after.outcomes@ == self.outcomes@ && outcome == Err::<
                u64,
                TransactionError<crate::error::RVocError>,
            >(
                TransactionError::Permanent(
                    crate::error::RVocError::spec_permanent_error(StorageError::Other),
                ),
            )
        }
    }

    fn attempt(&mut self, _db: &mut Database) -> (outcome: Result<
        u64,
        TransactionError<crate::error::RVocError>,
    >) {
        if self.outcomes.len() == 0 {
            return Err(
                TransactionError::Permanent(
                    crate::error::RVocError::permanent_error(StorageError::Other),
                ),
            );
        }
        let next = self.outcomes.remove(0);
        proof {
            assert(self.outcomes@ =~= old(self).outcomes@.subrange(
                1,
                old(self).outcomes@.len() as int,
            ));
        }
        match next {
            ScriptedOutcome::Succeed(value) => Ok(value),
            ScriptedOutcome::ReportTemporary => Err(TransactionError::Temporary),
            ScriptedOutcome::ReportSerializationFailure => Err(
                TransactionError::Storage(StorageError::SerializationFailure),
            ),
            ScriptedOutcome::ReportStorageFailure => Err(
                TransactionError::Storage(StorageError::Other),
            ),
            ScriptedOutcome::ReportPermanent => Err(
                TransactionError::Permanent(
                    crate::error::RVocError::permanent_error(StorageError::Other),
                ),
            ),
        }
    }
}

} // verus!

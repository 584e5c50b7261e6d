//! The session store, built on the retry engine.
//!
//! Sessions are rows keyed by an opaque session id. Creation is a single
//! insert whose unique-key violation is the expected id-collision outcome;
//! rotation deletes the old id and inserts the new one inside one
//! transaction; deletion is idempotent; the expiry sweep runs at read
//! committed isolation and deletes every expired row.

use vstd::prelude::*;
use crate::config::Configuration;
use crate::db::{live_session_keys, Database, DbView, SessionRecord, SessionView};
use crate::error::{
    PermanentTransactionError, RVocError, StorageError, TooManyTemporaryTransactionErrors,
    TransactionError, UserError,
};
use crate::session_id::{spec_valid_session_id, SessionId};
use crate::time::Instant;
use crate::transactions::{
    execute_read_committed_transaction, execute_transaction, is_retryable,
    lemma_engine_single_attempt, UnitOfWork,
};
use crate::user::Username;

verus! {

/// What a session stores: nothing for an anonymous visitor, or the name of
/// the logged-in user.
#[derive(Debug)]
pub enum RVocSessionData {
    /// An anonymous visitor.
    Anonymous,
    /// A logged-in user.
    LoggedIn(Username),
}

impl RVocSessionData {
    /// The username persisted for this session data, if any.
    pub open spec fn spec_username(&self) -> Option<Seq<char>> {
        match self {
            RVocSessionData::Anonymous => None,
            RVocSessionData::LoggedIn(username) => Some(username@),
        }
    }

    /// The username column value persisted for this session data.
    pub fn to_username_column(&self) -> (r: Option<String>)
        ensures
            r.deep_view() == self.spec_username(),
    {
        match self {
            RVocSessionData::Anonymous => None,
            RVocSessionData::LoggedIn(username) => Some(username.duplicate().into_string()),
        }
    }
}

impl Default for RVocSessionData {
    /// A fresh session is anonymous.
    fn default() -> (r: Self)
        ensures
            r is Anonymous,
    {
        RVocSessionData::Anonymous
    }
}

/// When a session expires: at an instant, or never.
#[derive(Clone, Copy, PartialEq, Eq, Structural, Debug)]
pub enum SessionExpiry {
    /// The session expires at the given instant.
    DateTime(Instant),
    /// The session never expires.
    Never,
}

impl SessionExpiry {
    /// The instant persisted for this expiry; "never" is persisted as the
    /// largest representable instant.
    pub open spec fn spec_millis(self) -> int {
        match self {
            SessionExpiry::DateTime(instant) => instant.millis as int,
            SessionExpiry::Never => i64::MAX as int,
        }
    }

    /// The instant persisted for this expiry.
    pub fn to_instant(self) -> (r: Instant)
        ensures
            r.millis == self.spec_millis(),
    {
        match self {
            SessionExpiry::DateTime(instant) => instant,
            SessionExpiry::Never => Instant::max_value(),
        }
    }

    /// The expiry a persisted instant denotes: the largest representable
    /// instant means "never".
    pub fn from_instant(instant: Instant) -> (r: SessionExpiry)
        ensures
            r.spec_millis() == instant.millis,
            (instant.millis == i64::MAX) == (r is Never),
    {
        if instant.millis == i64::MAX {
            SessionExpiry::Never
        } else {
            SessionExpiry::DateTime(instant)
        }
    }
}

/// A session as handed back to the web layer.
#[derive(Debug)]
pub struct Session {
    /// The session's id.
    pub id: SessionId,
    /// When the session expires.
    pub expiry: SessionExpiry,
    /// What the session stores.
    pub data: RVocSessionData,
}

/// The outcome of writing a session: written, or the chosen id already
/// exists and the caller should draw a fresh one.
#[derive(Clone, Copy, PartialEq, Eq, Structural, Debug)]
pub enum WriteSessionResult {
    /// The session was written.
    Written,
    /// The chosen session id already exists.
    SessionIdExists,
}

/// The failures of one session-write transaction.
#[derive(Debug)]
pub enum TryInsertSessionError {
    /// A permanent storage failure.
    PermanentTransactionError(StorageError),
    /// The retry limit was reached.
    TooManyTemporaryTransactionErrors { limit: u64 },
    /// The chosen session id already exists: an expected outcome, not an
    /// error.
    SessionIdExists,
    /// The session id to be replaced does not exist.
    PreviousSessionIdDoesNotExist,
}

impl PermanentTransactionError for TryInsertSessionError {
    open spec fn spec_permanent_error(source: StorageError) -> Self {
        TryInsertSessionError::PermanentTransactionError(source)
    }

    fn permanent_error(source: StorageError) -> (r: Self) {
        TryInsertSessionError::PermanentTransactionError(source)
    }
}

impl TooManyTemporaryTransactionErrors for TryInsertSessionError {
    open spec fn spec_too_many_temporary_errors(limit: u64) -> Self {
        TryInsertSessionError::TooManyTemporaryTransactionErrors { limit }
    }

    fn too_many_temporary_errors(limit: u64) -> (r: Self) {
        TryInsertSessionError::TooManyTemporaryTransactionErrors { limit }
    }
}

/// What one creation attempt does: insert the session if its id is fresh,
/// report the collision and leave the store unchanged otherwise.
pub open spec fn create_session_post(
    pre: DbView,
    post: DbView,
    id: Seq<char>,
    expiry: int,
    username: Option<Seq<char>>,
    outcome: Result<(), TransactionError<TryInsertSessionError>>,
) -> bool {
    &&& post.jobs == pre.jobs
    &&& if pre.sessions.dom().contains(id) {
        outcome == Err::<(), TransactionError<TryInsertSessionError>>(
            TransactionError::Permanent(TryInsertSessionError::SessionIdExists),
        ) && post.sessions == pre.sessions
    } else {
        outcome == Ok::<(), TransactionError<TryInsertSessionError>>(()) && post.sessions
            == pre.sessions.insert(id, SessionView { id, expiry, username })
    }
}

/// What one rotation attempt does: delete the previous id, then insert the
/// current one, inside one transaction. A missing previous id or a colliding
/// current id leaves the store unchanged.
pub open spec fn update_session_post(
    pre: DbView,
    post: DbView,
    current: Seq<char>,
    previous: Seq<char>,
    expiry: int,
    username: Option<Seq<char>>,
    outcome: Result<(), TransactionError<TryInsertSessionError>>,
) -> bool {
    &&& post.jobs == pre.jobs
    &&& if !pre.sessions.dom().contains(previous) {
        outcome == Err::<(), TransactionError<TryInsertSessionError>>(
            TransactionError::Permanent(TryInsertSessionError::PreviousSessionIdDoesNotExist),
        ) && post.sessions == pre.sessions
    } else if pre.sessions.remove(previous).dom().contains(current) {
        outcome == Err::<(), TransactionError<TryInsertSessionError>>(
            TransactionError::Permanent(TryInsertSessionError::SessionIdExists),
        ) && post.sessions == pre.sessions
    } else {
        outcome == Ok::<(), TransactionError<TryInsertSessionError>>(()) && post.sessions
            == pre.sessions.remove(previous).insert(
            current,
            SessionView { id: current, expiry, username },
        )
    }
}

/// The unit of work of one session creation attempt.
pub struct CreateSessionUnit {
    /// The id chosen for the new session.
    pub id: SessionId,
    /// The instant at which the session expires.
    pub expiry: Instant,
    /// The username column of the new session.
    pub username: Option<String>,
}

impl UnitOfWork<(), TryInsertSessionError> for CreateSessionUnit {
    open spec fn post(
        &self,
        unit_after: Self,
        db_before: DbView,
        db_after: DbView,
        outcome: Result<(), TransactionError<TryInsertSessionError>>,
    ) -> bool {
        &&& unit_after == *self
        &&& create_session_post(
            db_before,
            db_after,
            self.id@,
            self.expiry.millis as int,
            self.username.deep_view(),
            outcome,
        )
    }

    fn attempt(&mut self, db: &mut Database) -> (outcome: Result<
        (),
        TransactionError<TryInsertSessionError>,
    >) {
        if db.sessions_contains(&self.id) {
            Err(TransactionError::Permanent(TryInsertSessionError::SessionIdExists))
        } else {
            let username = match &self.username {
                Some(name) => Some(name.clone()),
                None => None,
            };
            db.sessions_insert(
                SessionRecord { id: self.id.duplicate(), expiry: self.expiry, username },
            );
            Ok(())
        }
    }
}

/// The unit of work of one session read attempt.
pub struct ReadSessionUnit {
    /// The id to look up.
    pub id: SessionId,
}

impl UnitOfWork<Option<SessionRecord>, RVocError> for ReadSessionUnit {
    open spec fn post(
        &self,
        unit_after: Self,
        db_before: DbView,
        db_after: DbView,
        outcome: Result<Option<SessionRecord>, TransactionError<RVocError>>,
    ) -> bool {
        &&& unit_after == *self
        &&& db_after == db_before
        &&& match outcome {
            Ok(None) => !db_before.sessions.dom().contains(self.id@),
            Ok(Some(record)) => db_before.sessions.dom().contains(self.id@)
                && record@ == db_before.sessions[self.id@],
            Err(_) => false,
        }
    }

    fn attempt(&mut self, db: &mut Database) -> (outcome: Result<
        Option<SessionRecord>,
        TransactionError<RVocError>,
    >) {
        Ok(db.sessions_get(&self.id))
    }
}

/// The unit of work of one session rotation attempt.
pub struct UpdateSessionUnit {
    /// The new id of the session.
    pub current_id: SessionId,
    /// The id to be replaced.
    pub previous_id: SessionId,
    /// The instant at which the rotated session expires.
    pub expiry: Instant,
    /// The username column of the rotated session.
    pub username: Option<String>,
}

impl UnitOfWork<(), TryInsertSessionError> for UpdateSessionUnit {
    open spec fn post(
        &self,
        unit_after: Self,
        db_before: DbView,
        db_after: DbView,
        outcome: Result<(), TransactionError<TryInsertSessionError>>,
    ) -> bool {
        &&& unit_after == *self
        &&& update_session_post(
            db_before,
            db_after,
            self.current_id@,
            self.previous_id@,
            self.expiry.millis as int,
            self.username.deep_view(),
            outcome,
        )
    }

    fn attempt(&mut self, db: &mut Database) -> (outcome: Result<
        (),
        TransactionError<TryInsertSessionError>,
    >) {
        if !db.sessions_contains(&self.previous_id) {
            return Err(
                TransactionError::Permanent(TryInsertSessionError::PreviousSessionIdDoesNotExist),
            );
        }
        if !self.current_id.matches(&self.previous_id) && db.sessions_contains(&self.current_id) {
            return Err(TransactionError::Permanent(TryInsertSessionError::SessionIdExists));
        }
        db.sessions_remove(&self.previous_id);
        let username = match &self.username {
            Some(name) => Some(name.clone()),
            None => None,
        };
        db.sessions_insert(
            SessionRecord { id: self.current_id.duplicate(), expiry: self.expiry, username },
        );
        Ok(())
    }
}

/// The unit of work of one session deletion attempt.
pub struct DeleteSessionUnit {
    /// The id to delete.
    pub id: SessionId,
}

impl UnitOfWork<(), RVocError> for DeleteSessionUnit {
    open spec fn post(
        &self,
        unit_after: Self,
        db_before: DbView,
        db_after: DbView,
        outcome: Result<(), TransactionError<RVocError>>,
    ) -> bool {
        &&& unit_after == *self
        &&& outcome == Ok::<(), TransactionError<RVocError>>(())
        &&& db_after.jobs == db_before.jobs
        &&& db_after.sessions == db_before.sessions.remove(self.id@)
    }

    fn attempt(&mut self, db: &mut Database) -> (outcome: Result<(), TransactionError<RVocError>>) {
        db.sessions_remove(&self.id);
        Ok(())
    }
}

/// The unit of work of clearing all sessions.
pub struct ClearSessionsUnit {
}

impl UnitOfWork<(), RVocError> for ClearSessionsUnit {
    open spec fn post(
        &self,
        unit_after: Self,
        db_before: DbView,
        db_after: DbView,
        outcome: Result<(), TransactionError<RVocError>>,
    ) -> bool {
        &&& unit_after == *self
        &&& outcome == Ok::<(), TransactionError<RVocError>>(())
        &&& db_after.jobs == db_before.jobs
        &&& db_after.sessions == Map::<Seq<char>, SessionView>::empty()
    }

    fn attempt(&mut self, db: &mut Database) -> (outcome: Result<(), TransactionError<RVocError>>) {
        db.sessions_clear();
        Ok(())
    }
}

/// The unit of work of the expiry sweep.
pub struct DeleteExpiredSessionsUnit {
    /// The instant against which expiry is compared.
    pub now: Instant,
}

impl UnitOfWork<(), RVocError> for DeleteExpiredSessionsUnit {
    open spec fn post(
        &self,
        unit_after: Self,
        db_before: DbView,
        db_after: DbView,
        outcome: Result<(), TransactionError<RVocError>>,
    ) -> bool {
        &&& unit_after == *self
        &&& outcome == Ok::<(), TransactionError<RVocError>>(())
        &&& db_after.jobs == db_before.jobs
        &&& db_after.sessions == db_before.sessions.restrict(
            live_session_keys(db_before.sessions, self.now.millis as int),
        )
    }

    fn attempt(&mut self, db: &mut Database) -> (outcome: Result<(), TransactionError<RVocError>>) {
        db.sessions_remove_expired(self.now);
        Ok(())
    }
}


/// The outcome of rotating a session: rotated, a colliding new id, or a
/// previous id that does not exist. The latter two are expected results of
/// legitimate concurrent activity, not errors.
#[derive(Clone, Copy, PartialEq, Eq, Structural, Debug)]
pub enum UpdateSessionResult {
    /// The session was rotated.
    Written,
    /// The chosen current session id already exists.
    SessionIdExists,
    /// The previous session id does not exist.
    PreviousSessionIdDoesNotExist,
}

/// The session store: create, read, rotate, delete and clear operations on
/// session rows, each executed through the retry engine.
pub struct RVocSessionStoreConnector {
    configuration: Configuration,
}

impl RVocSessionStoreConnector {
    /// The configuration the store was built with.
    pub closed spec fn spec_configuration(&self) -> Configuration {
        self.configuration
    }

    /// Build a session store over the given configuration.
    pub fn new(configuration: Configuration) -> (r: RVocSessionStoreConnector)
        ensures
            r.spec_configuration() == configuration,
    {
        RVocSessionStoreConnector { configuration }
    }

    /// How often a caller should redraw the session id on a collision.
    pub fn maximum_retries_on_id_collision(&self) -> (r: Option<u32>)
        ensures
            r == Some(self.spec_configuration().maximum_session_id_generation_retry_count),
    {
        Some(self.configuration.maximum_session_id_generation_retry_count)
    }

    /// Create a session under the given id in one retried transaction: a
    /// single insert. A unique-key collision on the id is the expected
    /// `SessionIdExists` outcome, on which the caller draws a fresh id.
    pub fn create_session(
        &self,
        db: &mut Database,
        current_id: &SessionId,
        session_expiry: &SessionExpiry,
        data: &RVocSessionData,
    ) -> (r: Result<WriteSessionResult, RVocError>)
        requires
            old(db).wf(),
        ensures
            final (db).wf(),
            final (db)@.jobs == old(db)@.jobs,
            r is Ok,
            match r {
                Ok(WriteSessionResult::Written) => !old(db)@.sessions.dom().contains(current_id@)
                    && final (db)@.sessions == old(db)@.sessions.insert(
                    current_id@,
                    SessionView {
                        id: current_id@,
                        expiry: session_expiry.spec_millis(),
                        username: data.spec_username(),
                    },
                ),
                Ok(WriteSessionResult::SessionIdExists) => old(db)@.sessions.dom().contains(
                    current_id@,
                ) && final (db)@.sessions == old(db)@.sessions,
                Err(_) => false,
            },
    {
        let mut unit = CreateSessionUnit {
            id: current_id.duplicate(),
            expiry: session_expiry.to_instant(),
            username: data.to_username_column(),
        };
        let ghost u0 = unit;
        let ghost db0 = db@;
        let engine_result: Result<(), TryInsertSessionError> = execute_transaction(
            db,
            &mut unit,
            self.configuration.maximum_transaction_retry_count,
        );
        proof {
            assert forall|a: CreateSessionUnit, b: CreateSessionUnit, d1: DbView, d2: DbView, oc: Result<(), TransactionError<TryInsertSessionError>>|
                #[trigger] a.post(b, d1, d2, oc) implies !is_retryable::<(), TryInsertSessionError>(
                oc,
            ) by {}
            lemma_engine_single_attempt(
                u0,
                unit,
                db0,
                db@,
                self.configuration.maximum_transaction_retry_count,
                engine_result,
            );
            if engine_result is Err {
                let oc = choose|oc: Result<(), TransactionError<TryInsertSessionError>>|
                    #[trigger] u0.post(unit, db0, db0, oc) && match oc {
                        Ok(_) => false,
                        Err(TransactionError::Temporary) => false,
                        Err(TransactionError::Permanent(pe)) => engine_result->Err_0 == pe,
                        Err(TransactionError::Storage(st)) => !(st is SerializationFailure)
                            && engine_result->Err_0
                            == TryInsertSessionError::spec_permanent_error(st),
                    };
                assert(db0.sessions.dom().contains(current_id@));
                assert(engine_result->Err_0 == TryInsertSessionError::SessionIdExists);
            }
        }
        match engine_result {
            Ok(()) => Ok(WriteSessionResult::Written),
            Err(TryInsertSessionError::SessionIdExists) => Ok(WriteSessionResult::SessionIdExists),
            Err(TryInsertSessionError::PermanentTransactionError(source)) => Err(
                RVocError::InsertSession {
                    source: Box::new(RVocError::PermanentDatabaseTransactionError { source }),
                },
            ),
            Err(TryInsertSessionError::TooManyTemporaryTransactionErrors { limit }) => Err(
                RVocError::InsertSession {
                    source: Box::new(RVocError::DatabaseTransactionRetryLimitReached { limit }),
                },
            ),
            Err(TryInsertSessionError::PreviousSessionIdDoesNotExist) => Err(
                RVocError::InsertSession {
                    source: Box::new(RVocError::PermanentDatabaseTransactionError {
                        source: StorageError::Other,
                    }),
                },
            ),
        }
    }

    /// Read the session with the given id in one retried transaction: a
    /// point lookup. An absent row yields nothing, which callers interpret
    /// as "not authenticated", never as an error. A stored username that no
    /// longer passes validation is reported as that validation error.
    pub fn read_session(&self, db: &mut Database, session_id: &SessionId) -> (r: Result<
        Option<Session>,
        RVocError,
    >)
        requires
            old(db).wf(),
        ensures
            final (db).wf(),
            final (db)@ == old(db)@,
            match r {
                Ok(None) => !old(db)@.sessions.dom().contains(session_id@),
                Ok(Some(session)) => {
                    &&& old(db)@.sessions.dom().contains(session_id@)
                    &&& session.id@ == session_id@
                    &&& session.expiry.spec_millis() == old(db)@.sessions[session_id@].expiry
                    &&& (old(db)@.sessions[session_id@].expiry == i64::MAX as int) == (
                    session.expiry is Never)
                    &&& session.data.spec_username() == old(db)@.sessions[session_id@].username
                    &&& match old(db)@.sessions[session_id@].username {
                        Some(name) => self.spec_configuration().minimum_username_length
                            <= name.len() <= self.spec_configuration().maximum_username_length,
                        None => true,
                    }
                },
                Err(RVocError::UserError(UserError::UsernameLength { actual, minimum, maximum })) => {
                    &&& old(db)@.sessions.dom().contains(session_id@)
                    &&& match old(db)@.sessions[session_id@].username {
                        Some(name) => actual == name.len() && !(
                        self.spec_configuration().minimum_username_length <= name.len()
                            <= self.spec_configuration().maximum_username_length),
                        None => false,
                    }
                    &&& minimum == self.spec_configuration().minimum_username_length
                    &&& maximum == self.spec_configuration().maximum_username_length
                },
                Err(_) => false,
            },
    {
        let mut unit = ReadSessionUnit { id: session_id.duplicate() };
        let ghost u0 = unit;
        let ghost db0 = db@;
        let engine_result: Result<Option<SessionRecord>, RVocError> = execute_transaction(
            db,
            &mut unit,
            self.configuration.maximum_transaction_retry_count,
        );
        proof {
            assert forall|a: ReadSessionUnit, b: ReadSessionUnit, d1: DbView, d2: DbView, oc: Result<Option<SessionRecord>, TransactionError<RVocError>>|
                #[trigger] a.post(b, d1, d2, oc) implies !is_retryable::<
                Option<SessionRecord>,
                RVocError,
            >(oc) by {}
            lemma_engine_single_attempt(
                u0,
                unit,
                db0,
                db@,
                self.configuration.maximum_transaction_retry_count,
                engine_result,
            );
            if engine_result is Err {
                let oc = choose|oc: Result<Option<SessionRecord>, TransactionError<RVocError>>|
                    #[trigger] u0.post(unit, db0, db0, oc) && !(oc is Ok);
                assert(false);
            }
        }
        match engine_result {
            Ok(None) => Ok(None),
            Ok(Some(record)) => {
                let expiry = SessionExpiry::from_instant(record.expiry);
                let data = match record.username {
                    Some(name) => {
                        match Username::new(name, &self.configuration) {
                            Ok(username) => RVocSessionData::LoggedIn(username),
                            Err(error) => {
                                return Err(error);
                            },
                        }
                    },
                    None => RVocSessionData::Anonymous,
                };
                Ok(Some(Session { id: session_id.duplicate(), expiry, data }))
            },
            Err(error) => Err(error),
        }
    }

    /// Rotate a session in one retried transaction: delete the previous id,
    /// then insert the current one. A missing previous id yields
    /// `PreviousSessionIdDoesNotExist`; a colliding current id yields
    /// `SessionIdExists`; in both cases the store is unchanged.
    pub fn update_session(
        &self,
        db: &mut Database,
        current_id: &SessionId,
        previous_id: &SessionId,
        session_expiry: &SessionExpiry,
        data: &RVocSessionData,
    ) -> (r: Result<UpdateSessionResult, RVocError>)
        requires
            old(db).wf(),
        ensures
            final (db).wf(),
            final (db)@.jobs == old(db)@.jobs,
            r is Ok,
            match r {
                Ok(UpdateSessionResult::Written) => {
                    &&& old(db)@.sessions.dom().contains(previous_id@)
                    &&& !old(db)@.sessions.remove(previous_id@).dom().contains(current_id@)
                    &&& final (db)@.sessions == old(db)@.sessions.remove(previous_id@).insert(
                        current_id@,
                        SessionView {
                            id: current_id@,
                            expiry: session_expiry.spec_millis(),
                            username: data.spec_username(),
                        },
                    )
                },
                Ok(UpdateSessionResult::SessionIdExists) => {
                    &&& old(db)@.sessions.dom().contains(previous_id@)
                    &&& old(db)@.sessions.remove(previous_id@).dom().contains(current_id@)
                    &&& final (db)@.sessions == old(db)@.sessions
                },
                Ok(UpdateSessionResult::PreviousSessionIdDoesNotExist) => {
                    &&& !old(db)@.sessions.dom().contains(previous_id@)
                    &&& final (db)@.sessions == old(db)@.sessions
                },
                Err(_) => false,
            },
    {
        let mut unit = UpdateSessionUnit {
            current_id: current_id.duplicate(),
            previous_id: previous_id.duplicate(),
            expiry: session_expiry.to_instant(),
            username: data.to_username_column(),
        };
        let ghost u0 = unit;
        let ghost db0 = db@;
        let engine_result: Result<(), TryInsertSessionError> = execute_transaction(
            db,
            &mut unit,
            self.configuration.maximum_transaction_retry_count,
        );
        proof {
            assert forall|a: UpdateSessionUnit, b: UpdateSessionUnit, d1: DbView, d2: DbView, oc: Result<(), TransactionError<TryInsertSessionError>>|
                #[trigger] a.post(b, d1, d2, oc) implies !is_retryable::<(), TryInsertSessionError>(
                oc,
            ) by {}
            lemma_engine_single_attempt(
                u0,
                unit,
                db0,
                db@,
                self.configuration.maximum_transaction_retry_count,
                engine_result,
            );
            if engine_result is Err {
                let oc = choose|oc: Result<(), TransactionError<TryInsertSessionError>>|
                    #[trigger] u0.post(unit, db0, db0, oc) && match oc {
                        Ok(_) => false,
                        Err(TransactionError::Temporary) => false,
                        Err(TransactionError::Permanent(pe)) => engine_result->Err_0 == pe,
                        Err(TransactionError::Storage(st)) => !(st is SerializationFailure)
                            && engine_result->Err_0
                            == TryInsertSessionError::spec_permanent_error(st),
                    };
                assert(engine_result->Err_0 == TryInsertSessionError::SessionIdExists
                    || engine_result->Err_0
                    == TryInsertSessionError::PreviousSessionIdDoesNotExist);
            }
        }
        match engine_result {
            Ok(()) => Ok(UpdateSessionResult::Written),
            Err(TryInsertSessionError::SessionIdExists) => Ok(UpdateSessionResult::SessionIdExists),
            Err(TryInsertSessionError::PreviousSessionIdDoesNotExist) => Ok(
                UpdateSessionResult::PreviousSessionIdDoesNotExist,
            ),
            Err(TryInsertSessionError::PermanentTransactionError(source)) => Err(
                RVocError::UpdateSession {
                    source: Box::new(RVocError::PermanentDatabaseTransactionError { source }),
                },
            ),
            Err(TryInsertSessionError::TooManyTemporaryTransactionErrors { limit }) => Err(
                RVocError::UpdateSession {
                    source: Box::new(RVocError::DatabaseTransactionRetryLimitReached { limit }),
                },
            ),
        }
    }

    /// Delete the session with the given id in one retried transaction.
    /// Deleting an absent id succeeds: a logout racing an expiry sweep must
    /// never surface a user-visible failure.
    pub fn delete_session(&self, db: &mut Database, session_id: &SessionId) -> (r: Result<
        (),
        RVocError,
    >)
        requires
            old(db).wf(),
        ensures
            final (db).wf(),
            final (db)@.jobs == old(db)@.jobs,
            r is Ok,
            final (db)@.sessions == old(db)@.sessions.remove(session_id@),
    {
        let mut unit = DeleteSessionUnit { id: session_id.duplicate() };
        let ghost u0 = unit;
        let ghost db0 = db@;
        let engine_result: Result<(), RVocError> = execute_transaction(
            db,
            &mut unit,
            self.configuration.maximum_transaction_retry_count,
        );
        proof {
            assert forall|a: DeleteSessionUnit, b: DeleteSessionUnit, d1: DbView, d2: DbView, oc: Result<(), TransactionError<RVocError>>|
                #[trigger] a.post(b, d1, d2, oc) implies !is_retryable::<(), RVocError>(oc) by {}
            lemma_engine_single_attempt(
                u0,
                unit,
                db0,
                db@,
                self.configuration.maximum_transaction_retry_count,
                engine_result,
            );
            if engine_result is Err {
                let oc = choose|oc: Result<(), TransactionError<RVocError>>|
                    #[trigger] u0.post(unit, db0, db0, oc) && !(oc is Ok);
                assert(false);
            }
        }
        match engine_result {
            Ok(()) => Ok(()),
            Err(error) => Err(RVocError::DeleteSession { source: Box::new(error) }),
        }
    }

    /// Delete all sessions ("log out everywhere") in one retried
    /// transaction.
    pub fn clear(&self, db: &mut Database) -> (r: Result<(), RVocError>)
        requires
            old(db).wf(),
        ensures
            final (db).wf(),
            final (db)@.jobs == old(db)@.jobs,
            r is Ok,
            final (db)@.sessions == Map::<Seq<char>, SessionView>::empty(),
    {
        let mut unit = ClearSessionsUnit {  };
        let ghost u0 = unit;
        let ghost db0 = db@;
        let engine_result: Result<(), RVocError> = execute_transaction(
            db,
            &mut unit,
            self.configuration.maximum_transaction_retry_count,
        );
        proof {
            assert forall|a: ClearSessionsUnit, b: ClearSessionsUnit, d1: DbView, d2: DbView, oc: Result<(), TransactionError<RVocError>>|
                #[trigger] a.post(b, d1, d2, oc) implies !is_retryable::<(), RVocError>(oc) by {}
            lemma_engine_single_attempt(
                u0,
                unit,
                db0,
                db@,
                self.configuration.maximum_transaction_retry_count,
                engine_result,
            );
            if engine_result is Err {
                let oc = choose|oc: Result<(), TransactionError<RVocError>>|
                    #[trigger] u0.post(unit, db0, db0, oc) && !(oc is Ok);
                assert(false);
            }
        }
        match engine_result {
            Ok(()) => Ok(()),
            Err(error) => Err(RVocError::DeleteAllSessions { source: Box::new(error) }),
        }
    }

    /// Create a session under a freshly drawn random id, redrawing on id
    /// collisions up to the configured bound. Whether a drawn id collides is
    /// decided by the store; after the bound is exhausted the request fails
    /// with `NoFreeSessionId` and the store is unchanged.
    pub fn create_session_with_new_id(
        &self,
        db: &mut Database,
        session_expiry: &SessionExpiry,
        data: &RVocSessionData,
    ) -> (r: Result<SessionId, RVocError>)
        requires
            old(db).wf(),
        ensures
            final (db).wf(),
            final (db)@.jobs == old(db)@.jobs,
            match r {
                Ok(id) => {
                    &&& !old(db)@.sessions.dom().contains(id@)
                    &&& id@.len() == self.spec_configuration().session_id_length
                    &&& spec_valid_session_id(id@)
                    &&& final (db)@.sessions == old(db)@.sessions.insert(
                        id@,
                        SessionView {
                            id: id@,
                            expiry: session_expiry.spec_millis(),
                            username: data.spec_username(),
                        },
                    )
                },
                Err(RVocError::NoFreeSessionId { attempts }) => attempts
                    == self.spec_configuration().maximum_session_id_generation_retry_count
                    && final (db)@.sessions == old(db)@.sessions,
                Err(_) => false,
            },
    {
        let max_attempts = self.configuration.maximum_session_id_generation_retry_count;
        let mut attempt: u32 = 0;
        while attempt < max_attempts
            invariant
                old(db).wf(),
                db.wf(),
                db@ == old(db)@,
                attempt <= max_attempts,
                max_attempts == self.spec_configuration().maximum_session_id_generation_retry_count,
            decreases max_attempts - attempt,
        {
            let id = SessionId::new(&self.configuration);
            match self.create_session(db, &id, session_expiry, data) {
                Ok(WriteSessionResult::Written) => {
                    return Ok(id);
                },
                Ok(WriteSessionResult::SessionIdExists) => {},
                Err(error) => {
                    proof {
                        assert(false);
                    }
                    return Err(error);
                },
            }
            attempt = attempt + 1;
        }
        Err(RVocError::NoFreeSessionId { attempts: max_attempts })
    }
}

/// Delete every session that is expired at `now` in one retried
/// transaction at read committed isolation: the sweep touches many rows and
/// tolerates races, because losing a race only removes a row that was
/// already expired.
pub fn delete_expired_sessions(db: &mut Database, configuration: &Configuration, now: Instant) -> (r:
    Result<(), RVocError>)
    requires
        old(db).wf(),
    ensures
        final (db).wf(),
        final (db)@.jobs == old(db)@.jobs,
        r is Ok,
        final (db)@.sessions == old(db)@.sessions.restrict(
            live_session_keys(old(db)@.sessions, now.millis as int),
        ),
{
    let mut unit = DeleteExpiredSessionsUnit { now };
    let ghost u0 = unit;
    let ghost db0 = db@;
    let engine_result: Result<(), RVocError> = execute_read_committed_transaction(
        db,
        &mut unit,
        configuration.maximum_transaction_retry_count,
    );
    proof {
        assert forall|a: DeleteExpiredSessionsUnit, b: DeleteExpiredSessionsUnit, d1: DbView, d2: DbView, oc: Result<(), TransactionError<RVocError>>|
            #[trigger] a.post(b, d1, d2, oc) implies !is_retryable::<(), RVocError>(oc) by {}
        lemma_engine_single_attempt(
            u0,
            unit,
            db0,
            db@,
            configuration.maximum_transaction_retry_count,
            engine_result,
        );
        if engine_result is Err {
            let oc = choose|oc: Result<(), TransactionError<RVocError>>|
                #[trigger] u0.post(unit, db0, db0, oc) && !(oc is Ok);
            assert(false);
        }
    }
    match engine_result {
        Ok(()) => Ok(()),
        Err(error) => Err(RVocError::DeleteAllSessions { source: Box::new(error) }),
    }
}

/// Creating a session twice with the same id succeeds the first time and
/// reports the id collision the second time, leaving the store unchanged.
pub proof fn lemma_create_twice_same_id(
    db0: DbView,
    db1: DbView,
    db2: DbView,
    id: Seq<char>,
    expiry1: int,
    username1: Option<Seq<char>>,
    expiry2: int,
    username2: Option<Seq<char>>,
    outcome1: Result<(), TransactionError<TryInsertSessionError>>,
    outcome2: Result<(), TransactionError<TryInsertSessionError>>,
)
    requires
        !db0.sessions.dom().contains(id),
        create_session_post(db0, db1, id, expiry1, username1, outcome1),
        create_session_post(db1, db2, id, expiry2, username2, outcome2),
    ensures
        outcome1 == Ok::<(), TransactionError<TryInsertSessionError>>(()),
        outcome2 == Err::<(), TransactionError<TryInsertSessionError>>(
            TransactionError::Permanent(TryInsertSessionError::SessionIdExists),
        ),
        db2.sessions == db1.sessions,
{
}

/// Rotating a session whose previous id was never created reports that the
/// previous id does not exist and leaves the store unchanged.
pub proof fn lemma_update_unknown_previous(
    db0: DbView,
    db1: DbView,
    current: Seq<char>,
    previous: Seq<char>,
    expiry: int,
    username: Option<Seq<char>>,
    outcome: Result<(), TransactionError<TryInsertSessionError>>,
)
    requires
        !db0.sessions.dom().contains(previous),
        update_session_post(db0, db1, current, previous, expiry, username, outcome),
    ensures
        outcome == Err::<(), TransactionError<TryInsertSessionError>>(
            TransactionError::Permanent(TryInsertSessionError::PreviousSessionIdDoesNotExist),
        ),
        db1.sessions == db0.sessions,
{
}

/// After a session id is deleted, the store has no row under it — whether
/// or not it had one before — so a subsequent read of that id finds
/// nothing; and deleting an id that was never there changes nothing.
pub proof fn lemma_delete_then_read_absent(db0: DbView, db1: DbView, id: Seq<char>)
    requires
        db1.sessions == db0.sessions.remove(id),
    ensures
        !db1.sessions.dom().contains(id),
        !db0.sessions.dom().contains(id) ==> db1.sessions == db0.sessions,
{
    if !db0.sessions.dom().contains(id) {
        assert(db0.sessions.remove(id) =~= db0.sessions);
    }
}

} // verus!

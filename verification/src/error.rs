//! The closed error taxonomy of the library.
//!
//! Failures of one transaction attempt are classified into temporary ones
//! (worth retrying), permanent ones (surfaced as-is) and storage errors,
//! of which only a serialization failure counts as temporary.

use vstd::prelude::*;

verus! {

/// A storage-level failure reported by the database for one statement
/// or at commit time.
#[derive(Clone, Copy, PartialEq, Eq, Structural, Debug)]
pub enum StorageError {
    /// The database aborted the transaction because it could not be
    /// serialized with respect to concurrent transactions. Retryable.
    SerializationFailure,
    /// An insert violated a unique constraint.
    UniqueViolation,
    /// Any other database error.
    Other,
}

/// The outcome a unit of work reports for one failed transaction attempt.
pub enum TransactionError<PermanentErrorType> {
    /// The transaction was unable to complete, but should be retried.
    Temporary,
    /// The transaction was unable to complete and should not be retried.
    Permanent(PermanentErrorType),
    /// A database error; only a serialization failure is retried.
    Storage(StorageError),
}

/// An error type that can represent a general permanent transaction failure.
pub trait PermanentTransactionError: Sized {
    /// The error instance that `permanent_error` constructs.
    spec fn spec_permanent_error(source: StorageError) -> Self;

    /// Construct the error instance representing a general permanent error.
    fn permanent_error(source: StorageError) -> (r: Self)
        ensures
            r == Self::spec_permanent_error(source),
    ;
}

/// An error type that can represent a permanent transaction failure caused
/// by too many temporary failures.
pub trait TooManyTemporaryTransactionErrors: Sized {
    /// The error instance that `too_many_temporary_errors` constructs.
    spec fn spec_too_many_temporary_errors(limit: u64) -> Self;

    /// Construct the error instance representing "too many temporary errors".
    /// The `limit` is the retry limit that was reached.
    fn too_many_temporary_errors(limit: u64) -> (r: Self)
        ensures
            r == Self::spec_too_many_temporary_errors(limit),
    ;
}

/// A user-caused failure, mapped to a client error by the web layer.
#[derive(PartialEq, Eq, Debug)]
pub enum UserError {
    /// A password whose length lies outside the configured range.
    PasswordLength { actual: usize, minimum: usize, maximum: usize },
    /// A username whose length lies outside the configured range.
    UsernameLength { actual: usize, minimum: usize, maximum: usize },
    /// The username already exists.
    UsernameExists,
    /// The username does not exist.
    UsernameDoesNotExist,
    /// The username or password did not match.
    InvalidUsernamePassword,
    /// The user has no password set.
    UserHasNoPassword,
    /// The user's login rate limit was reached.
    UserLoginRateLimitReached,
}

impl UserError {
    /// The HTTP status code the web layer reports for this error.
    pub fn status_code(&self) -> (r: u16)
        ensures
            r == match self {
                UserError::PasswordLength { .. } => 400u16,
                UserError::UsernameLength { .. } => 400u16,
                UserError::UsernameExists => 409u16,
                UserError::UsernameDoesNotExist => 400u16,
                UserError::InvalidUsernamePassword => 400u16,
                UserError::UserHasNoPassword => 400u16,
                UserError::UserLoginRateLimitReached => 429u16,
            },
    {
        match self {
            UserError::PasswordLength { .. } => 400,
            UserError::UsernameLength { .. } => 400,
            UserError::UsernameExists => 409,
            UserError::UsernameDoesNotExist => 400,
            UserError::InvalidUsernamePassword => 400,
            UserError::UserHasNoPassword => 400,
            UserError::UserLoginRateLimitReached => 429,
        }
    }
}

/// The top-level error of the library.
#[derive(Debug)]
pub enum RVocError {
    /// The configured shutdown timeout is negative.
    NegativeShutdownTimeout,
    /// The configured job queue poll interval is negative.
    NegativeJobQueuePollInterval,
    /// The password pepper length lies outside the allowed range.
    PasswordPepperLength { actual: usize, minimum: usize, maximum: usize },
    /// The configured minimum password length is too low.
    MinimumPasswordLength { actual: usize, minimum: usize },
    /// A permanent storage failure inside a transaction.
    PermanentDatabaseTransactionError { source: StorageError },
    /// The retry limit for a transaction was reached.
    DatabaseTransactionRetryLimitReached { limit: u64 },
    /// A job queue transaction failed.
    AccessJobQueue { source: Box<RVocError> },
    /// Inserting a session failed.
    InsertSession { source: Box<RVocError> },
    /// Reading a session failed.
    ReadSession { source: Box<RVocError> },
    /// Updating a session failed.
    UpdateSession { source: Box<RVocError> },
    /// Deleting a session failed.
    DeleteSession { source: Box<RVocError> },
    /// Deleting all sessions failed.
    DeleteAllSessions { source: Box<RVocError> },
    /// No free session id was found after the configured number of attempts.
    NoFreeSessionId { attempts: u32 },
    /// A session id of the wrong length was presented.
    WrongSessionIdLength { given_session_id_length: usize, configured_session_id_length: usize },
    /// A session id containing an invalid character was presented.
    InvalidSessionId { session_id: String },
    /// The parameters to the password hash function are wrong.
    PasswordArgon2IdParameters,
    /// Password hashing went wrong.
    PasswordArgon2IdHash,
    /// Password verification went wrong.
    PasswordArgon2IdVerify,
    /// A user-caused failure.
    UserError(UserError),
}

/// The usual result type of the library.
pub type RVocResult<T> = Result<T, RVocError>;

impl PermanentTransactionError for RVocError {
    open spec fn spec_permanent_error(source: StorageError) -> Self {
        RVocError::PermanentDatabaseTransactionError { source }
    }

    fn permanent_error(source: StorageError) -> (r: Self) {
        RVocError::PermanentDatabaseTransactionError { source }
    }
}

impl TooManyTemporaryTransactionErrors for RVocError {
    open spec fn spec_too_many_temporary_errors(limit: u64) -> Self {
        RVocError::DatabaseTransactionRetryLimitReached { limit }
    }

    fn too_many_temporary_errors(limit: u64) -> (r: Self) {
        RVocError::DatabaseTransactionRetryLimitReached { limit }
    }
}

} // verus!

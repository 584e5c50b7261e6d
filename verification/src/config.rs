//! The configuration of the application, as plain values.
//!
//! Reading the values from the environment is left to the surrounding
//! program; the library validates them and the components consume them.

use vstd::prelude::*;
use crate::error::{RVocError, UserError};
use crate::time::TimeDelta;

verus! {

/// The configuration of the application.
#[derive(Debug)]
pub struct Configuration {
    /// If set, then some features that are unsuitable for integration tests
    /// are disabled, for example the dictionary update job.
    pub integration_test_mode: bool,
    /// The amount of time to wait for processes to shut down gracefully.
    pub shutdown_timeout: TimeDelta,
    /// The interval at which the job queue will be polled.
    pub job_queue_poll_interval: TimeDelta,
    /// The maximum number of retries for a failed transaction.
    pub maximum_transaction_retry_count: u64,
    /// The minimum length of a username.
    pub minimum_username_length: usize,
    /// The maximum length of a username.
    pub maximum_username_length: usize,
    /// The minimum length of a password.
    pub minimum_password_length: usize,
    /// The maximum length of a password.
    pub maximum_password_length: usize,
    /// An additional salt that is shared between all passwords, but not
    /// stored in the database.
    pub password_pepper: Vec<u8>,
    /// The memory parameter of the Argon2id password hash function, in KiB.
    pub password_argon2id_minimum_memory_kib: u32,
    /// The iteration count parameter of the Argon2id password hash function.
    pub password_argon2id_minimum_iterations: u32,
    /// The parallelism parameter of the Argon2id password hash function.
    pub password_argon2id_parallelism: u32,
    /// The maximum number of retries for generating a random session id.
    pub maximum_session_id_generation_retry_count: u32,
    /// The length of a session id, in characters.
    pub session_id_length: usize,
    /// The number of login attempts allowed per counting interval.
    pub max_login_attempts_per_interval: i32,
    /// The number of failed login attempts allowed per counting interval.
    pub max_failed_login_attempts_per_interval: i32,
    /// The length of the login attempt counting interval.
    pub login_attempt_counting_interval: TimeDelta,
    /// The interval at which the dictionary update job runs.
    pub wiktionary_update_interval: TimeDelta,
    /// The interval at which expired sessions are deleted.
    pub delete_expired_sessions_interval: TimeDelta,
}

/// The smallest allowed length of the password pepper.
pub const PASSWORD_PEPPER_MIN_LENGTH: usize = 8;

/// The largest allowed length of the password pepper.
pub const PASSWORD_PEPPER_MAX_LENGTH: usize = 64;

/// The smallest value the configured minimum password length may take.
pub const MINIMUM_PASSWORD_LENGTH_MINIMUM: usize = 8;

impl Configuration {
    /// Whether the configuration passes all validity checks.
    pub open spec fn spec_valid(&self) -> bool {
        &&& self.shutdown_timeout.millis >= 0
        &&& self.job_queue_poll_interval.millis >= 0
        &&& PASSWORD_PEPPER_MIN_LENGTH <= self.password_pepper@.len()
            <= PASSWORD_PEPPER_MAX_LENGTH
        &&& self.minimum_password_length >= MINIMUM_PASSWORD_LENGTH_MINIMUM
    }

    /// Validate the configuration, returning the first violated rule.
    pub fn validate(&self) -> (r: Result<(), RVocError>)
        ensures
            r is Ok <==> self.spec_valid(),
            match r {
                Ok(()) => true,
                Err(RVocError::NegativeShutdownTimeout) => self.shutdown_timeout.millis < 0,
                Err(RVocError::NegativeJobQueuePollInterval) => self.shutdown_timeout.millis >= 0
                    && self.job_queue_poll_interval.millis < 0,
                Err(RVocError::PasswordPepperLength { actual, minimum, maximum }) => actual
                    == self.password_pepper@.len() && minimum == PASSWORD_PEPPER_MIN_LENGTH
                    && maximum == PASSWORD_PEPPER_MAX_LENGTH && !(minimum <= actual <= maximum),
                Err(RVocError::MinimumPasswordLength { actual, minimum }) => actual
                    == self.minimum_password_length && minimum == MINIMUM_PASSWORD_LENGTH_MINIMUM
                    && actual < minimum,
                Err(_) => false,
            },
    {
        if self.shutdown_timeout.is_negative() {
            return Err(RVocError::NegativeShutdownTimeout);
        }
        if self.job_queue_poll_interval.is_negative() {
            return Err(RVocError::NegativeJobQueuePollInterval);
        }
        let password_pepper_length = self.password_pepper.len();
        if password_pepper_length < PASSWORD_PEPPER_MIN_LENGTH || password_pepper_length
            > PASSWORD_PEPPER_MAX_LENGTH {
            return Err(
                RVocError::PasswordPepperLength {
                    actual: password_pepper_length,
                    minimum: PASSWORD_PEPPER_MIN_LENGTH,
                    maximum: PASSWORD_PEPPER_MAX_LENGTH,
                },
            );
        }
        if self.minimum_password_length < MINIMUM_PASSWORD_LENGTH_MINIMUM {
            return Err(
                RVocError::MinimumPasswordLength {
                    actual: self.minimum_password_length,
                    minimum: MINIMUM_PASSWORD_LENGTH_MINIMUM,
                },
            );
        }
        Ok(())
    }

    /// Check that a username has a length within the configured bounds.
    pub fn verify_username_length(&self, username: &str) -> (r: Result<(), RVocError>)
        ensures
            r is Ok <==> self.minimum_username_length <= username@.len()
                <= self.maximum_username_length,
            match r {
                Ok(()) => true,
                Err(RVocError::UserError(UserError::UsernameLength { actual, minimum, maximum })) =>
                    actual == username@.len() && minimum == self.minimum_username_length && maximum
                    == self.maximum_username_length,
                Err(_) => false,
            },
    {
        let len = username.unicode_len();
        if len < self.minimum_username_length || len > self.maximum_username_length {
            Err(
                RVocError::UserError(
                    UserError::UsernameLength {
                        actual: len,
                        minimum: self.minimum_username_length,
                        maximum: self.maximum_username_length,
                    },
                ),
            )
        } else {
            Ok(())
        }
    }

    /// Check that a password has a length within the configured bounds.
    pub fn verify_password_length(&self, password: &Vec<u8>) -> (r: Result<(), RVocError>)
        ensures
            r is Ok <==> self.minimum_password_length <= password@.len()
                <= self.maximum_password_length,
            match r {
                Ok(()) => true,
                Err(RVocError::UserError(UserError::PasswordLength { actual, minimum, maximum })) =>
                    actual == password@.len() && minimum == self.minimum_password_length && maximum
                    == self.maximum_password_length,
                Err(_) => false,
            },
    {
        let len = password.len();
        if len < self.minimum_password_length || len > self.maximum_password_length {
            Err(
                RVocError::UserError(
                    UserError::PasswordLength {
                        actual: len,
                        minimum: self.minimum_password_length,
                        maximum: self.maximum_password_length,
                    },
                ),
            )
        } else {
            Ok(())
        }
    }

    /// A fixed configuration for tests, with the same values the application
    /// uses by default.
    pub fn test_configuration() -> (r: Configuration)
        ensures
            r.spec_valid(),
            r.integration_test_mode,
            r.maximum_transaction_retry_count == 10,
            r.minimum_username_length == 3,
            r.maximum_username_length == 50,
            r.minimum_password_length == 8,
            r.maximum_password_length == 100,
            r.password_argon2id_minimum_memory_kib == 19456,
            r.password_argon2id_minimum_iterations == 2,
            r.password_argon2id_parallelism == 1,
            r.maximum_session_id_generation_retry_count == 10,
            r.session_id_length == 32,
            r.job_queue_poll_interval.millis == 60000,
            r.wiktionary_update_interval.millis == 86400000,
            r.delete_expired_sessions_interval.millis == 86400000,
            r.max_login_attempts_per_interval == 10,
            r.max_failed_login_attempts_per_interval == 3,
            r.login_attempt_counting_interval.millis == 60000,
            r.password_pepper@.len() == 12,
    {
        let password_pepper: Vec<u8> = vec![97, 98, 99, 49, 50, 51, 97, 98, 99, 49, 50, 51];
        Configuration {
            integration_test_mode: true,
            shutdown_timeout: TimeDelta { millis: 30000 },
            job_queue_poll_interval: TimeDelta { millis: 60000 },
            maximum_transaction_retry_count: 10,
            minimum_username_length: 3,
            maximum_username_length: 50,
            minimum_password_length: 8,
            maximum_password_length: 100,
            password_pepper,
            password_argon2id_minimum_memory_kib: 19456,
            password_argon2id_minimum_iterations: 2,
            password_argon2id_parallelism: 1,
            maximum_session_id_generation_retry_count: 10,
            session_id_length: 32,
            max_login_attempts_per_interval: 10,
            max_failed_login_attempts_per_interval: 3,
            login_attempt_counting_interval: TimeDelta { millis: 60000 },
            wiktionary_update_interval: TimeDelta { millis: 86400000 },
            delete_expired_sessions_interval: TimeDelta { millis: 86400000 },
        }
    }
}

} // verus!

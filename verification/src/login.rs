//! Login rate limiting: per-user attempt counters over a counting interval.

use vstd::prelude::*;
use crate::config::Configuration;
use crate::error::{RVocError, UserError};
use crate::password::{
    argon2_hash_parameters, argon2_matches, spec_hash_verifiable, spec_parameters_changed,
    PasswordHash,
};
use crate::time::Instant;
use crate::user::Username;

verus! {

/// What the login flow reads and updates about one user: the name, the
/// password hash, and the attempt counters of the current counting
/// interval.
#[derive(Debug)]
pub struct UserLoginInfo {
    /// The login name of the user.
    pub name: Username,
    /// The stored password hash of the user.
    pub password_hash: PasswordHash,
    /// How many login attempts were made in the current counting interval.
    pub login_attempt_count: i32,
    /// How many of them failed.
    pub failed_login_attempt_count: i32,
    /// When the counters reset next.
    pub next_login_attempt_count_reset: Instant,
}

impl UserLoginInfo {
    /// A user's login info with fresh counters that reset at `reset`.
    pub fn new(name: Username, password_hash: PasswordHash, reset: Instant) -> (r: UserLoginInfo)
        ensures
            r.name@ == name@,
            r.password_hash == password_hash,
            r.login_attempt_count == 0,
            r.failed_login_attempt_count == 0,
            r.next_login_attempt_count_reset == reset,
    {
        UserLoginInfo {
            name,
            password_hash,
            login_attempt_count: 0,
            failed_login_attempt_count: 0,
            next_login_attempt_count_reset: reset,
        }
    }

    /// Whether a login attempt may be made at `now`: the counting interval
    /// has passed — which resets both counters — or both counters are below
    /// their bounds.
    fn can_attempt_to_login(&mut self, now: Instant, configuration: &Configuration) -> (r: bool)
        ensures
            r == (now.millis >= old(self).next_login_attempt_count_reset.millis || (old(self).login_attempt_count < configuration.max_login_attempts_per_interval && old(self).failed_login_attempt_count
                < configuration.max_failed_login_attempts_per_interval)),
            now.millis >= old(self).next_login_attempt_count_reset.millis ==> final (self).login_attempt_count == 0 && final (self).failed_login_attempt_count == 0,
            now.millis < old(self).next_login_attempt_count_reset.millis ==> *final (self) == *old(self),
            final (self).name == old(self).name,
            final (self).password_hash == old(self).password_hash,
            final (self).next_login_attempt_count_reset == old(self).next_login_attempt_count_reset,
    {
        if now.millis >= self.next_login_attempt_count_reset.millis {
            self.login_attempt_count = 0;
            self.failed_login_attempt_count = 0;
            true
        } else {
            self.login_attempt_count < configuration.max_login_attempts_per_interval
                && self.failed_login_attempt_count
                < configuration.max_failed_login_attempts_per_interval
        }
    }

    /// Check if a login attempt can be made at `now` and count it if so.
    /// Returns true exactly when the attempt is allowed: the counting
    /// interval has passed, or both counters are below their bounds.
    pub fn try_login_attempt(&mut self, now: Instant, configuration: &Configuration) -> (r: bool)
        requires
            i64::MIN <= now.millis + configuration.login_attempt_counting_interval.millis
                <= i64::MAX,
        ensures
            r == (now.millis >= old(self).next_login_attempt_count_reset.millis || (old(self).login_attempt_count < configuration.max_login_attempts_per_interval && old(self).failed_login_attempt_count
                < configuration.max_failed_login_attempts_per_interval)),
            !r ==> *final (self) == *old(self),
            r ==> final (self).login_attempt_count == if now.millis >= old(self).next_login_attempt_count_reset.millis {
                1int
            } else {
                old(self).login_attempt_count + 1
            },
            r ==> final (self).failed_login_attempt_count == if now.millis >= old(self).next_login_attempt_count_reset.millis {
                0int
            } else {
                old(self).failed_login_attempt_count as int
            },
            r ==> final (self).next_login_attempt_count_reset.millis == if now.millis >= old(self).next_login_attempt_count_reset.millis || (old(self).login_attempt_count == 0 && old(self).failed_login_attempt_count == 0) {
                now.millis + configuration.login_attempt_counting_interval.millis
            } else {
                old(self).next_login_attempt_count_reset.millis as int
            },
            final (self).name == old(self).name,
            final (self).password_hash == old(self).password_hash,
    {
        if self.can_attempt_to_login(now, configuration) {
            if self.login_attempt_count == 0 && self.failed_login_attempt_count == 0 {
                self.next_login_attempt_count_reset = now.add_delta(
                    configuration.login_attempt_counting_interval,
                );
            }
            self.login_attempt_count = self.login_attempt_count + 1;
            true
        } else {
            false
        }
    }

    /// Record a failed login attempt; one must have been counted before.
    pub fn fail_login_attempt(&mut self)
        requires
            old(self).login_attempt_count > 0,
            old(self).failed_login_attempt_count < i32::MAX,
        ensures
            final (self).failed_login_attempt_count == old(self).failed_login_attempt_count + 1,
            final (self).login_attempt_count == old(self).login_attempt_count,
            final (self).next_login_attempt_count_reset == old(self).next_login_attempt_count_reset,
            final (self).name == old(self).name,
            final (self).password_hash == old(self).password_hash,
    {
        self.failed_login_attempt_count = self.failed_login_attempt_count + 1;
    }
}


/// What a successful login hands back to be written to the user's row: the
/// same user, the attempt counted against the rate limit, and a password
/// hash that still matches the presented password.
pub open spec fn login_recorded(
    info: UserLoginInfo,
    updated: Option<UserLoginInfo>,
    now: int,
    password: Seq<u8>,
    pepper: Seq<u8>,
) -> bool {
    match updated {
        Some(updated) => {
            &&& updated.name == info.name
            &&& updated.login_attempt_count == if now >= info.next_login_attempt_count_reset.millis {
                1int
            } else {
                info.login_attempt_count + 1
            }
            &&& updated.failed_login_attempt_count == if now
                >= info.next_login_attempt_count_reset.millis {
                0int
            } else {
                info.failed_login_attempt_count as int
            }
            &&& match updated.password_hash.spec_hash() {
                Some(current) => argon2_matches(password, pepper, current),
                None => false,
            }
        },
        None => false,
    }
}

/// The decision of one login transaction, from plain values to plain
/// values: the surrounding program reads the user's login info inside a
/// transaction, hands it here together with the presented password and the
/// current time, and writes the returned row back on success.
///
/// An unknown user and a wrong or ill-sized password are both answered with
/// the same "invalid username or password"; a user over the rate limit is
/// told so; on a successful login the returned row carries the counted
/// attempt and, where the hash parameters were outdated, the re-hashed
/// password.
pub fn check_login_attempt(
    user_login_info: Option<UserLoginInfo>,
    password: Vec<u8>,
    now: Instant,
    configuration: &Configuration,
) -> (r: (Option<UserLoginInfo>, Result<(), RVocError>))
    requires
        i64::MIN <= now.millis + configuration.login_attempt_counting_interval.millis
            <= i64::MAX,
        password@.len() <= 0xFFFFFFFF,
    ensures
        match user_login_info {
            None => r.0 is None && r.1 == Err::<(), RVocError>(
                RVocError::UserError(UserError::InvalidUsernamePassword),
            ),
            Some(info) => {
                let allowed = now.millis >= info.next_login_attempt_count_reset.millis || (
                info.login_attempt_count < configuration.max_login_attempts_per_interval
                    && info.failed_login_attempt_count
                    < configuration.max_failed_login_attempts_per_interval);
                &&& !allowed ==> r.0 is None && r.1 == Err::<(), RVocError>(
                    RVocError::UserError(UserError::UserLoginRateLimitReached),
                )
                &&& (allowed && !(configuration.minimum_password_length <= password@.len()
                    <= configuration.maximum_password_length)) ==> r.0 is None && r.1 == Err::<
                    (),
                    RVocError,
                >(RVocError::UserError(UserError::InvalidUsernamePassword))
                &&& (allowed && configuration.minimum_password_length <= password@.len()
                    <= configuration.maximum_password_length) ==> match info.password_hash.spec_hash() {
                    None => r.0 is None && r.1 == Err::<(), RVocError>(
                        RVocError::PasswordArgon2IdVerify,
                    ),
                    Some(stored) => {
                        &&& (r.1 matches Err(RVocError::PasswordArgon2IdVerify))
                            <==> !spec_hash_verifiable(configuration.password_pepper@, stored)
                        &&& !spec_hash_verifiable(configuration.password_pepper@, stored)
                            ==> r.0 is None
                        &&& spec_hash_verifiable(configuration.password_pepper@, stored) ==> {
                            &&& !argon2_matches(
                                password@,
                                configuration.password_pepper@,
                                stored,
                            ) ==> r.0 is None && r.1 == Err::<(), RVocError>(
                                RVocError::UserError(UserError::InvalidUsernamePassword),
                            )
                            &&& argon2_matches(
                                password@,
                                configuration.password_pepper@,
                                stored,
                            ) ==> {
                                &&& !spec_parameters_changed(
                                    argon2_hash_parameters(stored)->Some_0,
                                    *configuration,
                                ) ==> r.1 == Ok::<(), RVocError>(()) && login_recorded(
                                    info,
                                    r.0,
                                    now.millis as int,
                                    password@,
                                    configuration.password_pepper@,
                                )
                                &&& spec_parameters_changed(
                                    argon2_hash_parameters(stored)->Some_0,
                                    *configuration,
                                ) ==> match r.1 {
                                    Ok(()) => login_recorded(
                                        info,
                                        r.0,
                                        now.millis as int,
                                        password@,
                                        configuration.password_pepper@,
                                    ),
                                    Err(RVocError::PasswordArgon2IdHash) => r.0 is None,
                                    Err(_) => false,
                                }
                            }
                        }
                    },
                }
            },
        },
{
    let mut info = match user_login_info {
        Some(info) => info,
        None => {
            return (None, Err(RVocError::UserError(UserError::InvalidUsernamePassword)));
        },
    };
    if !info.try_login_attempt(now, configuration) {
        return (None, Err(RVocError::UserError(UserError::UserLoginRateLimitReached)));
    }
    if configuration.verify_password_length(&password).is_err() {
        return (None, Err(RVocError::UserError(UserError::InvalidUsernamePassword)));
    }
    let verify_result = match info.password_hash.verify(password, configuration) {
        Ok(verify_result) => verify_result,
        Err(error) => {
            return (None, Err(error));
        },
    };
    if !verify_result.matches {
        return (None, Err(RVocError::UserError(UserError::InvalidUsernamePassword)));
    }
    (Some(info), Ok(()))
}

} // verus!

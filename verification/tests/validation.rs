//! Tests of configuration validation, usernames, login rate limiting,
//! instants and the plain API shapes.

use rvoc_backend::api::SignupResponse;
use rvoc_backend::config::Configuration;
use rvoc_backend::error::{RVocError, UserError};
use rvoc_backend::login::{check_login_attempt, UserLoginInfo};
use rvoc_backend::password::PasswordHash;
use rvoc_backend::time::{Instant, TimeDelta};
use rvoc_backend::user::{LoggedInUser, Username};

#[test]
fn the_test_configuration_is_valid() {
    let configuration = Configuration::test_configuration();
    assert!(configuration.validate().is_ok());
}

#[test]
fn validation_rejects_a_negative_shutdown_timeout() {
    let mut configuration = Configuration::test_configuration();
    configuration.shutdown_timeout = TimeDelta { millis: -1 };
    assert!(matches!(
        configuration.validate(),
        Err(RVocError::NegativeShutdownTimeout)
    ));
}

#[test]
fn validation_rejects_a_negative_poll_interval() {
    let mut configuration = Configuration::test_configuration();
    configuration.job_queue_poll_interval = TimeDelta { millis: -1 };
    assert!(matches!(
        configuration.validate(),
        Err(RVocError::NegativeJobQueuePollInterval)
    ));
}

#[test]
fn validation_rejects_a_short_pepper() {
    let mut configuration = Configuration::test_configuration();
    configuration.password_pepper = vec![1, 2, 3];
    match configuration.validate() {
        Err(RVocError::PasswordPepperLength { actual, minimum, maximum }) => {
            assert_eq!(actual, 3);
            assert_eq!(minimum, 8);
            assert_eq!(maximum, 64);
        }
        other => panic!("expected a pepper length error, got {other:?}"),
    }
}

#[test]
fn validation_rejects_a_low_minimum_password_length() {
    let mut configuration = Configuration::test_configuration();
    configuration.minimum_password_length = 7;
    assert!(matches!(
        configuration.validate(),
        Err(RVocError::MinimumPasswordLength { actual: 7, minimum: 8 })
    ));
}

#[test]
fn username_length_bounds_are_enforced() {
    let configuration = Configuration::test_configuration();
    assert!(Username::new("ab".to_string(), &configuration).is_err());
    let name: String = ["a"; 51].concat();
    match Username::new(name, &configuration) {
        Err(RVocError::UserError(UserError::UsernameLength { actual, minimum, maximum })) => {
            assert_eq!(actual, 51);
            assert_eq!(minimum, 3);
            assert_eq!(maximum, 50);
        }
        other => panic!("expected a username length error, got {other:?}"),
    }
    let username = Username::new("anne".to_string(), &configuration).unwrap();
    assert_eq!(username.as_str(), "anne");
    let logged_in = LoggedInUser(username);
    assert_eq!(logged_in.as_str(), "anne");
    assert_eq!(logged_in.into_string(), "anne");
}

#[test]
fn password_length_bounds_are_enforced() {
    let configuration = Configuration::test_configuration();
    assert!(configuration.verify_password_length(&vec![0u8; 7]).is_err());
    assert!(configuration.verify_password_length(&vec![0u8; 8]).is_ok());
    assert!(configuration.verify_password_length(&vec![0u8; 100]).is_ok());
    match configuration.verify_password_length(&vec![0u8; 101]) {
        Err(RVocError::UserError(UserError::PasswordLength { actual, minimum, maximum })) => {
            assert_eq!(actual, 101);
            assert_eq!(minimum, 8);
            assert_eq!(maximum, 100);
        }
        other => panic!("expected a password length error, got {other:?}"),
    }
}

#[test]
fn login_attempts_are_rate_limited_per_interval() {
    let configuration = Configuration::test_configuration();
    let username = Username::new("anne".to_string(), &configuration).unwrap();
    let hash = PasswordHash::from_option_string(None);
    let now = Instant { millis: 1_000_000 };
    let mut info = UserLoginInfo::new(username, hash, Instant { millis: 1_060_000 });

    // Ten attempts are allowed per interval, the eleventh is not.
    for _ in 0..10 {
        assert!(info.try_login_attempt(now, &configuration));
    }
    assert!(!info.try_login_attempt(now, &configuration));

    // Once the interval has passed, the counters reset.
    let later = Instant { millis: 1_060_000 };
    assert!(info.try_login_attempt(later, &configuration));
    assert_eq!(info.login_attempt_count, 1);
}

#[test]
fn failed_attempts_block_earlier_than_the_attempt_bound() {
    let configuration = Configuration::test_configuration();
    let username = Username::new("anne".to_string(), &configuration).unwrap();
    let hash = PasswordHash::from_option_string(None);
    let now = Instant { millis: 1_000_000 };
    let mut info = UserLoginInfo::new(username, hash, Instant { millis: 2_000_000 });

    // Three failed attempts exhaust the failure budget.
    for _ in 0..3 {
        assert!(info.try_login_attempt(now, &configuration));
        info.fail_login_attempt();
    }
    assert!(!info.try_login_attempt(now, &configuration));
    assert_eq!(info.failed_login_attempt_count, 3);
}

#[test]
fn instants_and_durations_compute_exactly() {
    let a = Instant { millis: 1_000 };
    let b = a.add_delta(TimeDelta { millis: 500 });
    assert_eq!(b, Instant { millis: 1_500 });
    assert_eq!(b.delta_since(a), TimeDelta { millis: 500 });
    assert!(a.is_before(b));
    assert!(a.is_at_or_before(a));
    assert!(!b.is_at_or_before(a));
    assert_eq!(TimeDelta::from_seconds(2), TimeDelta { millis: 2_000 });
    assert!(TimeDelta { millis: 1 }.is_positive());
    assert!(TimeDelta { millis: -1 }.is_negative());
    assert!(TimeDelta { millis: 2 }.is_longer_than(TimeDelta { millis: 1 }));
    assert_eq!(
        TimeDelta { millis: 2 }.add(TimeDelta { millis: 3 }),
        TimeDelta { millis: 5 }
    );
    assert_eq!(Instant::max_value().millis, i64::MAX);
}

#[test]
fn user_errors_map_to_their_status_codes() {
    assert_eq!(
        UserError::PasswordLength { actual: 1, minimum: 2, maximum: 3 }.status_code(),
        400
    );
    assert_eq!(UserError::UsernameExists.status_code(), 409);
    assert_eq!(UserError::UserLoginRateLimitReached.status_code(), 429);
    assert_eq!(UserError::InvalidUsernamePassword.status_code(), 400);
}

#[test]
fn signup_responses_know_whether_they_failed() {
    assert!(!SignupResponse::Success.is_error());
    assert!(SignupResponse::Error.is_error());
}

#[test]
fn login_of_an_unknown_user_is_an_invalid_username_or_password() {
    let configuration = Configuration::test_configuration();
    let (updated, outcome) =
        check_login_attempt(None, b"mypassword".to_vec(), Instant { millis: 0 }, &configuration);
    assert!(updated.is_none());
    assert!(matches!(
        outcome,
        Err(RVocError::UserError(UserError::InvalidUsernamePassword))
    ));
}

#[test]
fn login_over_the_rate_limit_is_rejected_as_such() {
    let configuration = Configuration::test_configuration();
    let username = Username::new("anne".to_string(), &configuration).unwrap();
    let hash = PasswordHash::new(b"mypassword".to_vec(), &configuration).unwrap();
    let now = Instant { millis: 1_000_000 };
    let mut info = UserLoginInfo::new(username, hash, Instant { millis: 2_000_000 });
    for _ in 0..10 {
        assert!(info.try_login_attempt(now, &configuration));
    }
    let (updated, outcome) =
        check_login_attempt(Some(info), b"mypassword".to_vec(), now, &configuration);
    assert!(updated.is_none());
    assert!(matches!(
        outcome,
        Err(RVocError::UserError(UserError::UserLoginRateLimitReached))
    ));
}

#[test]
fn login_with_the_wrong_password_is_an_invalid_username_or_password() {
    let configuration = Configuration::test_configuration();
    let username = Username::new("anne".to_string(), &configuration).unwrap();
    let hash = PasswordHash::new(b"mypassword".to_vec(), &configuration).unwrap();
    let info = UserLoginInfo::new(username, hash, Instant { millis: 2_000_000 });
    let (updated, outcome) = check_login_attempt(
        Some(info),
        b"wrong password".to_vec(),
        Instant { millis: 1_000_000 },
        &configuration,
    );
    assert!(updated.is_none());
    assert!(matches!(
        outcome,
        Err(RVocError::UserError(UserError::InvalidUsernamePassword))
    ));
}

#[test]
fn login_with_the_correct_password_counts_the_attempt() {
    let configuration = Configuration::test_configuration();
    let username = Username::new("anne".to_string(), &configuration).unwrap();
    let hash = PasswordHash::new(b"mypassword".to_vec(), &configuration).unwrap();
    let info = UserLoginInfo::new(username, hash, Instant { millis: 2_000_000 });
    let (updated, outcome) = check_login_attempt(
        Some(info),
        b"mypassword".to_vec(),
        Instant { millis: 1_000_000 },
        &configuration,
    );
    assert!(outcome.is_ok());
    let updated = updated.unwrap();
    assert_eq!(updated.login_attempt_count, 1);
    assert_eq!(updated.failed_login_attempt_count, 0);
    assert_eq!(updated.name.as_str(), "anne");
}

#[test]
fn login_without_a_stored_password_fails_verification() {
    let configuration = Configuration::test_configuration();
    let username = Username::new("anne".to_string(), &configuration).unwrap();
    let hash = PasswordHash::from_option_string(None);
    let info = UserLoginInfo::new(username, hash, Instant { millis: 2_000_000 });
    let (updated, outcome) = check_login_attempt(
        Some(info),
        b"mypassword".to_vec(),
        Instant { millis: 1_000_000 },
        &configuration,
    );
    assert!(updated.is_none());
    assert!(matches!(outcome, Err(RVocError::PasswordArgon2IdVerify)));
}

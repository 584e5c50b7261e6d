//! Tests of password hashing and verification against the real Argon2id
//! implementation.

use rvoc_backend::config::Configuration;
use rvoc_backend::error::RVocError;
use rvoc_backend::password::{PasswordHash, VerifyPasswordResult};

#[test]
fn mod_test_password_check() {
    let configuration = Configuration::test_configuration();
    let password = "abc123xyz";
    let mut hashed_password =
        PasswordHash::new(password.as_bytes().to_vec(), &configuration).unwrap();
    assert!(
        hashed_password
            .verify(password.as_bytes().to_vec(), &configuration)
            .unwrap()
            .matches
    );
    assert!(
        !hashed_password
            .verify("wrong password".as_bytes().to_vec(), &configuration)
            .unwrap()
            .matches
    );
}

#[test]
fn password_hash_test_password_check() {
    let configuration = Configuration::test_configuration();

    println!(
        "Hash algo parameters: {:?}",
        configuration.build_argon2_parameters().unwrap()
    );

    let password = "mypassword".as_bytes().to_vec();
    let mut password_hash = PasswordHash::new(password.clone(), &configuration).unwrap();

    let verify_password_result = password_hash.verify(password.clone(), &configuration);
    assert!(
        verify_password_result.is_ok(),
        "password hash result: {verify_password_result:?}"
    );
    assert_eq!(
        verify_password_result.unwrap(),
        VerifyPasswordResult { matches: true, modified: false }
    );

    // convert to string and back
    let password_hash_string = password_hash.into_option_string().unwrap();
    let mut password_hash = PasswordHash::from_option_string(Some(password_hash_string));
    let verify_password_result = password_hash.verify(password, &configuration);
    assert!(
        verify_password_result.is_ok(),
        "password hash result: {verify_password_result:?}"
    );
    assert_eq!(
        verify_password_result.unwrap(),
        VerifyPasswordResult { matches: true, modified: false }
    );
}

#[test]
fn a_hash_with_different_parameters_is_rehashed_on_a_match() {
    let mut weaker = Configuration::test_configuration();
    weaker.password_argon2id_minimum_memory_kib = 8;
    weaker.password_argon2id_minimum_iterations = 1;
    let password = "mypassword".as_bytes().to_vec();
    let mut password_hash = PasswordHash::new(password.clone(), &weaker).unwrap();

    let configuration = Configuration::test_configuration();
    let result = password_hash.verify(password.clone(), &configuration).unwrap();
    assert_eq!(result, VerifyPasswordResult { matches: true, modified: true });

    // The rehashed value now carries the configured parameters.
    let result = password_hash.verify(password, &configuration).unwrap();
    assert_eq!(result, VerifyPasswordResult { matches: true, modified: false });
}

#[test]
fn an_absent_password_never_verifies() {
    let configuration = Configuration::test_configuration();
    let mut password_hash = PasswordHash::from_option_string(None);
    let result = password_hash.verify("mypassword".as_bytes().to_vec(), &configuration);
    assert!(matches!(result, Err(RVocError::PasswordArgon2IdVerify)));
}

#[test]
fn a_garbled_stored_hash_is_reported_as_unusable() {
    let configuration = Configuration::test_configuration();
    let mut password_hash = PasswordHash::from_string("not a phc string".to_string());
    let result = password_hash.verify("mypassword".as_bytes().to_vec(), &configuration);
    assert!(matches!(result, Err(RVocError::PasswordArgon2IdVerify)));
}

#[test]
fn argon2_parameters_carry_the_configured_costs() {
    let configuration = Configuration::test_configuration();
    let parameters = configuration.build_argon2_parameters().unwrap();
    assert_eq!(parameters.m_cost, 19456);
    assert_eq!(parameters.t_cost, 2);
    assert_eq!(parameters.p_cost, 1);
}

#[test]
fn invalid_configured_parameters_are_rejected() {
    let mut configuration = Configuration::test_configuration();
    configuration.password_argon2id_parallelism = 0;
    assert!(matches!(
        configuration.build_argon2_parameters(),
        Err(RVocError::PasswordArgon2IdParameters)
    ));
}

#[test]
fn hashing_fails_when_the_configured_parameters_are_invalid() {
    let mut configuration = Configuration::test_configuration();
    configuration.password_argon2id_minimum_iterations = 0;
    let result = PasswordHash::new(b"mypassword".to_vec(), &configuration);
    assert!(matches!(result, Err(RVocError::PasswordArgon2IdHash)));
}

#[test]
fn a_hash_with_an_overlong_parallelism_parameter_is_refused_without_a_call() {
    // The hash function's own parameter check would overflow on this
    // parallelism in builds with overflow checks; the library refuses the
    // string before any call reaches it.
    let configuration = Configuration::test_configuration();
    let crafted = "$argon2id$v=19$m=19456,t=2,p=536870912$c29tZXNhbHRzb21lc2FsdA$\
         AAAAAAAAAAAAAAAAAAAAAAAAAAAAAAAAAAAAAAAAAAA";
    let mut password_hash = PasswordHash::from_string(crafted.to_string());
    let result = password_hash.verify(b"mypassword".to_vec(), &configuration);
    assert!(matches!(result, Err(RVocError::PasswordArgon2IdVerify)));
}

#[test]
fn too_little_memory_per_lane_is_rejected() {
    let mut configuration = Configuration::test_configuration();
    configuration.password_argon2id_minimum_memory_kib = 8;
    configuration.password_argon2id_parallelism = 2;
    assert!(matches!(
        configuration.build_argon2_parameters(),
        Err(RVocError::PasswordArgon2IdParameters)
    ));
}

#[test]
fn an_out_of_range_parallelism_is_rejected_before_hashing() {
    let mut configuration = Configuration::test_configuration();
    configuration.password_argon2id_parallelism = 0x2000_0000;
    assert!(matches!(
        configuration.build_argon2_parameters(),
        Err(RVocError::PasswordArgon2IdParameters)
    ));
    let result = PasswordHash::new(b"mypassword".to_vec(), &configuration);
    assert!(matches!(result, Err(RVocError::PasswordArgon2IdHash)));
}

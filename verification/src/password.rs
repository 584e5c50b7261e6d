//! Password hashing, built on the Argon2id password hash function.
//!
//! Only the call contract of the hash function matters here: hashing
//! produces an encoded hash string that verifies against the same password
//! and pepper, and verification decides whether a password matches a
//! stored string. On a match, the hash is transparently re-hashed when the
//! configured parameters no longer agree with those recorded in the string.
//!
//! The hash function's parameter check multiplies the parallelism by eight
//! before bounding it, which overflows — and in builds with overflow checks
//! panics — for a parallelism of 2^29 or more. Such a parallelism is far
//! beyond the accepted maximum of 2^24 - 1 and is always rejected when the
//! check is reached, so the library refuses those inputs itself before any
//! call: builder-side entry points bound the configured parallelism, and
//! stored hash strings must pass `spec_parallelism_parameter_bounded`,
//! which rejects any parallelism parameter written with nine or more
//! digits — a class the hash function itself never emits and, where it can
//! answer, always rejects.

use vstd::prelude::*;
use argon2::PasswordHasher;
use argon2::PasswordVerifier;
use crate::config::Configuration;
use crate::error::RVocError;

verus! {

/// Whether the password, peppered with the given secret, matches the
/// encoded hash string. This is what argon2's password verification
/// computes; it depends on the three arguments alone.
pub uninterp spec fn argon2_matches(password: Seq<u8>, pepper: Seq<u8>, hash: Seq<char>) -> bool;

/// Whether argon2's password verification returns an answer for this pepper
/// and encoded hash string — the string parses, its parameters reconstruct,
/// the pepper is accepted as a secret, and verification ends in a match or
/// a mismatch. For a password of at most 2^32 - 1 bytes this depends on the
/// two arguments alone.
pub uninterp spec fn argon2_usable(pepper: Seq<u8>, hash: Seq<char>) -> bool;

/// What parsing an encoded hash string yields: whether its algorithm is
/// Argon2id, whether its version is 0x13, and its memory, iteration and
/// parallelism parameters; or nothing for a string that does not parse.
pub uninterp spec fn argon2_hash_parameters(hash: Seq<char>) -> Option<(bool, bool, u32, u32, u32)>;

/// The exact condition under which argon2 0.5 accepts memory, iteration and
/// parallelism parameters (with the default output length): at least eight
/// blocks of memory and eight per lane, at least one iteration, and between
/// one and 2^24 - 1 lanes.
pub open spec fn spec_valid_argon2_parameters(m_cost: u32, t_cost: u32, p_cost: u32) -> bool {
    &&& m_cost >= 8
    &&& m_cost >= 8 * p_cost
    &&& t_cost >= 1
    &&& 1 <= p_cost <= 0xFFFFFF
}

/// Whether `c` is a decimal digit.
pub open spec fn spec_digit(c: char) -> bool {
    '0' <= c && c <= '9'
}

/// Whether position `i` of `s` starts a parallelism parameter written with
/// nine or more digits: "p=" followed by at least nine digits.
pub open spec fn spec_overlong_parallelism_at(s: Seq<char>, i: int) -> bool {
    &&& s[i] == 'p'
    &&& s[i + 1] == '='
    &&& forall|j: int| i + 2 <= j < i + 11 ==> spec_digit(#[trigger] s[j])
}

/// Whether every parallelism parameter of the string is written with at
/// most eight digits. Eight decimal digits stay below 2^29, so the hash
/// function's parameter check cannot overflow on such a string; and since
/// the accepted maximum parallelism has eight digits and leading zeroes are
/// rejected, the hash function answers the same way on every string this
/// accepts or rejects.
pub open spec fn spec_parallelism_parameter_bounded(s: Seq<char>) -> bool {
    forall|i: int| 0 <= i && i + 11 <= s.len() ==> !#[trigger] spec_overlong_parallelism_at(s, i)
}

/// Check that every parallelism parameter of the string is written with at
/// most eight digits.
fn parallelism_parameter_bounded(hash: &str) -> (r: bool)
    ensures
        r == spec_parallelism_parameter_bounded(hash@),
{
    let len = hash.unicode_len();
    if len < 11 {
        return true;
    }
    let mut i: usize = 0;
    while i <= len - 11
        invariant
            11 <= len,
            len == hash@.len(),
            i <= len - 10,
            forall|k: int| 0 <= k < i ==> !#[trigger] spec_overlong_parallelism_at(hash@, k),
        decreases len - i,
    {
        if hash.get_char(i) == 'p' && hash.get_char(i + 1) == '=' {
            let mut all_digits = true;
            let mut j: usize = i + 2;
            while j < i + 11
                invariant
                    i + 11 <= len,
                    i + 2 <= j <= i + 11,
                    len == hash@.len(),
                    all_digits == (forall|q: int|
                        i + 2 <= q < j ==> spec_digit(#[trigger] hash@[q])),
                decreases i + 11 - j,
            {
                let c = hash.get_char(j);
                if !('0' <= c && c <= '9') {
                    all_digits = false;
                }
                j = j + 1;
            }
            if all_digits {
                proof {
                    assert(spec_overlong_parallelism_at(hash@, i as int));
                }
                return false;
            }
        }
        i = i + 1;
    }
    true
}

/// Relies on argon2's Argon2::new_with_secret and PasswordHasher::hash_password:
/// hashes the password under a freshly generated random salt, with the given
/// pepper as secret, algorithm Argon2id, version 0x13 and the given
/// parameters, and encodes the result as a PHC string. The string records
/// that algorithm, version and those parameters (so its parallelism is
/// written with at most eight digits), and verification of it with the same
/// pepper answers, and matches the same password; nothing more can be said
/// of it, as the salt is random. The parallelism bound keeps the call away
/// from the overflow in the parameter check noted above.
#[verifier::external_body]
fn argon2_hash_password(
    password: &Vec<u8>,
    pepper: &Vec<u8>,
    m_cost: u32,
    t_cost: u32,
    p_cost: u32,
) -> (r: Option<String>)
    requires
        p_cost <= 0xFFFFFF,
    ensures
        r matches Some(hash) ==> argon2_matches(password@, pepper@, hash@)
            && argon2_hash_parameters(hash@) == Some((true, true, m_cost, t_cost, p_cost))
            && argon2_usable(pepper@, hash@) && spec_parallelism_parameter_bounded(hash@),
{
    let params = match argon2::Params::new(m_cost, t_cost, p_cost, None) { Ok(p) => p, Err(_) => return None };
    let kind = (argon2::Algorithm::Argon2id, argon2::Version::V0x13);
    let hasher = match argon2::Argon2::new_with_secret(pepper.as_slice(), kind.0, kind.1, params) { Ok(h) => h, Err(_) => return None };
    let salt = argon2::password_hash::SaltString::generate(&mut argon2::password_hash::rand_core::OsRng);
    match hasher.hash_password(password.as_slice(), &salt) { Ok(hash) => Some(hash.to_string()), Err(_) => None }
}

/// Relies on argon2's PasswordHash::new and Params::try_from: parses an
/// encoded hash string and reports its algorithm, version and parameters.
/// Parsing is deterministic in the string. The parallelism bound keeps the
/// call away from the overflow in the parameter check noted above.
#[verifier::external_body]
fn argon2_parse_parameters(hash: &String) -> (r: Option<(bool, bool, u32, u32, u32)>)
    requires
        spec_parallelism_parameter_bounded(hash@),
    ensures
        r == argon2_hash_parameters(hash@),
{
    let parsed = match argon2::password_hash::PasswordHash::new(hash.as_str()) { Ok(p) => p, Err(_) => return None };
    let params = match argon2::Params::try_from(&parsed) { Ok(p) => p, Err(_) => return None };
    let alg_ok = parsed.algorithm == argon2::Algorithm::Argon2id.ident();
    let version_ok = parsed.version == Some(argon2::Version::V0x13.into());
    Some((alg_ok, version_ok, params.m_cost(), params.t_cost(), params.p_cost()))
}

/// Relies on argon2's PasswordVerifier::verify_password: whether the
/// password, peppered with the given secret, matches the encoded hash
/// string. It answers exactly when the pepper and string are usable, and a
/// string it answers for also parses; a mismatch is exactly the hash
/// function's "invalid password" verdict. The parallelism bound keeps the
/// call away from the overflow in the parameter check noted above, and the
/// password bound keeps the answer a function of pepper and string alone.
#[verifier::external_body]
fn argon2_verify_password(password: &Vec<u8>, pepper: &Vec<u8>, hash: &String) -> (r: Option<bool>)
    requires
        spec_parallelism_parameter_bounded(hash@),
        password@.len() <= 0xFFFFFFFF,
    ensures
        r is Some <==> argon2_usable(pepper@, hash@),
        r matches Some(matches) ==> matches == argon2_matches(password@, pepper@, hash@),
        r is Some ==> argon2_hash_parameters(hash@) is Some,
{
    let parsed = match argon2::password_hash::PasswordHash::new(hash.as_str()) { Ok(p) => p, Err(_) => return None };
    let params = match argon2::Params::try_from(&parsed) { Ok(p) => p, Err(_) => return None };
    let kind = (argon2::Algorithm::Argon2id, argon2::Version::V0x13);
    let hasher = match argon2::Argon2::new_with_secret(pepper.as_slice(), kind.0, kind.1, params) { Ok(h) => h, Err(_) => return None };
    match hasher.verify_password(password.as_slice(), &parsed) {
        Ok(()) => Some(true),
        Err(argon2::password_hash::Error::Password) => Some(false),
        Err(_) => None,
    }
}

/// Relies on argon2's Params::new: accepts exactly the parameters of
/// `spec_valid_argon2_parameters`, and parameters built from valid costs
/// carry exactly those costs. The parallelism bound keeps the call away
/// from the overflow in the parameter check noted above.
#[verifier::external_body]
fn argon2_build_parameters(m_cost: u32, t_cost: u32, p_cost: u32) -> (r: Option<(u32, u32, u32)>)
    requires
        p_cost <= 0xFFFFFF,
    ensures
        r is Some <==> spec_valid_argon2_parameters(m_cost, t_cost, p_cost),
        r matches Some(v) ==> v == (m_cost, t_cost, p_cost),
{
    match argon2::Params::new(m_cost, t_cost, p_cost, None) {
        Ok(params) => Some((params.m_cost(), params.t_cost(), params.p_cost())),
        Err(_) => None,
    }
}

/// The validated parameters of the password hash function.
#[derive(Clone, Copy, PartialEq, Eq, Structural, Debug)]
pub struct Argon2Parameters {
    /// The memory cost, in KiB.
    pub m_cost: u32,
    /// The iteration count.
    pub t_cost: u32,
    /// The degree of parallelism.
    pub p_cost: u32,
}

impl Configuration {
    /// Validate the configured password hash parameters: exactly the valid
    /// ones are accepted.
    pub fn build_argon2_parameters(&self) -> (r: Result<Argon2Parameters, RVocError>)
        ensures
            r is Ok <==> spec_valid_argon2_parameters(
                self.password_argon2id_minimum_memory_kib,
                self.password_argon2id_minimum_iterations,
                self.password_argon2id_parallelism,
            ),
            match r {
                Ok(parameters) => parameters.m_cost == self.password_argon2id_minimum_memory_kib
                    && parameters.t_cost == self.password_argon2id_minimum_iterations
                    && parameters.p_cost == self.password_argon2id_parallelism,
                Err(RVocError::PasswordArgon2IdParameters) => true,
                Err(_) => false,
            },
    {
        if self.password_argon2id_parallelism > 0xFFFFFF {
            return Err(RVocError::PasswordArgon2IdParameters);
        }
        match argon2_build_parameters(
            self.password_argon2id_minimum_memory_kib,
            self.password_argon2id_minimum_iterations,
            self.password_argon2id_parallelism,
        ) {
            Some((m_cost, t_cost, p_cost)) => Ok(Argon2Parameters { m_cost, t_cost, p_cost }),
            None => Err(RVocError::PasswordArgon2IdParameters),
        }
    }
}

/// The outcome of verifying a password against a stored hash.
#[must_use]
#[derive(Debug, Eq, PartialEq, Structural)]
pub struct VerifyPasswordResult {
    /// True if the password matches the hash.
    pub matches: bool,
    /// True if the password hash was modified and needs to be written to
    /// the database.
    pub modified: bool,
}

/// Whether the parameters recorded in a hash string differ from the
/// configured ones, so that the hash should be recomputed.
pub open spec fn spec_parameters_changed(
    parameters: (bool, bool, u32, u32, u32),
    configuration: Configuration,
) -> bool {
    ||| !parameters.0
    ||| !parameters.1
    ||| parameters.2 != configuration.password_argon2id_minimum_memory_kib
    ||| parameters.3 != configuration.password_argon2id_minimum_iterations
    ||| parameters.4 != configuration.password_argon2id_parallelism
}

/// Whether a stored hash string can be verified at all: its parallelism
/// parameter is written within bounds and the hash function answers for it
/// under the given pepper.
pub open spec fn spec_hash_verifiable(pepper: Seq<u8>, hash: Seq<char>) -> bool {
    spec_parallelism_parameter_bounded(hash) && argon2_usable(pepper, hash)
}

/// A password in hashed, encoded form; or no password at all, as after an
/// administrative password expiry.
#[derive(Debug)]
pub struct PasswordHash {
    argon_hash: Option<String>,
}

impl PasswordHash {
    /// The encoded hash string, if a password is set.
    pub closed spec fn spec_hash(&self) -> Option<Seq<char>> {
        match self.argon_hash {
            Some(hash) => Some(hash@),
            None => None,
        }
    }

    /// Hash a password under the configured pepper and parameters. The
    /// password length must have been validated where the password was
    /// received; hashing itself can fail only if the hash function rejects
    /// the configured parameters. A produced hash verifies, and matches the
    /// same password and pepper.
    pub fn new(plaintext_password: Vec<u8>, configuration: &Configuration) -> (r: Result<
        PasswordHash,
        RVocError,
    >)
        requires
            configuration.minimum_password_length <= plaintext_password@.len(),
            plaintext_password@.len() <= configuration.maximum_password_length * 4,
        ensures
            match r {
                Ok(password_hash) => match password_hash.spec_hash() {
                    Some(hash) => argon2_matches(
                        plaintext_password@,
                        configuration.password_pepper@,
                        hash,
                    ) && argon2_hash_parameters(hash) == Some(
                        (
                            true,
                            true,
                            configuration.password_argon2id_minimum_memory_kib,
                            configuration.password_argon2id_minimum_iterations,
                            configuration.password_argon2id_parallelism,
                        ),
                    ) && spec_hash_verifiable(configuration.password_pepper@, hash),
                    None => false,
                },
                Err(RVocError::PasswordArgon2IdHash) => true,
                Err(_) => false,
            },
    {
        if configuration.password_argon2id_parallelism > 0xFFFFFF {
            return Err(RVocError::PasswordArgon2IdHash);
        }
        match argon2_hash_password(
            &plaintext_password,
            &configuration.password_pepper,
            configuration.password_argon2id_minimum_memory_kib,
            configuration.password_argon2id_minimum_iterations,
            configuration.password_argon2id_parallelism,
        ) {
            Some(hash) => Ok(PasswordHash { argon_hash: Some(hash) }),
            None => Err(RVocError::PasswordArgon2IdHash),
        }
    }

    /// Verify a password against the stored hash. An answer is owed exactly
    /// when a hash is stored and it is verifiable under the configured
    /// pepper. On a match whose recorded parameters differ from the
    /// configured ones, the password is re-hashed under the configured
    /// parameters and the result is marked modified, so that the caller
    /// persists it; only that re-hash can still fail.
    pub fn verify(&mut self, plaintext_password: Vec<u8>, configuration: &Configuration) -> (r:
        Result<VerifyPasswordResult, RVocError>)
        requires
            configuration.minimum_password_length <= plaintext_password@.len(),
            plaintext_password@.len() <= configuration.maximum_password_length * 4,
            plaintext_password@.len() <= 0xFFFFFFFF,
        ensures
            match old(self).spec_hash() {
                None => r matches Err(RVocError::PasswordArgon2IdVerify) && final (self).spec_hash()
                    == old(self).spec_hash(),
                Some(stored) => {
                    &&& (r matches Err(RVocError::PasswordArgon2IdVerify))
                        <==> !spec_hash_verifiable(configuration.password_pepper@, stored)
                    &&& !spec_hash_verifiable(configuration.password_pepper@, stored) ==> final (self).spec_hash() == old(self).spec_hash()
                    &&& spec_hash_verifiable(configuration.password_pepper@, stored) ==> {
                        &&& argon2_hash_parameters(stored) is Some
                        &&& !argon2_matches(
                            plaintext_password@,
                            configuration.password_pepper@,
                            stored,
                        ) ==> r == Ok::<VerifyPasswordResult, RVocError>(
                            VerifyPasswordResult { matches: false, modified: false },
                        ) && final (self).spec_hash() == old(self).spec_hash()
                        &&& argon2_matches(
                            plaintext_password@,
                            configuration.password_pepper@,
                            stored,
                        ) ==> {
                            &&& !spec_parameters_changed(
                                argon2_hash_parameters(stored)->Some_0,
                                *configuration,
                            ) ==> r == Ok::<VerifyPasswordResult, RVocError>(
                                VerifyPasswordResult { matches: true, modified: false },
                            ) && final (self).spec_hash() == old(self).spec_hash()
                            &&& spec_parameters_changed(
                                argon2_hash_parameters(stored)->Some_0,
                                *configuration,
                            ) ==> match r {
                                Ok(verify_result) => verify_result == (VerifyPasswordResult {
                                    matches: true,
                                    modified: true,
                                }) && match final (self).spec_hash() {
                                    Some(new_hash) => argon2_matches(
                                        plaintext_password@,
                                        configuration.password_pepper@,
                                        new_hash,
                                    ) && argon2_hash_parameters(new_hash) == Some(
                                        (
                                            true,
                                            true,
                                            configuration.password_argon2id_minimum_memory_kib,
                                            configuration.password_argon2id_minimum_iterations,
                                            configuration.password_argon2id_parallelism,
                                        ),
                                    ) && spec_hash_verifiable(
                                        configuration.password_pepper@,
                                        new_hash,
                                    ),
                                    None => false,
                                },
                                Err(RVocError::PasswordArgon2IdHash) => final (self).spec_hash()
                                    == old(self).spec_hash(),
                                Err(_) => false,
                            }
                        }
                    }
                },
            },
    {
        let stored = match &self.argon_hash {
            Some(stored) => stored,
            None => {
                return Err(RVocError::PasswordArgon2IdVerify);
            },
        };
        if !parallelism_parameter_bounded(stored.as_str()) {
            return Err(RVocError::PasswordArgon2IdVerify);
        }
        let matches = match argon2_verify_password(
            &plaintext_password,
            &configuration.password_pepper,
            stored,
        ) {
            Some(matches) => matches,
            None => {
                return Err(RVocError::PasswordArgon2IdVerify);
            },
        };
        if !matches {
            return Ok(VerifyPasswordResult { matches: false, modified: false });
        }
        let parameters = match argon2_parse_parameters(stored) {
            Some(parameters) => parameters,
            None => {
                // The verification above answered, so the string parses.
                proof {
                    assert(false);
                }
                return Err(RVocError::PasswordArgon2IdVerify);
            },
        };
        let modified = if Self::did_parameters_change(parameters, configuration) {
            let rehashed = match Self::new(plaintext_password, configuration) {
                Ok(rehashed) => rehashed,
                Err(error) => {
                    return Err(error);
                },
            };
            *self = rehashed;
            true
        } else {
            false
        };
        Ok(VerifyPasswordResult { matches: true, modified })
    }

    /// Whether the parameters recorded in a hash differ from the configured
    /// ones.
    fn did_parameters_change(
        parameters: (bool, bool, u32, u32, u32),
        configuration: &Configuration,
    ) -> (r: bool)
        ensures
            r == spec_parameters_changed(parameters, *configuration),
    {
        !parameters.0 || !parameters.1 || parameters.2
            != configuration.password_argon2id_minimum_memory_kib || parameters.3
            != configuration.password_argon2id_minimum_iterations || parameters.4
            != configuration.password_argon2id_parallelism
    }

    /// The encoded hash string, if a password is set.
    pub fn into_option_string(self) -> (r: Option<String>)
        ensures
            r.deep_view() == self.spec_hash(),
    {
        self.argon_hash
    }

    /// A hash restored from its encoded string, or the absence of one.
    pub fn from_option_string(argon_hash: Option<String>) -> (r: PasswordHash)
        ensures
            r.spec_hash() == argon_hash.deep_view(),
    {
        PasswordHash { argon_hash }
    }

    /// A hash restored from its encoded string.
    pub fn from_string(argon_hash: String) -> (r: PasswordHash)
        ensures
            r.spec_hash() == Some(argon_hash@),
    {
        PasswordHash { argon_hash: Some(argon_hash) }
    }
}

} // verus!

//! Opaque session identifiers.
//!
//! A session id is a string over the base64 alphabet. Ids are drawn at
//! random; the store treats them as opaque unique keys.

use vstd::prelude::*;
use crate::config::Configuration;
use crate::error::RVocError;

verus! {

/// A session id.
#[derive(Debug)]
pub struct SessionId {
    session_id: String,
}

impl View for SessionId {
    type V = Seq<char>;

    closed spec fn view(&self) -> Seq<char> {
        self.session_id@
    }
}

/// Whether `c` belongs to the base64 alphabet that session ids are drawn from.
pub open spec fn spec_valid_session_char(c: char) -> bool {
    ('A' <= c && c <= 'Z') || ('a' <= c && c <= 'z') || ('0' <= c && c <= '9') || c == '+' || c
        == '/'
}

/// Whether every character of `s` belongs to the session id alphabet.
pub open spec fn spec_valid_session_id(s: Seq<char>) -> bool {
    forall|i: int| 0 <= i < s.len() ==> spec_valid_session_char(#[trigger] s[i])
}

impl SessionId {
    /// Check that the given character is one a session id may contain.
    fn is_valid_session_char(c: char) -> (r: bool)
        ensures
            r == spec_valid_session_char(c),
    {
        ('A' <= c && c <= 'Z') || ('a' <= c && c <= 'z') || ('0' <= c && c <= '9') || c == '+'
            || c == '/'
    }

    /// Check that the given string contains only characters a session id
    /// may contain.
    pub fn is_valid_session_id(session_id: &str) -> (r: bool)
        ensures
            r == spec_valid_session_id(session_id@),
    {
        let len = session_id.unicode_len();
        let mut i: usize = 0;
        while i < len
            invariant
                i <= len,
                len == session_id@.len(),
                forall|j: int| 0 <= j < i ==> spec_valid_session_char(#[trigger] session_id@[j]),
            decreases len - i,
        {
            if !Self::is_valid_session_char(session_id.get_char(i)) {
                return false;
            }
            i = i + 1;
        }
        true
    }

    /// Validate an externally presented string as a session id: it must have
    /// the configured length and contain only characters of the id alphabet.
    pub fn try_from_string(session_id: String, configuration: &Configuration) -> (r: Result<
        SessionId,
        RVocError,
    >)
        ensures
            match r {
                Ok(id) => id@ == session_id@ && session_id@.len()
                    == configuration.session_id_length && spec_valid_session_id(session_id@),
                Err(RVocError::WrongSessionIdLength {
                    given_session_id_length,
                    configured_session_id_length,
                }) => session_id@.len() != configuration.session_id_length
                    && given_session_id_length == session_id@.len()
                    && configured_session_id_length == configuration.session_id_length,
                Err(RVocError::InvalidSessionId { session_id: rejected }) => rejected@
                    == session_id@ && session_id@.len() == configuration.session_id_length
                    && !spec_valid_session_id(session_id@),
                Err(_) => false,
            },
    {
        let len = session_id.as_str().unicode_len();
        if len != configuration.session_id_length {
            Err(
                RVocError::WrongSessionIdLength {
                    given_session_id_length: len,
                    configured_session_id_length: configuration.session_id_length,
                },
            )
        } else if !Self::is_valid_session_id(session_id.as_str()) {
            Err(RVocError::InvalidSessionId { session_id })
        } else {
            Ok(SessionId { session_id })
        }
    }

    /// An identical copy of this session id.
    pub fn duplicate(&self) -> (r: SessionId)
        ensures
            r@ == self@,
    {
        SessionId { session_id: self.session_id.clone() }
    }

    /// The id as a string slice.
    pub fn as_str(&self) -> (r: &str)
        ensures
            r@ == self@,
    {
        self.session_id.as_str()
    }

    /// Whether two session ids are the same id.
    pub fn matches(&self, other: &SessionId) -> (r: bool)
        ensures
            r == (self@ == other@),
    {
        self.session_id == other.session_id
    }
}


/// Relies on rand::random: a value drawn from the thread-local generator.
/// Nothing can be promised of a random value.
pub assume_specification<T>[ rand::random::<T> ]() -> (r: T)
    where
        rand::distributions::Standard: rand::distributions::Distribution<T>,
;

/// Relies on String::push: appends the given character to the string.
pub assume_specification[ String::push ](s: &mut String, c: char)
    ensures
        final (s)@ == old(s)@.push(c),
;

/// The character of the session id alphabet at the given position: the
/// base64 alphabet, in its usual order.
fn base64_char(index: u8) -> (c: char)
    requires
        index < 64,
    ensures
        spec_valid_session_char(c),
{
    if index < 26 {
        (65u8 + index) as char
    } else if index < 52 {
        (71u8 + index) as char
    } else if index < 62 {
        (index - 4u8) as char
    } else if index == 62 {
        '+'
    } else {
        '/'
    }
}

impl SessionId {
    /// Draw a fresh random session id of the configured length from the
    /// session id alphabet. The id is random; whether it collides with an
    /// existing one is decided by the store on insertion.
    pub fn new(configuration: &Configuration) -> (r: SessionId)
        ensures
            r@.len() == configuration.session_id_length,
            spec_valid_session_id(r@),
    {
        let mut session_id = String::new();
        let mut i: usize = 0;
        while i < configuration.session_id_length
            invariant
                i <= configuration.session_id_length,
                session_id@.len() == i,
                spec_valid_session_id(session_id@),
            decreases configuration.session_id_length - i,
        {
            let byte: u8 = rand::random();
            proof {
                assert(byte & 63 < 64) by (bit_vector);
            }
            let c = base64_char(byte & 63);
            session_id.push(c);
            proof {
                assert forall|j: int|
                    0 <= j < session_id@.len() implies spec_valid_session_char(
                    #[trigger] session_id@[j],
                ) by {}
            }
            i = i + 1;
        }
        SessionId { session_id }
    }
}

} // verus!

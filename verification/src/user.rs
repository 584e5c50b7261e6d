//! Usernames and the identity of a logged-in requester.

use vstd::prelude::*;
use crate::config::Configuration;
use crate::error::{RVocError, UserError};

verus! {

/// The name of a user, validated against the configured length bounds.
#[derive(Debug)]
pub struct Username {
    name: String,
}

impl View for Username {
    type V = Seq<char>;

    closed spec fn view(&self) -> Seq<char> {
        self.name@
    }
}

impl Username {
    /// Validate a string as a username: its length must lie within the
    /// configured bounds.
    pub fn new(name: String, configuration: &Configuration) -> (r: Result<Username, RVocError>)
        ensures
            match r {
                Ok(username) => username@ == name@ && configuration.minimum_username_length
                    <= name@.len() <= configuration.maximum_username_length,
                Err(RVocError::UserError(UserError::UsernameLength { actual, minimum, maximum })) =>
                    !(configuration.minimum_username_length <= name@.len()
                        <= configuration.maximum_username_length) && actual == name@.len()
                        && minimum == configuration.minimum_username_length && maximum
                        == configuration.maximum_username_length,
                Err(_) => false,
            },
    {
        match configuration.verify_username_length(name.as_str()) {
            Ok(()) => Ok(Username { name }),
            Err(error) => Err(error),
        }
    }

    /// The name as a string slice.
    pub fn as_str(&self) -> (r: &str)
        ensures
            r@ == self@,
    {
        self.name.as_str()
    }

    /// The name as an owned string.
    pub fn into_string(self) -> (r: String)
        ensures
            r@ == self@,
    {
        self.name
    }

    /// An identical copy of this username.
    pub fn duplicate(&self) -> (r: Username)
        ensures
            r@ == self@,
    {
        Username { name: self.name.clone() }
    }
}

/// If this value is attached to a request, the request was made by the
/// contained username.
#[derive(Debug)]
pub struct LoggedInUser(pub Username);

impl LoggedInUser {
    /// The name of the requester as a string slice.
    pub fn as_str(&self) -> (r: &str)
        ensures
            r@ == self.0@,
    {
        self.0.as_str()
    }

    /// The name of the requester as an owned string.
    pub fn into_string(self) -> (r: String)
        ensures
            r@ == self.0@,
    {
        self.0.into_string()
    }
}

} // verus!

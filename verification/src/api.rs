//! The plain request and response shapes of the web API.
//!
//! Marshalling to and from the wire belongs to the web layer; the library
//! only fixes the shapes.

use vstd::prelude::*;

verus! {

/// A command of the reference-data API.
#[derive(Debug)]
pub enum ApiCommand {
    /// Add a language with the given name.
    AddLanguage {
        /// The name of the language.
        name: String,
    },
    /// List up to `limit` languages.
    ListLanguages {
        /// The maximum number of languages to return.
        limit: usize,
    },
    /// Checks if the client is logged in.
    IsLoggedIn,
}

/// A login request.
#[derive(Debug)]
pub struct LoginCommand {
    /// The login name of the user.
    pub login_name: String,
    /// The password of the user.
    pub password: String,
}

/// A signup request.
#[derive(Debug)]
pub struct SignupCommand {
    /// The login name of the new user.
    pub login_name: String,
    /// The password of the new user.
    pub password: String,
    /// The email address of the new user.
    pub email: String,
}

/// The outcome of a signup request.
#[derive(Clone, Copy, PartialEq, Eq, Structural, Debug)]
pub enum SignupResponse {
    /// The account was created.
    Success,
    /// The account was not created.
    Error,
}

impl SignupResponse {
    /// Whether the response reports a failure.
    pub fn is_error(&self) -> (r: bool)
        ensures
            r == (*self is Error),
    {
        match self {
            SignupResponse::Success => false,
            SignupResponse::Error => true,
        }
    }
}

} // verus!

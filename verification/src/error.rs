//! The ways in which an operation of this library can fail.

use vstd::prelude::*;

verus! {

/// Why a credential was not accepted.
#[derive(Clone, Copy, Debug, PartialEq, Eq)]
pub enum AuthenticationError {
    /// The request carried no credential.
    Missing,
    /// The credential could not be verified.
    Invalid,
}

/// Why an operation did not take place.
#[derive(Clone, Copy, Debug, PartialEq, Eq)]
pub enum Error {
    /// No lesson has the given identifier.
    NotFound,
    /// A parameter is malformed: an empty title, a date that the calendar does
    /// not have, a repeat interval below one.
    Validation,
    /// The caller's access level is below the one that the operation asks for.
    PermissionDenied,
    /// The request carried no credential that could be verified.
    Authentication(AuthenticationError),
    /// The store cannot take the row: a constraint would be broken, or no
    /// identifier is left.
    Storage,
}

impl Error {
    /// A short description of the error.
    pub fn message(&self) -> (text: String)
        ensures
            text@ == (match *self {
                Error::NotFound => "lesson not found"@,
                Error::Validation => "malformed parameter"@,
                Error::PermissionDenied => "permission denied"@,
                Error::Authentication(AuthenticationError::Missing) => "credential missing"@,
                Error::Authentication(AuthenticationError::Invalid) => "credential not verified"@,
                Error::Storage => "storage constraint violated"@,
            }),
    {
        match self {
            Error::NotFound => "lesson not found".to_owned(),
            Error::Validation => "malformed parameter".to_owned(),
            Error::PermissionDenied => "permission denied".to_owned(),
            Error::Authentication(AuthenticationError::Missing) => "credential missing".to_owned(),
            Error::Authentication(AuthenticationError::Invalid) => {
                "credential not verified".to_owned()
            },
            Error::Storage => "storage constraint violated".to_owned(),
        }
    }
}

} // verus!

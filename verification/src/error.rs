//! The shared error type.

use vstd::prelude::*;

verus! {

/// Errors of configuration and parsing.
#[derive(Clone, Debug, PartialEq, Eq)]
pub enum Error {
    Config(String),
}

/// The result of an operation that can fail with [`Error`].
pub type Result<T> = std::result::Result<T, Error>;

impl Error {
    /// What to tell the user.
    pub fn message(&self) -> (m: String)
        ensures
            match self {
                Error::Config(s) => m@ == "configuration error: "@ + s@,
            },
    {
        match self {
            Error::Config(s) => {
                let mut m = "configuration error: ".to_owned();
                m.append(s.as_str());
                m
            },
        }
    }
}

} // verus!

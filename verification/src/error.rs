//! The errors the package generator reports.

use vstd::prelude::*;

verus! {

/// The package errors.
#[derive(Debug, Clone, PartialEq, Eq, Structural)]
pub enum Error {
    IncorrectVersionFormat,
}

impl Error {
    /// The error message, as shown to a user.
    pub fn message(&self) -> (m: &'static str)
        ensures
            m@ == "Incorrect package version format"@,
    {
        "Incorrect package version format"
    }
}

} // verus!

//! The repository info of a package manifest.

use vstd::prelude::*;
use vstd::string::*;

verus! {

/// The repository info.
/// * kind - the repository kind, written to the manifest's `type` field
/// * url - the address of the repository page
#[derive(Debug, Clone)]
pub struct Repository {
    pub kind: String,
    pub url: String,
}

impl Repository {
    /// Describes the git repository at `url`.
    pub fn from_url(url: &str) -> (r: Self)
        ensures
            r.kind@ == "git"@,
            r.url@ == url@,
    {
        Repository { kind: String::from_str("git"), url: url.to_owned() }
    }
}

} // verus!

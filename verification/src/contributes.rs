//! The `contributes` section of a package manifest.

use vstd::prelude::*;
use vstd::string::*;

verus! {

/// The snippets contribute entry: one per emitted snippets file.
/// * language - the snippets programming language
/// * path - the snippets file path, relative to the package root
#[derive(Debug, Clone)]
pub struct SnippetsContribute {
    pub language: String,
    pub path: String,
}

impl SnippetsContribute {
    /// Creates a new snippets contribute entry for the file `file_name`
    /// inside the package's snippets directory.
    pub fn new(lang: &str, file_name: &str) -> (r: Self)
        ensures
            r.language@ == lang@,
            r.path@ == "snippets/"@ + file_name@,
    {
        let mut path = String::from_str("snippets/");
        path.append(file_name);
        SnippetsContribute { language: lang.to_owned(), path }
    }
}

/// The package contributes.
#[derive(Debug, Clone)]
pub struct Contributes {
    pub snippets: Vec<SnippetsContribute>,
}

impl Contributes {
    /// Creates a new, empty package contributes section.
    pub fn new() -> (r: Self)
        ensures
            r.snippets@.len() == 0,
    {
        Contributes { snippets: Vec::new() }
    }

    /// Registers a new snippets file.
    pub fn reg_snippets(&mut self, contribute: SnippetsContribute)
        ensures
            final(self).snippets@ == old(self).snippets@.push(contribute),
    {
        self.snippets.push(contribute);
    }
}

} // verus!

//! The README file generator.

use vstd::prelude::*;
use vstd::string::*;

verus! {

/// The two-line README header for a package.
pub open spec fn readme_header(title: Seq<char>, descr: Seq<char>) -> Seq<char> {
    "# "@ + title + "\n## "@ + descr
}

/// The README file generator.
#[derive(Debug, Clone)]
pub struct Readme {
    pub value: String,
}

impl Readme {
    /// Creates a new README text holding only the header.
    pub fn new(title: &str, descr: &str) -> (r: Self)
        ensures
            r.value@ == readme_header(title@, descr@),
    {
        let mut value = String::from_str("# ");
        value.append(title);
        value.append("\n## ");
        value.append(descr);
        Readme { value }
    }

    /// Adds a new section to the README text, separated by a blank line.
    /// * text - the section text
    pub fn add_line(&mut self, text: &str)
        ensures
            final(self).value@ == old(self).value@ + "\n\n"@ + text@,
    {
        self.value.append("\n\n");
        self.value.append(text);
    }
}

} // verus!

//! The manifest category tags a package can carry.

use vstd::prelude::*;

verus! {

/// A package category tag, as it is written to the manifest.
#[derive(Debug, Clone, PartialEq, Eq, Structural)]
pub enum Category {
    Snippets,
}

impl View for Category {
    type V = Seq<char>;

    open spec fn view(&self) -> Seq<char> {
        match self {
            Category::Snippets => "Snippets"@,
        }
    }
}

impl Category {
    /// The category name, as it is written to the manifest.
    pub fn name(&self) -> (r: &'static str)
        ensures
            r@ == self@,
    {
        match self {
            Category::Snippets => "Snippets",
        }
    }
}

} // verus!

//! A generator for editor-extension snippet packages: a manifest, one JSON
//! snippets file per group, an aggregated documentation README and a
//! license, all derived from an in-memory object graph.

pub mod category;
pub mod contributes;
pub mod engines;
pub mod error;
pub mod json;
pub mod license;
pub mod package;
pub mod readme;
pub mod repository;
pub mod snippet;
pub mod snippets;
pub mod snippets_doc;
pub mod strutil;
pub mod tools;
pub mod version;

pub use category::Category;
pub use contributes::{Contributes, SnippetsContribute};
pub use engines::Engines;
pub use error::Error;
pub use license::License;
pub use package::Package;
pub use readme::Readme;
pub use repository::Repository;
pub use snippet::Snippet;
pub use snippets::Snippets;
pub use snippets_doc::SnippetsDoc;
pub use tools::{gen_unique_name, to_latin_text};
pub use version::Version;

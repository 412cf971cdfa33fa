//! A snippets group: an ordered collection of snippets sharing a target
//! language, emitted as one keyed JSON file, with a parallel documentation
//! table.

use vstd::prelude::*;
use vstd::string::*;
use crate::error::Error;
use crate::json::{push_quoted, quoted};
use crate::snippet::{push_snippet_obj, snippet_obj_json, Snippet, SnippetView};
use crate::snippets_doc::{doc_header, doc_rows, doc_text, SnippetsDoc, SnippetsDocView};
use crate::strutil::{push_spaces, spaces};
use crate::tools::{gen_unique_name, lower_of, normalized, to_latin_text};

verus! {

/// The mathematical content of a [`Snippets`] group.
pub ghost struct SnippetsView {
    pub language: Seq<char>,
    pub name: Seq<char>,
    pub description: Seq<char>,
    pub file_name: Seq<char>,
    pub snippets: Seq<(Seq<char>, SnippetView)>,
    pub documentation: SnippetsDocView,
}

impl SnippetsView {
    /// The group's generated keys are pairwise distinct, and the
    /// documentation holds exactly one line per added snippet.
    pub open spec fn wf(self) -> bool {
        (forall|i: int, j: int|
            0 <= i < j < self.snippets.len() ==> self.snippets[i].0 != self.snippets[j].0)
            && self.documentation.body.len() == self.snippets.len()
    }
}

/// The length of the longest generated key in the group.
spec fn max_key_len(entries: Seq<(Seq<char>, SnippetView)>) -> nat
    decreases entries.len(),
{
    if entries.len() == 0 {
        0
    } else {
        let rest = max_key_len(entries.drop_last());
        let this = entries.last().0.len();
        if this > rest {
            this
        } else {
            rest
        }
    }
}

proof fn lemma_key_len_le(entries: Seq<(Seq<char>, SnippetView)>, i: int)
    requires
        0 <= i < entries.len(),
    ensures
        entries[i].0.len() <= max_key_len(entries),
    decreases entries.len(),
{
    if i < entries.len() - 1 {
        lemma_key_len_le(entries.drop_last(), i);
    }
}

/// The snippets group.
/// * language - the programming language name
/// * name - the snippets group name, in its file-safe form
/// * description - the snippets group description
/// * file_name - the snippets file name
/// * snippets - the generated unique key of each added snippet with the
///   snippet itself, in addition order
/// * documentation - the snippets group documentation generator
#[derive(Debug, Clone)]
pub struct Snippets {
    pub language: String,
    pub name: String,
    pub description: String,
    pub file_name: String,
    snippets: Vec<(String, Snippet)>,
    documentation: SnippetsDoc,
}

impl View for Snippets {
    type V = SnippetsView;

    closed spec fn view(&self) -> SnippetsView {
        SnippetsView {
            language: self.language@,
            name: self.name@,
            description: self.description@,
            file_name: self.file_name@,
            snippets: Seq::new(
                self.snippets@.len(),
                |i: int| (self.snippets@[i].0@, self.snippets@[i].1@),
            ),
            documentation: self.documentation@,
        }
    }
}

fn contains_key(entries: &Vec<(String, Snippet)>, key: &String) -> (r: bool)
    ensures
        r == exists|i: int| 0 <= i < entries@.len() && entries@[i].0@ == key@,
{
    let mut i: usize = 0;
    while i < entries.len()
        invariant
            i <= entries@.len(),
            forall|j: int| 0 <= j < i ==> entries@[j].0@ != key@,
        decreases entries@.len() - i,
    {
        if entries[i].0 == *key {
            return true;
        }
        i = i + 1;
    }
    false
}

impl Snippets {
    /// Sets the snippets programming language name and returns the group;
    /// snippets already added keep the documentation lines they wrote.
    /// * lang - the programming language name
    pub fn set_lang(self, lang: &str) -> (r: Self)
        ensures
            r@ == (SnippetsView { language: lang@, ..self@ }),
    {
        let mut s = self;
        s.language = lang.to_owned();
        s
    }

    /// Sets the snippets group name and returns the group.
    /// * name - the snippets group name
    pub fn set_name(self, name: &str) -> (r: Self)
        ensures
            r@ == (SnippetsView { name: name@, ..self@ }),
    {
        let mut s = self;
        s.name = name.to_owned();
        s
    }

    /// Sets the snippets group description and returns the group.
    /// * descr - the snippets group description
    pub fn set_descr(self, descr: &str) -> (r: Self)
        ensures
            r@ == (SnippetsView { description: descr@, ..self@ }),
    {
        let mut s = self;
        s.description = descr.to_owned();
        s
    }

    /// Sets the snippets group file name and returns the group.
    /// * file_name - the snippets group file name
    pub fn set_file_name(self, file_name: &str) -> (r: Self)
        ensures
            r@ == (SnippetsView { file_name: file_name@, ..self@ }),
    {
        let mut s = self;
        s.file_name = file_name.to_owned();
        s
    }

    /// The group's programming language name.
    pub fn language(&self) -> (r: &String)
        ensures
            r@ == self@.language,
    {
        &self.language
    }

    /// The group's output file name.
    pub fn file_name(&self) -> (r: &String)
        ensures
            r@ == self@.file_name,
    {
        &self.file_name
    }

    /// The accumulated documentation of the group.
    pub fn documentation(&self) -> (r: &SnippetsDoc)
        ensures
            r@ == self@.documentation,
    {
        &self.documentation
    }

    /// Adds a new snippet: records its (prefix, description) pair in the
    /// documentation, generates a key that no earlier snippet of the group
    /// uses, and stores the snippet under that key.
    pub fn add_snippet(&mut self, snippet: Snippet)
        requires
            old(self)@.wf(),
        ensures
            final(self)@.wf(),
            final(self)@.language == old(self)@.language,
            final(self)@.name == old(self)@.name,
            final(self)@.description == old(self)@.description,
            final(self)@.file_name == old(self)@.file_name,
            final(self)@.snippets.len() == old(self)@.snippets.len() + 1,
            final(self)@.snippets.subrange(0, old(self)@.snippets.len() as int) == old(
                self,
            )@.snippets,
            final(self)@.snippets.last().1 == snippet@,
            exists|sfx: Seq<char>|
                final(self)@.snippets.last().0 == normalized(snippet@.name, true) + "-"@ + sfx,
            forall|j: int|
                0 <= j < old(self)@.snippets.len() ==> final(self)@.snippets.last().0 != old(
                    self,
                )@.snippets[j].0,
            final(self)@.documentation == (SnippetsDocView {
                body: old(self)@.documentation.body.push((snippet@.prefix, snippet@.description)),
                ..old(self)@.documentation
            }),
    {
        // the documentation line is written unconditionally, first
        self.documentation.write_line(snippet.prefix.as_str(), snippet.description.as_str());

        // the key: the file-safe snippet name, a dash, and a short suffix
        let mut key = to_latin_text(snippet.name.as_str(), true);
        key.append("-");
        let suffix = gen_unique_name(6);
        key.append(suffix.as_str());

        // the suffix makes a collision astronomically unlikely; this check
        // makes freshness certain by lengthening the key until it is new
        let ghost stem = normalized(snippet@.name, true) + "-"@;
        proof {
            assert(key@.take(stem.len() as int) =~= stem);
        }
        let ghost entries = self@.snippets;
        loop
            invariant
                entries == self@.snippets,
                key@.len() >= stem.len(),
                key@.take(stem.len() as int) == stem,
            ensures
                entries == self@.snippets,
                key@.len() >= stem.len(),
                key@.take(stem.len() as int) == stem,
                forall|i: int| 0 <= i < entries.len() ==> entries[i].0 != key@,
            decreases max_key_len(entries) + 1 - key@.len(),
        {
            if !contains_key(&self.snippets, &key) {
                proof {
                    assert(forall|i: int|
                        0 <= i < entries.len() ==> entries[i].0 == self.snippets@[i].0@);
                }
                break;
            }
            proof {
                let i = choose|i: int| 0 <= i < self.snippets@.len() && self.snippets@[i].0@ == key@;
                assert(entries[i].0 == key@);
                lemma_key_len_le(entries, i);
            }
            let ghost before_key = key@;
            key.push('x');
            proof {
                assert(key@.take(stem.len() as int) =~= before_key.take(stem.len() as int));
            }
        }
        let ghost before = self@.snippets;
        let ghost new_key = key@;
        self.snippets.push((key, snippet));
        proof {
            assert(self@.snippets.drop_last() =~= before);
            assert(self@.snippets.subrange(0, before.len() as int) =~= before);
            assert(self@.snippets.last() == (new_key, snippet@));
            assert(new_key =~= stem + new_key.skip(stem.len() as int));
            assert(self@.snippets.last().0 == normalized(snippet@.name, true) + "-"@ + new_key.skip(
                stem.len() as int,
            ));
            assert forall|i: int, j: int|
                0 <= i < j < self@.snippets.len() implies self@.snippets[i].0
                != self@.snippets[j].0 by {
                assert(self@.snippets[i] == before[i]);
                if j < before.len() {
                    assert(self@.snippets[j] == before[j]);
                } else {
                    assert(self@.snippets[j].0 == new_key);
                }
            }
        }
    }

    /// Creates a new snippets group and adds the given snippets in order.
    /// * language - the programming language name
    /// * name - the snippets group name; its file-safe lowercase form names
    ///   the output file
    /// * description - the snippets group description
    /// * snippets - the snippets to add
    pub fn new(language: &str, name: &str, description: &str, snippets: Vec<Snippet>) -> (r: Self)
        ensures
            r@.wf(),
            r@.language == language@,
            r@.name == normalized(name@, true),
            r@.description == description@,
            r@.file_name == normalized(lower_of(name@), true) + ".code-snippets"@,
            r@.documentation.language == language@,
            r@.documentation.title == name@,
            r@.documentation.description == description@,
            r@.snippets.len() == snippets@.len(),
            forall|i: int| 0 <= i < snippets@.len() ==> r@.snippets[i].1 == snippets@[i]@,
            r@.documentation.body == Seq::new(
                snippets@.len(),
                |i: int| (snippets@[i]@.prefix, snippets@[i]@.description),
            ),
    {
        let lowered = crate::tools::to_lowercase_text(name);
        let mut file_name = to_latin_text(lowered.as_str(), true);
        file_name.append(".code-snippets");
        let mut this = Snippets {
            language: language.to_owned(),
            name: to_latin_text(name, true),
            description: description.to_owned(),
            file_name,
            snippets: Vec::new(),
            documentation: SnippetsDoc::new(language, name, description),
        };
        proof {
            assert(this@.snippets =~= Seq::<(Seq<char>, SnippetView)>::empty());
        }
        let ghost given = snippets@;
        let mut rest = snippets;
        let total = rest.len();
        let mut idx: usize = 0;
        proof {
            assert(rest@ =~= given.skip(0));
        }
        while rest.len() > 0
            invariant
                given.len() == total,
                idx + rest@.len() == given.len(),
                rest@ == given.skip(idx as int),
                this@.wf(),
                this@.language == language@,
                this@.name == normalized(name@, true),
                this@.description == description@,
                this@.file_name == normalized(lower_of(name@), true) + ".code-snippets"@,
                this@.documentation.language == language@,
                this@.documentation.title == name@,
                this@.documentation.description == description@,
                this@.snippets.len() == idx,
                forall|i: int| 0 <= i < idx ==> this@.snippets[i].1 == given[i]@,
                this@.documentation.body.len() == idx,
                forall|i: int|
                    0 <= i < idx ==> this@.documentation.body[i] == (
                        given[i]@.prefix,
                        given[i]@.description,
                    ),
            decreases rest@.len(),
        {
            let ghost prev = this@.snippets;
            let s = rest.remove(0);
            proof {
                assert(s == given[idx as int]);
                assert(rest@ =~= given.skip(idx as int + 1));
            }
            this.add_snippet(s);
            proof {
                assert(forall|i: int|
                    0 <= i < idx ==> this@.snippets[i] == this@.snippets.subrange(
                        0,
                        prev.len() as int,
                    )[i]);
            }
            idx = idx + 1;
        }
        proof {
            assert(this@.documentation.body =~= Seq::new(
                given.len(),
                |i: int| (given[i]@.prefix, given[i]@.description),
            ));
        }
        this
    }
}

/// A stored snippet as it is emitted: the group's language is substituted
/// for an empty scope; the stored snippet itself is never changed.
pub open spec fn emitted_entry(e: (Seq<char>, SnippetView), lang: Seq<char>) -> (
    Seq<char>,
    SnippetView,
) {
    (
        e.0,
        SnippetView {
            language: if e.1.language.len() == 0 {
                lang
            } else {
                e.1.language
            },
            ..e.1
        },
    )
}

/// The keyed snippet entries of the emitted file, in addition order.
pub open spec fn emitted_entries(g: SnippetsView) -> Seq<(Seq<char>, SnippetView)> {
    Seq::new(g.snippets.len(), |i: int| emitted_entry(g.snippets[i], g.language))
}

/// One keyed member of the snippets file object.
pub open spec fn entry_json(e: (Seq<char>, SnippetView)) -> Seq<char> {
    spaces(2) + quoted(e.0) + ": "@ + snippet_obj_json(e.1, 2)
}

/// The keyed members of the snippets file object, comma-separated.
pub open spec fn entries_json(es: Seq<(Seq<char>, SnippetView)>) -> Seq<char>
    decreases es.len(),
{
    if es.len() == 0 {
        Seq::empty()
    } else if es.len() == 1 {
        entry_json(es[0])
    } else {
        entries_json(es.drop_last()) + ",\n"@ + entry_json(es.last())
    }
}

/// The JSON text of the group's snippets file: an object keyed by the
/// generated unique keys, holding the emitted snippets.
pub open spec fn group_json(g: SnippetsView) -> Seq<char> {
    if g.snippets.len() == 0 {
        "{}"@
    } else {
        "{\n"@ + entries_json(emitted_entries(g)) + "\n}"@
    }
}

impl Snippets {
    /// Converts the snippets group to a pretty-printed JSON string; every
    /// snippet whose own scope is empty is written with the group's
    /// language, without changing the stored snippet.
    #[verifier::rlimit(90)]
    pub fn to_json(&self) -> (r: Result<String, Error>)
        ensures
            r matches Ok(j) && j@ == group_json(self@),
    {
        let ghost emitted = emitted_entries(self@);
        if self.snippets.len() == 0 {
            return Ok(String::from_str("{}"));
        }
        let mut out = String::from_str("{\n");
        let mut i: usize = 0;
        proof {
            assert(emitted.take(0) =~= Seq::<(Seq<char>, SnippetView)>::empty());
            assert(out@ =~= "{\n"@ + entries_json(emitted.take(0)));
        }
        while i < self.snippets.len()
            invariant
                i <= self.snippets@.len(),
                emitted == emitted_entries(self@),
                emitted.len() == self.snippets@.len(),
                out@ == "{\n"@ + entries_json(emitted.take(i as int)),
            decreases self.snippets@.len() - i,
        {
            if i > 0 {
                out.append(",\n");
            }
            push_spaces(&mut out, 2);
            push_quoted(&mut out, self.snippets[i].0.as_str());
            out.append(": ");
            let own_scope = !self.snippets[i].1.language.as_str().is_empty();
            if own_scope {
                push_snippet_obj(&mut out, self.snippets[i].1.language.as_str(), &self.snippets[i].1, 2);
            } else {
                push_snippet_obj(&mut out, self.language.as_str(), &self.snippets[i].1, 2);
            }
            proof {
                assert(self@.snippets[i as int] == (self.snippets@[i as int].0@, self.snippets@[i as int].1@));
                assert(emitted[i as int] == emitted_entry(self@.snippets[i as int], self@.language));
                if own_scope {
                    assert((SnippetView {
                        language: self.snippets@[i as int].1.language@,
                        ..self.snippets@[i as int].1@
                    }) == emitted[i as int].1);
                } else {
                    assert((SnippetView {
                        language: self.language@,
                        ..self.snippets@[i as int].1@
                    }) == emitted[i as int].1);
                }
                assert(emitted.take(i as int + 1).drop_last() =~= emitted.take(i as int));
                assert(emitted.take(i as int + 1).last() == emitted[i as int]);
                assert(out@ =~= "{\n"@ + entries_json(emitted.take(i as int + 1)));
            }
            i = i + 1;
        }
        out.append("\n}");
        proof {
            assert(emitted.take(self.snippets@.len() as int) =~= emitted);
            assert(out@ =~= group_json(self@));
        }
        Ok(out)
    }
}

/// Uniqueness: a well-formed group of N added snippets emits a mapping
/// with exactly N entries whose keys are pairwise distinct.
pub proof fn lemma_key_uniqueness(g: SnippetsView)
    requires
        g.wf(),
    ensures
        emitted_entries(g).len() == g.snippets.len(),
        forall|i: int, j: int|
            0 <= i < j < emitted_entries(g).len() ==> emitted_entries(g)[i].0 != emitted_entries(
                g,
            )[j].0,
{
    assert(forall|i: int|
        0 <= i < g.snippets.len() ==> emitted_entries(g)[i].0 == g.snippets[i].0);
}

/// Scope inheritance: a snippet stored with an empty scope is emitted with
/// the group's language; one with a scope of its own is emitted unchanged.
pub proof fn lemma_scope_inheritance(g: SnippetsView, i: int)
    requires
        0 <= i < g.snippets.len(),
    ensures
        g.snippets[i].1.language.len() == 0 ==> emitted_entries(g)[i].1 == (SnippetView {
            language: g.language,
            ..g.snippets[i].1
        }),
        g.snippets[i].1.language.len() > 0 ==> emitted_entries(g)[i] == g.snippets[i],
{
}

/// Documentation completeness: the rendered table of a well-formed group
/// holds exactly one row per added snippet, in addition order.
pub proof fn lemma_documentation_completeness(g: SnippetsView)
    requires
        g.wf(),
    ensures
        doc_rows(g.documentation).len() == g.snippets.len(),
        doc_text(g.documentation) == doc_header(g.documentation) + doc_rows(
            g.documentation,
        ).flatten(),
{
    crate::snippets_doc::lemma_documentation_rows(g.documentation);
}

} // verus!

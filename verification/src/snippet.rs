//! One snippet definition: a trigger prefix and the lines it expands to.

use vstd::prelude::*;
use vstd::string::*;
use crate::error::Error;
use crate::json::quoted;
use crate::json::push_quoted;
use crate::strutil::{spaces, push_spaces};

verus! {

/// The mathematical content of a [`Snippet`].
pub ghost struct SnippetView {
    pub language: Seq<char>,
    pub name: Seq<char>,
    pub description: Seq<char>,
    pub prefix: Seq<char>,
    pub body: Seq<Seq<char>>,
}

/// The snippet generator.
/// * language - the programming language name; empty means "inherit from
///   the owning group"
/// * name - the snippet name
/// * description - the snippet description
/// * prefix - the snippet trigger prefix
/// * body - the snippet body lines, kept verbatim
#[derive(Debug, Clone)]
pub struct Snippet {
    pub language: String,
    pub name: String,
    pub description: String,
    pub prefix: String,
    pub body: Vec<String>,
}

impl View for Snippet {
    type V = SnippetView;

    open spec fn view(&self) -> SnippetView {
        SnippetView {
            language: self.language@,
            name: self.name@,
            description: self.description@,
            prefix: self.prefix@,
            body: self.body.deep_view(),
        }
    }
}

impl Snippet {
    /// Sets a new snippet programming language name and returns the snippet.
    /// * lang - a new programming language name
    pub fn set_lang(self, lang: &str) -> (r: Self)
        ensures
            r@ == (SnippetView { language: lang@, ..self@ }),
    {
        let mut s = self;
        s.language = lang.to_owned();
        s
    }

    /// Sets a new snippet name and returns the snippet.
    /// * name - a new snippet name
    pub fn set_name(self, name: &str) -> (r: Self)
        ensures
            r@ == (SnippetView { name: name@, ..self@ }),
    {
        let mut s = self;
        s.name = name.to_owned();
        s
    }

    /// Sets a new snippet description and returns the snippet.
    /// * descr - a new snippet description
    pub fn set_descr(self, descr: &str) -> (r: Self)
        ensures
            r@ == (SnippetView { description: descr@, ..self@ }),
    {
        let mut s = self;
        s.description = descr.to_owned();
        s
    }

    /// Appends some more description to the snippet and returns it.
    /// * text - the additional description
    pub fn add_descr(self, text: &str) -> (r: Self)
        ensures
            r@ == (SnippetView { description: self@.description + text@, ..self@ }),
    {
        let mut s = self;
        s.description.append(text);
        s
    }

    /// Sets a new snippet prefix and returns the snippet.
    /// * prefix - a new snippet trigger prefix
    pub fn set_prefix(self, prefix: &str) -> (r: Self)
        ensures
            r@ == (SnippetView { prefix: prefix@, ..self@ }),
    {
        let mut s = self;
        s.prefix = prefix.to_owned();
        s
    }

    /// Sets new body contents of the snippet and returns it.
    /// * body - the new body lines
    pub fn set_body(self, body: Vec<&str>) -> (r: Self)
        ensures
            r@ == (SnippetView { body: body.deep_view(), ..self@ }),
    {
        let mut s = self;
        s.body = owned_lines(body);
        s
    }

    /// Adds a new line to the snippet body and returns it.
    /// * text - the line contents
    pub fn add_line(self, text: &str) -> (r: Self)
        ensures
            r@ == (SnippetView { body: self@.body.push(text@), ..self@ }),
    {
        let mut s = self;
        let ghost before = s.body.deep_view();
        s.body.push(text.to_owned());
        proof {
            assert(s.body.deep_view() =~= before.push(text@));
        }
        s
    }

    /// Clears all body contents of the snippet and returns it.
    pub fn clear_body(self) -> (r: Self)
        ensures
            r@ == (SnippetView { body: Seq::empty(), ..self@ }),
    {
        let mut s = self;
        s.body.clear();
        proof {
            assert(s.body.deep_view() =~= Seq::<Seq<char>>::empty());
        }
        s
    }

    /// Replaces a body line by index; an out-of-range index changes nothing.
    /// * index - the replaced line index
    /// * text - the new text of the line
    pub fn replace_line(self, index: usize, text: &str) -> (r: Self)
        ensures
            index < self@.body.len() ==> r@ == (SnippetView {
                body: self@.body.update(index as int, text@),
                ..self@
            }),
            index >= self@.body.len() ==> r@ == self@,
    {
        let mut s = self;
        if index < s.body.len() {
            let ghost before = s.body.deep_view();
            s.body[index] = text.to_owned();
            proof {
                assert(s.body.deep_view() =~= before.update(index as int, text@));
            }
        }
        s
    }

    /// Removes a body line by index; an out-of-range index changes nothing.
    /// * index - the removed line index
    pub fn remove_line(self, index: usize) -> (r: Self)
        ensures
            index < self@.body.len() ==> r@ == (SnippetView {
                body: self@.body.remove(index as int),
                ..self@
            }),
            index >= self@.body.len() ==> r@ == self@,
    {
        let mut s = self;
        if index < s.body.len() {
            let ghost before = s.body.deep_view();
            s.body.remove(index);
            proof {
                assert(s.body.deep_view() =~= before.remove(index as int));
            }
        }
        s
    }
}

/// The lines of `body`, each as an owned string.
fn owned_lines(body: Vec<&str>) -> (r: Vec<String>)
    ensures
        r.deep_view() == body.deep_view(),
{
    let mut r: Vec<String> = Vec::new();
    let mut i: usize = 0;
    while i < body.len()
        invariant
            i <= body@.len(),
            r@.len() == i,
            forall|j: int| 0 <= j < i ==> r@[j]@ == body@[j]@,
        decreases body@.len() - i,
    {
        r.push(body[i].to_owned());
        i = i + 1;
    }
    proof {
        assert(r.deep_view() =~= body.deep_view());
    }
    r
}

impl Snippet {
    /// Creates a new snippet object.
    /// * name - the snippet name
    /// * descr - the snippet description
    /// * prefix - the snippet prefix
    /// * body - the body lines of the snippet
    pub fn new(name: &str, descr: &str, prefix: &str, body: Vec<&str>) -> (r: Self)
        ensures
            r@ == (SnippetView {
                language: Seq::empty(),
                name: name@,
                description: descr@,
                prefix: prefix@,
                body: body.deep_view(),
            }),
    {
        Snippet {
            language: String::new(),
            name: name.to_owned(),
            description: descr.to_owned(),
            prefix: prefix.to_owned(),
            body: owned_lines(body),
        }
    }

    /// Creates a new simple text snippet: the single body line doubles as
    /// the description.
    /// * name - the snippet name
    /// * prefix - the snippet prefix
    /// * value - the snippet body value
    pub fn text(name: &str, prefix: &str, value: &str) -> (r: Self)
        ensures
            r@ == (SnippetView {
                language: Seq::empty(),
                name: name@,
                description: value@,
                prefix: prefix@,
                body: seq![value@],
            }),
    {
        let mut body: Vec<String> = Vec::new();
        body.push(value.to_owned());
        proof {
            assert(body.deep_view() =~= seq![value@]);
        }
        Snippet {
            language: String::new(),
            name: name.to_owned(),
            description: value.to_owned(),
            prefix: prefix.to_owned(),
            body,
        }
    }

    /// Creates a new line-comment snippet.
    /// * name - the snippet name
    /// * cmnt_name - the comment marker name
    pub fn comment(name: &str, cmnt_name: &str) -> (r: Self)
        ensures
            r@ == (SnippetView {
                language: Seq::empty(),
                name: name@,
                description: "// "@ + cmnt_name@ + ": ..."@,
                prefix: "/"@ + cmnt_name@,
                body: seq!["// "@ + cmnt_name@ + ": ${1:...}"@],
            }),
    {
        let mut description = String::from_str("// ");
        description.append(cmnt_name);
        description.append(": ...");
        let mut prefix = String::from_str("/");
        prefix.append(cmnt_name);
        let mut line = String::from_str("// ");
        line.append(cmnt_name);
        line.append(": ${1:...}");
        let mut body: Vec<String> = Vec::new();
        body.push(line);
        proof {
            assert(body.deep_view() =~= seq!["// "@ + cmnt_name@ + ": ${1:...}"@]);
        }
        Snippet { language: String::new(), name: name.to_owned(), description, prefix, body }
    }
}

/// `vs` joined with `sep` between the items.
pub open spec fn joined(vs: Seq<Seq<char>>, sep: Seq<char>) -> Seq<char>
    decreases vs.len(),
{
    if vs.len() == 0 {
        Seq::empty()
    } else if vs.len() == 1 {
        vs[0]
    } else {
        joined(vs.drop_last(), sep) + sep + vs.last()
    }
}

/// Appends the items of `vs` to `out`, separated by `sep`.
fn push_joined(out: &mut String, vs: &Vec<&str>, sep: &str)
    ensures
        final(out)@ == old(out)@ + joined(vs.deep_view(), sep@),
{
    let ghost all = vs.deep_view();
    let mut i: usize = 0;
    proof {
        assert(all.take(0) =~= Seq::<Seq<char>>::empty());
        assert(out@ =~= old(out)@ + joined(all.take(0), sep@));
    }
    while i < vs.len()
        invariant
            i <= vs@.len(),
            all == vs.deep_view(),
            all.len() == vs@.len(),
            forall|j: int| 0 <= j < all.len() ==> all[j] == vs@[j]@,
            out@ == old(out)@ + joined(all.take(i as int), sep@),
        decreases vs@.len() - i,
    {
        if i > 0 {
            out.append(sep);
        }
        out.append(vs[i]);
        proof {
            assert(all.take(i as int + 1).drop_last() =~= all.take(i as int));
            assert(all.take(i as int + 1).last() == vs@[i as int]@);
            assert(out@ =~= old(out)@ + joined(all.take(i as int + 1), sep@));
        }
        i = i + 1;
    }
    proof {
        assert(all.take(vs@.len() as int) =~= all);
    }
}

impl Snippet {
    /// Creates a new attribute snippet.
    /// * name - the snippet name
    /// * attr_name - the attribute name
    /// * values - the selectable attribute arguments, if any
    pub fn attribute(name: &str, attr_name: &str, values: Option<Vec<&str>>) -> (r: Self)
        ensures
            r@.language.len() == 0,
            r@.name == name@,
            values is None ==> r@.description == "#["@ + attr_name@ + "]"@,
            values is Some ==> r@.description == "#["@ + attr_name@ + "(...)"@ + "]"@,
            values is None ==> r@.prefix == "#["@ + attr_name@ + "]"@,
            values is Some ==> r@.prefix == "#["@ + attr_name@ + "()"@ + "]"@,
            values is None ==> r@.body == seq!["#["@ + attr_name@ + "]"@],
            values matches Some(v) ==> r@.body == (if v@.len() == 0 {
                seq!["#["@ + attr_name@ + "($1)"@ + "]"@]
            } else {
                seq!["#["@ + attr_name@ + "(${1|"@ + joined(v.deep_view(), ","@) + "|})"@ + "]"@]
            }),
    {
        let mut description = String::from_str("#[");
        description.append(attr_name);
        let mut prefix = String::from_str("#[");
        prefix.append(attr_name);
        let mut line = String::from_str("#[");
        line.append(attr_name);
        match &values {
            Some(v) => {
                description.append("(...)");
                prefix.append("()");
                if v.len() > 0 {
                    line.append("(${1|");
                    push_joined(&mut line, v, ",");
                    line.append("|})");
                } else {
                    line.append("($1)");
                }
            },
            None => {},
        }
        description.append("]");
        prefix.append("]");
        line.append("]");
        let ghost line_view = line@;
        let mut body: Vec<String> = Vec::new();
        body.push(line);
        proof {
            assert(body.deep_view() =~= seq![line_view]);
        }
        Snippet { language: String::new(), name: name.to_owned(), description, prefix, body }
    }

    /// Creates a new block snippet.
    /// * name - the snippet name
    /// * block_name - the block keyword
    pub fn block(name: &str, block_name: &str) -> (r: Self)
        ensures
            r@.language.len() == 0,
            r@.name == name@,
            r@.description == block_name@ + " ... { ... }"@,
            r@.prefix == block_name@ + " {}"@,
            r@.body == seq![block_name@ + " $1 {\n    $2\n}"@],
    {
        let mut description = block_name.to_owned();
        description.append(" ... { ... }");
        let mut prefix = block_name.to_owned();
        prefix.append(" {}");
        let mut line = block_name.to_owned();
        line.append(" $1 {\n    $2\n}");
        let ghost line_view = line@;
        let mut body: Vec<String> = Vec::new();
        body.push(line);
        proof {
            assert(body.deep_view() =~= seq![line_view]);
        }
        Snippet { language: String::new(), name: name.to_owned(), description, prefix, body }
    }

    /// Creates a new double block snippet: two blocks, a blank line apart.
    /// * name - the snippet name
    /// * first_block_name - the first block keyword
    /// * other_block_name - the second block keyword
    pub fn double_block(name: &str, first_block_name: &str, other_block_name: &str) -> (r: Self)
        ensures
            r@.language.len() == 0,
            r@.name == name@,
            r@.description == first_block_name@ + " ... { ... }  "@ + other_block_name@
                + " ... { ... }"@,
            r@.prefix == first_block_name@ + " {} "@ + other_block_name@ + " {}"@,
            r@.body == seq![
                first_block_name@ + " $1 {\n    $2\n}"@,
                ""@,
                other_block_name@ + " $1 {\n    $3\n}"@,
            ],
    {
        let mut description = first_block_name.to_owned();
        description.append(" ... { ... }  ");
        description.append(other_block_name);
        description.append(" ... { ... }");
        let mut prefix = first_block_name.to_owned();
        prefix.append(" {} ");
        prefix.append(other_block_name);
        prefix.append(" {}");
        let mut first_line = first_block_name.to_owned();
        first_line.append(" $1 {\n    $2\n}");
        let mut other_line = other_block_name.to_owned();
        other_line.append(" $1 {\n    $3\n}");
        let ghost first_view = first_line@;
        let ghost other_view = other_line@;
        let mut body: Vec<String> = Vec::new();
        body.push(first_line);
        body.push(String::new());
        body.push(other_line);
        proof {
            reveal_strlit("");
            assert(Seq::<char>::empty() =~= ""@);
            assert(body.deep_view() =~= seq![first_view, ""@, other_view]);
        }
        Snippet { language: String::new(), name: name.to_owned(), description, prefix, body }
    }

    /// Creates a new simple block snippet without arguments.
    /// * name - the snippet name
    /// * block_name - the block keyword
    pub fn simple_block(name: &str, block_name: &str) -> (r: Self)
        ensures
            r@.language.len() == 0,
            r@.name == name@,
            r@.description == block_name@ + " { ... }"@,
            r@.prefix == block_name@ + " {}"@,
            r@.body == seq![block_name@ + " {\n    $1\n}"@],
    {
        let mut description = block_name.to_owned();
        description.append(" { ... }");
        let mut prefix = block_name.to_owned();
        prefix.append(" {}");
        let mut line = block_name.to_owned();
        line.append(" {\n    $1\n}");
        let ghost line_view = line@;
        let mut body: Vec<String> = Vec::new();
        body.push(line);
        proof {
            assert(body.deep_view() =~= seq![line_view]);
        }
        Snippet { language: String::new(), name: name.to_owned(), description, prefix, body }
    }

    /// Creates a new function block snippet.
    /// * name - the snippet name
    /// * block_name - the function keyword
    pub fn function_block(name: &str, block_name: &str) -> (r: Self)
        ensures
            r@.language.len() == 0,
            r@.name == name@,
            r@.description == block_name@ + " ...() { ... }"@,
            r@.prefix == block_name@ + "() {}"@,
            r@.body == seq![block_name@ + " $1($2) {\n    $3\n}"@],
    {
        let mut description = block_name.to_owned();
        description.append(" ...() { ... }");
        let mut prefix = block_name.to_owned();
        prefix.append("() {}");
        let mut line = block_name.to_owned();
        line.append(" $1($2) {\n    $3\n}");
        let ghost line_view = line@;
        let mut body: Vec<String> = Vec::new();
        body.push(line);
        proof {
            assert(body.deep_view() =~= seq![line_view]);
        }
        Snippet { language: String::new(), name: name.to_owned(), description, prefix, body }
    }

    /// Creates a new operator snippet.
    /// * name - the snippet name
    /// * oper_name - the operator keyword
    /// * value - the placeholder default after the operator, if any
    pub fn operator(name: &str, oper_name: &str, value: Option<&str>) -> (r: Self)
        ensures
            r@.language.len() == 0,
            r@.name == name@,
            value is Some ==> r@.description == oper_name@ + " ...;"@,
            value is None ==> r@.description == oper_name@ + ";"@,
            value is Some ==> r@.prefix == oper_name@ + " "@,
            value is None ==> r@.prefix == oper_name@,
            value matches Some(v) ==> r@.body == seq![oper_name@ + " ${1:"@ + v@ + "};"@],
            value is None ==> r@.body == seq![oper_name@ + ";"@],
    {
        let mut description = oper_name.to_owned();
        let mut prefix = oper_name.to_owned();
        let mut line = oper_name.to_owned();
        match value {
            Some(v) => {
                description.append(" ...;");
                prefix.append(" ");
                line.append(" ${1:");
                line.append(v);
                line.append("};");
            },
            None => {
                description.append(";");
                line.append(";");
            },
        }
        let ghost line_view = line@;
        let mut body: Vec<String> = Vec::new();
        body.push(line);
        proof {
            assert(body.deep_view() =~= seq![line_view]);
        }
        Snippet { language: String::new(), name: name.to_owned(), description, prefix, body }
    }

    /// Creates a new function-call snippet.
    /// * name - the snippet name
    /// * fn_name - the function name
    /// * pars - non-standard parentheses, if any; round ones otherwise
    /// * value - the placeholder default between the parentheses, if any
    pub fn function(
        name: &str,
        fn_name: &str,
        pars: Option<(&str, &str)>,
        value: Option<&str>,
    ) -> (r: Self)
        ensures
            r@.language.len() == 0,
            r@.name == name@,
            r@.description == fn_name@ + par_left(pars) + (if value is Some {
                "..."@
            } else {
                Seq::empty()
            }) + par_right(pars),
            r@.prefix == fn_name@ + par_left(pars) + par_right(pars),
            value matches Some(v) ==> r@.body == seq![
                fn_name@ + par_left(pars) + "${1:"@ + v@ + "}"@ + par_right(pars),
            ],
            value is None ==> r@.body == seq![fn_name@ + par_left(pars) + par_right(pars)],
    {
        let (lpar, rpar) = match pars {
            Some(p) => p,
            None => ("(", ")"),
        };
        let mut description = fn_name.to_owned();
        description.append(lpar);
        if value.is_some() {
            description.append("...");
        } else {
            proof {
                assert(fn_name@ + lpar@ + Seq::<char>::empty() =~= fn_name@ + lpar@);
            }
        }
        description.append(rpar);
        let mut prefix = fn_name.to_owned();
        prefix.append(lpar);
        prefix.append(rpar);
        let mut line = fn_name.to_owned();
        line.append(lpar);
        match value {
            Some(v) => {
                line.append("${1:");
                line.append(v);
                line.append("}");
            },
            None => {},
        }
        line.append(rpar);
        let ghost line_view = line@;
        let mut body: Vec<String> = Vec::new();
        body.push(line);
        proof {
            assert(body.deep_view() =~= seq![line_view]);
        }
        Snippet { language: String::new(), name: name.to_owned(), description, prefix, body }
    }
}

/// The JSON body array items for the snippet lines, one string literal per
/// line, each indented by `ind` spaces and separated by a comma.
pub open spec fn body_items_json(lines: Seq<Seq<char>>, ind: nat) -> Seq<char>
    decreases lines.len(),
{
    if lines.len() == 0 {
        Seq::empty()
    } else if lines.len() == 1 {
        spaces(ind) + quoted(lines[0])
    } else {
        body_items_json(lines.drop_last(), ind) + ",\n"@ + spaces(ind) + quoted(lines.last())
    }
}

/// The JSON array for the snippet lines, its closing bracket indented by
/// `ind` spaces.
pub open spec fn body_json(lines: Seq<Seq<char>>, ind: nat) -> Seq<char> {
    if lines.len() == 0 {
        "[]"@
    } else {
        "[\n"@ + body_items_json(lines, ind + 2) + "\n"@ + spaces(ind) + "]"@
    }
}

/// One labelled string member of a JSON object, followed by a comma.
pub open spec fn member_json(label: Seq<char>, value: Seq<char>, ind: nat) -> Seq<char> {
    spaces(ind) + label + quoted(value) + ",\n"@
}

/// The JSON object for one snippet, shaped `{scope, description, prefix,
/// body}`, its braces indented by `ind` spaces.
pub open spec fn snippet_obj_json(v: SnippetView, ind: nat) -> Seq<char> {
    "{\n"@ + member_json("\"scope\": "@, v.language, ind + 2) + member_json(
        "\"description\": "@,
        v.description,
        ind + 2,
    ) + member_json("\"prefix\": "@, v.prefix, ind + 2) + (spaces(ind + 2) + "\"body\": "@
        + body_json(v.body, ind + 2) + "\n"@) + (spaces(ind) + "}"@)
}

fn push_member(out: &mut String, label: &str, value: &str, ind: usize)
    requires
        ind <= 64,
    ensures
        final(out)@ == old(out)@ + member_json(label@, value@, ind as nat),
{
    push_spaces(out, ind);
    out.append(label);
    push_quoted(out, value);
    out.append(",\n");
    proof {
        assert(out@ =~= old(out)@ + member_json(label@, value@, ind as nat));
    }
}

/// The JSON text for one snippet, exactly as [`Snippet::to_json`] writes it.
pub open spec fn snippet_json(v: SnippetView) -> Seq<char> {
    snippet_obj_json(v, 0)
}

fn push_body_json(out: &mut String, lines: &Vec<String>, ind: usize)
    requires
        ind <= 64,
    ensures
        final(out)@ == old(out)@ + body_json(lines.deep_view(), ind as nat),
{
    let ghost all = lines.deep_view();
    if lines.len() == 0 {
        out.append("[]");
        return ;
    }
    out.append("[\n");
    let mut i: usize = 0;
    proof {
        assert(all.take(0) =~= Seq::<Seq<char>>::empty());
        assert(out@ =~= old(out)@ + "[\n"@ + body_items_json(all.take(0), ind as nat + 2));
    }
    while i < lines.len()
        invariant
            i <= lines@.len(),
            ind <= 64,
            all == lines.deep_view(),
            all.len() == lines@.len(),
            forall|j: int| 0 <= j < all.len() ==> all[j] == lines@[j]@,
            out@ == old(out)@ + "[\n"@ + body_items_json(all.take(i as int), ind as nat + 2),
        decreases lines@.len() - i,
    {
        if i > 0 {
            out.append(",\n");
        }
        push_spaces(out, ind + 2);
        push_quoted(out, lines[i].as_str());
        proof {
            assert(all.take(i as int + 1).drop_last() =~= all.take(i as int));
            assert(all.take(i as int + 1).last() == lines@[i as int]@);
            assert(out@ =~= old(out)@ + "[\n"@ + body_items_json(
                all.take(i as int + 1),
                ind as nat + 2,
            ));
        }
        i = i + 1;
    }
    out.append("\n");
    push_spaces(out, ind);
    out.append("]");
    proof {
        assert(all.take(lines@.len() as int) =~= all);
        assert(out@ =~= old(out)@ + body_json(all, ind as nat));
    }
}

/// Appends the JSON object for `s` to `out`, written with the given scope
/// in place of the snippet's own language field.
#[verifier::rlimit(60)]
pub(crate) fn push_snippet_obj(out: &mut String, scope: &str, s: &Snippet, ind: usize)
    requires
        ind <= 32,
    ensures
        final(out)@ == old(out)@ + snippet_obj_json(
            (SnippetView { language: scope@, ..s@ }),
            ind as nat,
        ),
{
    out.append("{\n");
    push_member(out, "\"scope\": ", scope, ind + 2);
    push_member(out, "\"description\": ", s.description.as_str(), ind + 2);
    push_member(out, "\"prefix\": ", s.prefix.as_str(), ind + 2);
    push_spaces(out, ind + 2);
    out.append("\"body\": ");
    push_body_json(out, &s.body, ind + 2);
    out.append("\n");
    push_spaces(out, ind);
    out.append("}");
    proof {
        assert(out@ =~= old(out)@ + snippet_obj_json(
            (SnippetView { language: scope@, ..s@ }),
            ind as nat,
        ));
    }
}

impl Snippet {
    /// Converts the snippet to a pretty-printed JSON string; the stored
    /// scope is written as it stands, even when it is empty.
    pub fn to_json(&self) -> (r: Result<String, Error>)
        ensures
            r matches Ok(j) && j@ == snippet_json(self@),
    {
        let mut out = String::new();
        push_snippet_obj(&mut out, self.language.as_str(), self, 0);
        proof {
            assert((SnippetView { language: self.language@, ..self@ }) == self@);
            assert(out@ =~= snippet_json(self@));
        }
        Ok(out)
    }
}

/// The left parenthesis of a function snippet: the given one, or `(`.
pub open spec fn par_left(pars: Option<(&str, &str)>) -> Seq<char> {
    match pars {
        Some(p) => p.0@,
        None => "("@,
    }
}

/// The right parenthesis of a function snippet: the given one, or `)`.
pub open spec fn par_right(pars: Option<(&str, &str)>) -> Seq<char> {
    match pars {
        Some(p) => p.1@,
        None => ")"@,
    }
}

} // verus!

//! The snippets documentation generator: an aligned two-column table of
//! (prefix, description) pairs, one per snippet added to the owning group.

use vstd::prelude::*;
use vstd::string::*;
use crate::strutil::{dashes, push_dashes, push_spaces, spaces};

verus! {

/// The mathematical content of a [`SnippetsDoc`].
pub ghost struct SnippetsDocView {
    pub language: Seq<char>,
    pub title: Seq<char>,
    pub description: Seq<char>,
    pub body: Seq<(Seq<char>, Seq<char>)>,
}

/// The length of the longest recorded prefix.
pub open spec fn max_prefix_len(body: Seq<(Seq<char>, Seq<char>)>) -> nat
    decreases body.len(),
{
    if body.len() == 0 {
        0
    } else {
        let rest = max_prefix_len(body.drop_last());
        let this = body.last().0.len();
        if this > rest {
            this
        } else {
            rest
        }
    }
}

/// The length of the longest recorded description.
pub open spec fn max_descr_len(body: Seq<(Seq<char>, Seq<char>)>) -> nat
    decreases body.len(),
{
    if body.len() == 0 {
        0
    } else {
        let rest = max_descr_len(body.drop_last());
        let this = body.last().1.len();
        if this > rest {
            this
        } else {
            rest
        }
    }
}

/// The width of the prefix column: two more than the longest prefix.
pub open spec fn prefix_width(body: Seq<(Seq<char>, Seq<char>)>) -> nat {
    if body.len() == 0 {
        0
    } else {
        max_prefix_len(body) + 2
    }
}

/// The width of the description column: two more than the longest one.
pub open spec fn descr_width(body: Seq<(Seq<char>, Seq<char>)>) -> nat {
    if body.len() == 0 {
        0
    } else {
        max_descr_len(body) + 2
    }
}

/// How many fill characters bring `used` up to `width`; none when `used`
/// already reaches it.
pub open spec fn pad(width: nat, used: nat) -> nat {
    if width >= used {
        (width - used) as nat
    } else {
        0
    }
}

/// The table head: the title and description lines, the column header row
/// and the dash row, each sized to the column widths.
pub open spec fn doc_header(d: SnippetsDocView) -> Seq<char> {
    let lw = prefix_width(d.body);
    let rw = descr_width(d.body);
    "# "@ + d.title + " ["@ + d.language + "]:\n## "@ + d.description + "\n| Prefix:"@ + spaces(
        pad(lw, 7),
    ) + " | Description:"@ + spaces(pad(rw, 12)) + " |\n| "@ + dashes(lw) + " | "@ + dashes(rw)
        + " |\n"@
}

/// One table row: both cells padded with spaces to the column widths.
pub open spec fn doc_row(p: Seq<char>, dsc: Seq<char>, lw: nat, rw: nat) -> Seq<char> {
    "| "@ + p + spaces(pad(lw, p.len())) + " | "@ + dsc + spaces(pad(rw, dsc.len())) + " |\n"@
}

/// The table rows for `body`, concatenated in recording order.
pub open spec fn rows_cat(body: Seq<(Seq<char>, Seq<char>)>, lw: nat, rw: nat) -> Seq<char>
    decreases body.len(),
{
    if body.len() == 0 {
        Seq::empty()
    } else {
        rows_cat(body.drop_last(), lw, rw) + doc_row(body.last().0, body.last().1, lw, rw)
    }
}

/// The rendered documentation text.
pub open spec fn doc_text(d: SnippetsDocView) -> Seq<char> {
    doc_header(d) + rows_cat(d.body, prefix_width(d.body), descr_width(d.body))
}

/// Every recorded prefix and description fits inside its column.
proof fn lemma_max_le(body: Seq<(Seq<char>, Seq<char>)>, i: int)
    requires
        0 <= i < body.len(),
    ensures
        body[i].0.len() <= max_prefix_len(body),
        body[i].1.len() <= max_descr_len(body),
    decreases body.len(),
{
    if i < body.len() - 1 {
        lemma_max_le(body.drop_last(), i);
    }
}

/// The snippets documentation generator.
/// * language - the snippets programming language name
/// * title - the snippets group name
/// * description - the snippets group description
/// * body - the recorded (prefix, description) pairs, in addition order
#[derive(Debug, Clone)]
pub struct SnippetsDoc {
    pub language: String,
    pub title: String,
    pub description: String,
    pub body: Vec<(String, String)>,
}

impl View for SnippetsDoc {
    type V = SnippetsDocView;

    open spec fn view(&self) -> SnippetsDocView {
        SnippetsDocView {
            language: self.language@,
            title: self.title@,
            description: self.description@,
            body: self.body.deep_view(),
        }
    }
}

impl SnippetsDoc {
    /// Creates a new snippets documentation object with no recorded pairs.
    /// * lang - the programming language name
    /// * title - the snippets group name
    /// * descr - the snippets group description
    pub fn new(lang: &str, title: &str, descr: &str) -> (r: Self)
        ensures
            r@ == (SnippetsDocView {
                language: lang@,
                title: title@,
                description: descr@,
                body: Seq::empty(),
            }),
    {
        let r = SnippetsDoc {
            language: lang.to_owned(),
            title: title.to_owned(),
            description: descr.to_owned(),
            body: Vec::new(),
        };
        proof {
            assert(r.body.deep_view() =~= Seq::<(Seq<char>, Seq<char>)>::empty());
        }
        r
    }

    /// Clears the recorded pairs.
    pub fn clear_body(&mut self)
        ensures
            final(self)@ == (SnippetsDocView { body: Seq::empty(), ..old(self)@ }),
    {
        self.body.clear();
        proof {
            assert(self.body.deep_view() =~= Seq::<(Seq<char>, Seq<char>)>::empty());
        }
    }

    /// Records a new (prefix, description) pair; the table shows them in
    /// recording order.
    /// * prefix - the snippet prefix text
    /// * descr - the snippet description
    pub fn write_line(&mut self, prefix: &str, descr: &str)
        ensures
            final(self)@ == (SnippetsDocView {
                body: old(self)@.body.push((prefix@, descr@)),
                ..old(self)@
            }),
    {
        let ghost before = self.body.deep_view();
        self.body.push((prefix.to_owned(), descr.to_owned()));
        proof {
            assert(self.body.deep_view() =~= before.push((prefix@, descr@)));
        }
    }

    /// Renders the documentation table; identical recorded pairs always
    /// render to identical text.
    #[verifier::rlimit(60)]
    pub fn to_string(&self) -> (r: String)
        ensures
            r@ == doc_text(self@),
    {
        let ghost bodyv = self.body.deep_view();
        let n = self.body.len();

        // the widest cell of each column
        let mut max_l: usize = 0;
        let mut max_r: usize = 0;
        let mut i: usize = 0;
        proof {
            assert(bodyv.take(0) =~= Seq::<(Seq<char>, Seq<char>)>::empty());
        }
        while i < n
            invariant
                i <= n,
                n == self.body@.len(),
                bodyv == self.body.deep_view(),
                bodyv.len() == n,
                max_l == max_prefix_len(bodyv.take(i as int)),
                max_r == max_descr_len(bodyv.take(i as int)),
            decreases n - i,
        {
            proof {
                assert(bodyv.take(i as int + 1).drop_last() =~= bodyv.take(i as int));
                assert(bodyv.take(i as int + 1).last() == bodyv[i as int]);
                assert(bodyv[i as int].0 == self.body@[i as int].0@);
                assert(bodyv[i as int].1 == self.body@[i as int].1@);
            }
            let l_len = self.body[i].0.as_str().unicode_len();
            if l_len > max_l {
                max_l = l_len;
            }
            let r_len = self.body[i].1.as_str().unicode_len();
            if r_len > max_r {
                max_r = r_len;
            }
            i = i + 1;
        }
        proof {
            assert(bodyv.take(n as int) =~= bodyv);
        }
        let ghost lw = prefix_width(bodyv);
        let ghost rw = descr_width(bodyv);

        // the table head
        let mut out = String::from_str("# ");
        out.append(self.title.as_str());
        out.append(" [");
        out.append(self.language.as_str());
        out.append("]:\n## ");
        out.append(self.description.as_str());
        out.append("\n| Prefix:");
        if n > 0 && max_l >= 5 {
            push_spaces(&mut out, max_l - 5);
        } else {
            proof {
                assert(spaces(pad(lw, 7)) =~= Seq::<char>::empty());
            }
        }
        out.append(" | Description:");
        if n > 0 && max_r >= 10 {
            push_spaces(&mut out, max_r - 10);
        } else {
            proof {
                assert(spaces(pad(rw, 12)) =~= Seq::<char>::empty());
            }
        }
        out.append(" |\n| ");
        if n > 0 {
            push_dashes(&mut out, max_l);
            push_dashes(&mut out, 2);
            proof {
                assert(dashes(max_l as nat) + dashes(2) =~= dashes(lw));
            }
        } else {
            proof {
                assert(dashes(lw) =~= Seq::<char>::empty());
            }
        }
        out.append(" | ");
        if n > 0 {
            push_dashes(&mut out, max_r);
            push_dashes(&mut out, 2);
            proof {
                assert(dashes(max_r as nat) + dashes(2) =~= dashes(rw));
            }
        } else {
            proof {
                assert(dashes(rw) =~= Seq::<char>::empty());
            }
        }
        out.append(" |\n");
        proof {
            assert(out@ =~= doc_header(self@));
        }
        let ghost header = out@;

        // one row per recorded pair
        let mut i: usize = 0;
        proof {
            assert(bodyv.take(0) =~= Seq::<(Seq<char>, Seq<char>)>::empty());
            assert(out@ =~= header + rows_cat(bodyv.take(0), lw, rw));
        }
        while i < n
            invariant
                i <= n,
                n == self.body@.len(),
                bodyv == self.body.deep_view(),
                bodyv.len() == n,
                max_l == max_prefix_len(bodyv),
                max_r == max_descr_len(bodyv),
                lw == prefix_width(bodyv),
                rw == descr_width(bodyv),
                out@ == header + rows_cat(bodyv.take(i as int), lw, rw),
            decreases n - i,
        {
            proof {
                lemma_max_le(bodyv, i as int);
                assert(bodyv[i as int].0 == self.body@[i as int].0@);
                assert(bodyv[i as int].1 == self.body@[i as int].1@);
            }
            out.append("| ");
            out.append(self.body[i].0.as_str());
            let l_len = self.body[i].0.as_str().unicode_len();
            push_spaces(&mut out, max_l - l_len);
            push_spaces(&mut out, 2);
            out.append(" | ");
            out.append(self.body[i].1.as_str());
            let r_len = self.body[i].1.as_str().unicode_len();
            push_spaces(&mut out, max_r - r_len);
            push_spaces(&mut out, 2);
            out.append(" |\n");
            proof {
                assert(spaces((max_l - l_len) as nat) + spaces(2) =~= spaces(
                    pad(lw, bodyv[i as int].0.len()),
                ));
                assert(spaces((max_r - r_len) as nat) + spaces(2) =~= spaces(
                    pad(rw, bodyv[i as int].1.len()),
                ));
                assert(bodyv.take(i as int + 1).drop_last() =~= bodyv.take(i as int));
                assert(bodyv.take(i as int + 1).last() == bodyv[i as int]);
                assert(out@ =~= header + rows_cat(bodyv.take(i as int + 1), lw, rw));
            }
            i = i + 1;
        }
        proof {
            assert(bodyv.take(n as int) =~= bodyv);
            assert(out@ =~= doc_text(self@));
        }
        out
    }
}

/// The row texts of the rendered table, one per recorded pair, in order.
pub open spec fn doc_rows(d: SnippetsDocView) -> Seq<Seq<char>> {
    Seq::new(
        d.body.len(),
        |i: int|
            doc_row(d.body[i].0, d.body[i].1, prefix_width(d.body), descr_width(d.body)),
    )
}

proof fn lemma_rows_cat_flatten(body: Seq<(Seq<char>, Seq<char>)>, lw: nat, rw: nat)
    ensures
        rows_cat(body, lw, rw) == Seq::new(
            body.len(),
            |i: int| doc_row(body[i].0, body[i].1, lw, rw),
        ).flatten(),
    decreases body.len(),
{
    let rows = Seq::new(body.len(), |i: int| doc_row(body[i].0, body[i].1, lw, rw));
    if body.len() == 0 {
        assert(rows.len() == 0);
        assert(rows_cat(body, lw, rw) =~= rows.flatten());
    } else {
        lemma_rows_cat_flatten(body.drop_last(), lw, rw);
        let prev = Seq::new(
            body.drop_last().len(),
            |i: int| doc_row(body.drop_last()[i].0, body.drop_last()[i].1, lw, rw),
        );
        assert(rows =~= prev.push(doc_row(body.last().0, body.last().1, lw, rw)));
        prev.lemma_flatten_push(doc_row(body.last().0, body.last().1, lw, rw));
    }
}

/// Documentation completeness: the rendered table is the head followed by
/// exactly one row for each recorded (prefix, description) pair, in
/// recording order.
pub proof fn lemma_documentation_rows(d: SnippetsDocView)
    ensures
        doc_rows(d).len() == d.body.len(),
        doc_text(d) == doc_header(d) + doc_rows(d).flatten(),
{
    lemma_rows_cat_flatten(d.body, prefix_width(d.body), descr_width(d.body));
}

} // verus!

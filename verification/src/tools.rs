//! Text normalisation into file-safe tokens, and generation of short
//! uniqueness suffixes.

use vstd::prelude::*;
use vstd::string::*;

verus! {

// ---------------------------------------------------------------------------
// Character classes
// ---------------------------------------------------------------------------

/// A Unicode whitespace character (the set `char::is_whitespace` accepts).
pub open spec fn is_space_char(c: char) -> bool {
    let u = c as int;
    (9 <= u && u <= 13) || u == 32 || u == 133 || u == 160 || u == 5760
        || (8192 <= u && u <= 8202) || u == 8232 || u == 8233 || u == 8239
        || u == 8287 || u == 12288
}

/// A character that normalisation keeps as it stands: ASCII letters and
/// digits, `-` and `_`, and, when spaces are kept, whitespace.
pub open spec fn is_kept_char(c: char, rm_spaces: bool) -> bool {
    let u = c as int;
    (65 <= u && u <= 90) || (97 <= u && u <= 122) || (48 <= u && u <= 57)
        || u == 45 || u == 95 || (!rm_spaces && is_space_char(c))
}

/// A character that is trimmed from either end of the normalised text.
pub open spec fn is_trim_char(c: char) -> bool {
    c == '-' || c == '_' || is_space_char(c)
}

/// A lowercase hexadecimal digit.
pub open spec fn is_hex_digit(c: char) -> bool {
    let u = c as int;
    (48 <= u && u <= 57) || (97 <= u && u <= 102)
}

fn space_char(c: char) -> (r: bool)
    ensures
        r == is_space_char(c),
{
    let u = c as u32;
    (9 <= u && u <= 13) || u == 32 || u == 133 || u == 160 || u == 5760
        || (8192 <= u && u <= 8202) || u == 8232 || u == 8233 || u == 8239
        || u == 8287 || u == 12288
}

fn kept_char(c: char, rm_spaces: bool) -> (r: bool)
    ensures
        r == is_kept_char(c, rm_spaces),
{
    let u = c as u32;
    (65 <= u && u <= 90) || (97 <= u && u <= 122) || (48 <= u && u <= 57)
        || u == 45 || u == 95 || (!rm_spaces && space_char(c))
}

fn trim_char(c: char) -> (r: bool)
    ensures
        r == is_trim_char(c),
{
    c == '-' || c == '_' || space_char(c)
}

// ---------------------------------------------------------------------------
// The normalised form of a text
// ---------------------------------------------------------------------------

/// Every maximal run of characters outside the kept set becomes a single
/// `-`; `in_run` says whether the character just before `s` belonged to
/// such a run (so the run's dash has been emitted already).
pub open spec fn collapse(s: Seq<char>, rm_spaces: bool, in_run: bool) -> Seq<char>
    decreases s.len(),
{
    if s.len() == 0 {
        Seq::empty()
    } else if is_kept_char(s[0], rm_spaces) {
        seq![s[0]] + collapse(s.drop_first(), rm_spaces, false)
    } else if in_run {
        collapse(s.drop_first(), rm_spaces, true)
    } else {
        seq!['-'] + collapse(s.drop_first(), rm_spaces, true)
    }
}

/// `s` without its leading run of trimmed characters.
pub open spec fn ltrim(s: Seq<char>) -> Seq<char>
    decreases s.len(),
{
    if s.len() > 0 && is_trim_char(s[0]) {
        ltrim(s.drop_first())
    } else {
        s
    }
}

/// `s` without its trailing run of trimmed characters.
pub open spec fn rtrim(s: Seq<char>) -> Seq<char>
    decreases s.len(),
{
    if s.len() > 0 && is_trim_char(s.last()) {
        rtrim(s.drop_last())
    } else {
        s
    }
}

/// The file-safe token derived from `s`: disallowed runs collapsed to `-`,
/// then `-`, `_` and whitespace runs trimmed from both ends.
pub open spec fn normalized(s: Seq<char>, rm_spaces: bool) -> Seq<char> {
    rtrim(ltrim(collapse(s, rm_spaces, false)))
}

/// Converts the text to a filesystem- and identifier-safe token.
/// * text - the input text
/// * rm_spaces - the option to remove spaces from the text
pub fn to_latin_text(text: &str, rm_spaces: bool) -> (r: String)
    ensures
        r@ == normalized(text@, rm_spaces),
{
    let n = text.unicode_len();
    let mut acc = String::new();
    let mut in_run = false;
    let mut i: usize = 0;
    proof {
        assert(text@.skip(0) =~= text@);
        assert(acc@ + collapse(text@.skip(0), rm_spaces, false) =~= collapse(
            text@,
            rm_spaces,
            false,
        ));
    }
    while i < n
        invariant
            i <= n,
            n == text@.len(),
            collapse(text@, rm_spaces, false) == acc@ + collapse(
                text@.skip(i as int),
                rm_spaces,
                in_run,
            ),
        decreases n - i,
    {
        let c = text.get_char(i);
        proof {
            assert(text@.skip(i as int).len() > 0);
            assert(text@.skip(i as int)[0] == c);
            assert(text@.skip(i as int).drop_first() =~= text@.skip(i as int + 1));
        }
        if kept_char(c, rm_spaces) {
            acc.push(c);
            proof {
                assert(acc@ + collapse(text@.skip(i as int + 1), rm_spaces, false) =~= collapse(
                    text@,
                    rm_spaces,
                    false,
                ));
            }
            in_run = false;
        } else if in_run {
        } else {
            acc.push('-');
            proof {
                assert(acc@ + collapse(text@.skip(i as int + 1), rm_spaces, true) =~= collapse(
                    text@,
                    rm_spaces,
                    false,
                ));
            }
            in_run = true;
        }
        i = i + 1;
    }
    proof {
        assert(text@.skip(n as int) =~= Seq::<char>::empty());
        assert(acc@ =~= collapse(text@, rm_spaces, false));
    }
    let s = acc.as_str();
    let m = s.unicode_len();

    let mut start: usize = 0;
    proof {
        assert(s@.skip(0) =~= s@);
    }
    loop
        invariant
            start <= m,
            m == s@.len(),
            ltrim(s@) == ltrim(s@.skip(start as int)),
        ensures
            start <= m,
            ltrim(s@) == s@.skip(start as int),
        decreases m - start,
    {
        if start >= m {
            proof {
                assert(s@.skip(start as int) =~= Seq::<char>::empty());
            }
            break;
        }
        let c = s.get_char(start);
        if !trim_char(c) {
            proof {
                assert(s@.skip(start as int)[0] == c);
            }
            break;
        }
        proof {
            assert(s@.skip(start as int)[0] == c);
            assert(s@.skip(start as int).drop_first() =~= s@.skip(start as int + 1));
        }
        start = start + 1;
    }

    let mut end: usize = m;
    loop
        invariant
            start <= end <= m,
            m == s@.len(),
            ltrim(s@) == s@.skip(start as int),
            rtrim(s@.skip(start as int)) == rtrim(s@.subrange(start as int, end as int)),
        ensures
            start <= end <= m,
            rtrim(s@.skip(start as int)) == s@.subrange(start as int, end as int),
        decreases end,
    {
        if end == start {
            proof {
                assert(s@.subrange(start as int, end as int).len() == 0);
            }
            break;
        }
        let c = s.get_char(end - 1);
        proof {
            assert(s@.subrange(start as int, end as int).last() == c);
        }
        if !trim_char(c) {
            break;
        }
        proof {
            assert(s@.subrange(start as int, end as int).drop_last() =~= s@.subrange(
                start as int,
                end as int - 1,
            ));
        }
        end = end - 1;
    }

    let r = s.substring_char(start, end).to_owned();
    proof {
        assert(r@ =~= s@.subrange(start as int, end as int));
    }
    r
}

// ---------------------------------------------------------------------------
// Normalisation is idempotent
// ---------------------------------------------------------------------------

proof fn lemma_collapse_chars(s: Seq<char>, rm_spaces: bool, in_run: bool)
    ensures
        forall|i: int|
            0 <= i < collapse(s, rm_spaces, in_run).len() ==> is_kept_char(
                #[trigger] collapse(s, rm_spaces, in_run)[i],
                rm_spaces,
            ),
    decreases s.len(),
{
    if s.len() > 0 {
        lemma_collapse_chars(s.drop_first(), rm_spaces, false);
        lemma_collapse_chars(s.drop_first(), rm_spaces, true);
        let out = collapse(s, rm_spaces, in_run);
        if is_kept_char(s[0], rm_spaces) {
            let rest = collapse(s.drop_first(), rm_spaces, false);
            assert forall|i: int| 0 <= i < out.len() implies is_kept_char(
                #[trigger] out[i],
                rm_spaces,
            ) by {
                if i > 0 {
                    assert(out[i] == rest[i - 1]);
                }
            }
        } else if in_run {
        } else {
            let rest = collapse(s.drop_first(), rm_spaces, true);
            assert(is_kept_char('-', rm_spaces)) by {
                assert('-' as int == 45);
            }
            assert forall|i: int| 0 <= i < out.len() implies is_kept_char(
                #[trigger] out[i],
                rm_spaces,
            ) by {
                if i > 0 {
                    assert(out[i] == rest[i - 1]);
                }
            }
        }
    }
}

proof fn lemma_collapse_of_kept(s: Seq<char>, rm_spaces: bool, in_run: bool)
    requires
        forall|i: int| 0 <= i < s.len() ==> is_kept_char(#[trigger] s[i], rm_spaces),
    ensures
        collapse(s, rm_spaces, in_run) == s,
    decreases s.len(),
{
    if s.len() == 0 {
        assert(collapse(s, rm_spaces, in_run) =~= s);
    } else {
        lemma_collapse_of_kept(s.drop_first(), rm_spaces, false);
        assert(seq![s[0]] + s.drop_first() =~= s);
    }
}

/// `ltrim(s)` is a suffix of `s` whose first character, if any, is not trimmed.
proof fn lemma_ltrim(s: Seq<char>)
    ensures
        ltrim(s).len() <= s.len(),
        ltrim(s) == s.skip(s.len() - ltrim(s).len()),
        ltrim(s).len() > 0 ==> !is_trim_char(ltrim(s)[0]),
    decreases s.len(),
{
    if s.len() > 0 && is_trim_char(s[0]) {
        lemma_ltrim(s.drop_first());
        assert(s.drop_first().skip(s.drop_first().len() - ltrim(s).len()) =~= s.skip(
            s.len() - ltrim(s).len(),
        ));
    } else {
        assert(s.skip(0) =~= s);
    }
}

/// `rtrim(s)` is a prefix of `s` whose last character, if any, is not trimmed.
proof fn lemma_rtrim(s: Seq<char>)
    ensures
        rtrim(s).len() <= s.len(),
        rtrim(s) == s.take(rtrim(s).len() as int),
        rtrim(s).len() > 0 ==> !is_trim_char(rtrim(s).last()),
    decreases s.len(),
{
    if s.len() > 0 && is_trim_char(s.last()) {
        lemma_rtrim(s.drop_last());
        assert(s.drop_last().take(rtrim(s).len() as int) =~= s.take(rtrim(s).len() as int));
    } else {
        assert(s.take(s.len() as int) =~= s);
    }
}

/// Normalising is idempotent: a normalised text normalises to itself.
pub proof fn lemma_normalized_idempotent(s: Seq<char>, rm_spaces: bool)
    ensures
        normalized(normalized(s, rm_spaces), rm_spaces) == normalized(s, rm_spaces),
{
    let c = collapse(s, rm_spaces, false);
    let lt = ltrim(c);
    let r = rtrim(lt);
    lemma_collapse_chars(s, rm_spaces, false);
    lemma_ltrim(c);
    lemma_rtrim(lt);
    // every character of `r` is a character of `c`, so it is kept
    assert forall|i: int| 0 <= i < r.len() implies is_kept_char(#[trigger] r[i], rm_spaces) by {
        assert(r[i] == lt[i]);
        assert(lt[i] == c[c.len() - lt.len() + i]);
    }
    lemma_collapse_of_kept(r, rm_spaces, false);
    if r.len() > 0 {
        assert(r[0] == lt[0]);
        assert(!is_trim_char(r[0]));
        assert(ltrim(r) == r);
        assert(!is_trim_char(r.last()));
        assert(rtrim(r) == r);
    } else {
        assert(ltrim(r) == r);
        assert(rtrim(r) == r);
    }
}

// ---------------------------------------------------------------------------
// Unique-name generation
// ---------------------------------------------------------------------------

/// Relies on `chrono::Utc::now` and the `Display` rendering of the returned
/// instant; the result depends on the clock, so nothing is stated of it.
#[verifier::external_body]
fn now_text() -> (r: String) {
    chrono::Utc::now().to_string()
}

/// The lowercase hexadecimal rendering of the MD5 digest of a text; a
/// function of the text alone.
pub uninterp spec fn md5_hex_of(s: Seq<char>) -> Seq<char>;

/// Relies on `md5::compute` and the `LowerHex` rendering of `md5::Digest`:
/// two lowercase hexadecimal digits for each of the 16 digest bytes.
#[verifier::external_body]
fn md5_hex(s: &str) -> (r: String)
    ensures
        r@ == md5_hex_of(s@),
        r@.len() == 32,
        forall|i: int| 0 <= i < r@.len() ==> is_hex_digit(#[trigger] r@[i]),
{
    format!("{:x}", md5::compute(s.as_bytes()))
}

/// Generates a short opaque token: a fresh timestamp digest truncated to
/// `len` lowercase hexadecimal characters.
/// * len - the number of characters to generate, at most the digest's 32
pub fn gen_unique_name(len: usize) -> (r: String)
    requires
        len <= 32,
    ensures
        r@.len() == len,
        forall|i: int| 0 <= i < r@.len() ==> is_hex_digit(#[trigger] r@[i]),
{
    let stamp = now_text();
    let hash = md5_hex(stamp.as_str());
    let r = hash.as_str().substring_char(0, len).to_owned();
    proof {
        assert(r@ =~= hash@.subrange(0, len as int));
    }
    r
}

/// The Unicode lowercase form of a text; a function of the text alone.
pub uninterp spec fn lower_of(s: Seq<char>) -> Seq<char>;

/// Relies on `str::to_lowercase`: the result depends on the characters alone,
/// and an empty text stays empty.
#[verifier::external_body]
pub(crate) fn to_lowercase_text(s: &str) -> (r: String)
    ensures
        r@ == lower_of(s@),
        s@.len() == 0 ==> r@.len() == 0,
{
    s.to_lowercase()
}

} // verus!

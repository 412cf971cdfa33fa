//! The package version parser.

use vstd::prelude::*;
use vstd::string::*;
use crate::error::Error;

verus! {

/// An ASCII decimal digit.
pub open spec fn is_ascii_digit(c: char) -> bool {
    48 <= c as int <= 57
}

fn ascii_digit(c: char) -> (r: bool)
    ensures
        r == is_ascii_digit(c),
{
    let u = c as u32;
    48 <= u && u <= 57
}

/// Does `s` consist of one or more dot-separated runs of decimal digits?
/// `after_digit` says whether the character just before `s` was a digit,
/// so that a dot or the end of the text is welcome there.
pub open spec fn version_tail(s: Seq<char>, after_digit: bool) -> bool
    decreases s.len(),
{
    if s.len() == 0 {
        after_digit
    } else if is_ascii_digit(s[0]) {
        version_tail(s.drop_first(), true)
    } else if s[0] == '.' && after_digit {
        version_tail(s.drop_first(), false)
    } else {
        false
    }
}

/// A well-formed version text: an optional leading `^`, then one or more
/// dot-separated non-negative integers.
pub open spec fn valid_version(s: Seq<char>) -> bool {
    if s.len() > 0 && s[0] == '^' {
        version_tail(s.skip(1), false)
    } else {
        version_tail(s, false)
    }
}

/// The package version: a text that passed the version format check.
#[derive(Debug, Clone)]
pub struct Version {
    value: String,
}

impl View for Version {
    type V = Seq<char>;

    closed spec fn view(&self) -> Seq<char> {
        self.value@
    }
}

impl Version {
    /// The version text is well formed.
    pub open spec fn wf(&self) -> bool {
        valid_version(self@)
    }

    /// Parses a version text, rejecting everything that is not an optional
    /// leading `^` followed by one or more dot-separated non-negative
    /// integers.
    pub fn parse(s: &str) -> (r: Result<Version, Error>)
        ensures
            r is Ok <==> valid_version(s@),
            r matches Ok(v) ==> v@ == s@ && v.wf(),
            r matches Err(e) ==> e == Error::IncorrectVersionFormat,
    {
        let n = s.unicode_len();
        let mut i: usize = 0;
        if n > 0 && s.get_char(0) == '^' {
            i = 1;
        } else {
            proof {
                assert(s@.skip(0) =~= s@);
            }
        }
        let mut after_digit = false;
        while i < n
            invariant
                i <= n,
                n == s@.len(),
                valid_version(s@) == version_tail(s@.skip(i as int), after_digit),
            decreases n - i,
        {
            let c = s.get_char(i);
            proof {
                assert(s@.skip(i as int)[0] == c);
                assert(s@.skip(i as int).drop_first() =~= s@.skip(i as int + 1));
            }
            if ascii_digit(c) {
                after_digit = true;
            } else if c == '.' && after_digit {
                after_digit = false;
            } else {
                return Err(Error::IncorrectVersionFormat);
            }
            i = i + 1;
        }
        proof {
            assert(s@.skip(n as int) =~= Seq::<char>::empty());
        }
        if after_digit {
            Ok(Version { value: s.to_owned() })
        } else {
            Err(Error::IncorrectVersionFormat)
        }
    }

    /// Get as string slice.
    pub fn as_str(&self) -> (r: &str)
        ensures
            r@ == self@,
    {
        self.value.as_str()
    }

    /// Converts to string.
    pub fn to_string(&self) -> (r: String)
        ensures
            r@ == self@,
    {
        self.value.clone()
    }
}

} // verus!

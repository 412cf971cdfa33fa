//! Small verified helpers for building strings character by character.

use vstd::prelude::*;
use vstd::string::*;

verus! {

/// Relies on `String::push`: appends exactly the given character.
pub assume_specification[ String::push ](s: &mut String, c: char)
    ensures
        final(s)@ == old(s)@ + seq![c],
;

/// Appends `n` copies of `c` to `out`.
pub fn push_repeat(out: &mut String, c: char, n: usize)
    ensures
        final(out)@ == old(out)@ + Seq::new(n as nat, |i| c),
{
    let mut i: usize = 0;
    proof {
        assert(out@ =~= old(out)@ + Seq::new(0nat, |j: int| c));
    }
    while i < n
        invariant
            i <= n,
            out@ == old(out)@ + Seq::new(i as nat, |j: int| c),
        decreases n - i,
    {
        out.push(c);
        i = i + 1;
        proof {
            assert(Seq::new(i as nat, |j: int| c) =~= Seq::new((i - 1) as nat, |j: int| c) + seq![c]);
            assert(out@ =~= old(out)@ + Seq::new(i as nat, |j: int| c));
        }
    }
}

/// `n` space characters.
pub open spec fn spaces(n: nat) -> Seq<char> {
    Seq::new(n, |i: int| ' ')
}

/// `n` dash characters.
pub open spec fn dashes(n: nat) -> Seq<char> {
    Seq::new(n, |i: int| '-')
}

/// Appends `n` spaces to `out`.
pub fn push_spaces(out: &mut String, n: usize)
    ensures
        final(out)@ == old(out)@ + spaces(n as nat),
{
    push_repeat(out, ' ', n);
    proof {
        assert(Seq::new(n as nat, |i: int| ' ') =~= spaces(n as nat));
    }
}

/// Appends `n` dashes to `out`.
pub fn push_dashes(out: &mut String, n: usize)
    ensures
        final(out)@ == old(out)@ + dashes(n as nat),
{
    push_repeat(out, '-', n);
    proof {
        assert(Seq::new(n as nat, |i: int| '-') =~= dashes(n as nat));
    }
}

/// The decimal digit character for `n`, which must lie in `0 ..= 9`.
pub open spec fn dec_digit(n: int) -> char {
    if n == 0 {
        '0'
    } else if n == 1 {
        '1'
    } else if n == 2 {
        '2'
    } else if n == 3 {
        '3'
    } else if n == 4 {
        '4'
    } else if n == 5 {
        '5'
    } else if n == 6 {
        '6'
    } else if n == 7 {
        '7'
    } else if n == 8 {
        '8'
    } else {
        '9'
    }
}

/// The decimal rendering of `n`, without leading zeros (except for 0 itself).
pub open spec fn dec_str(n: nat) -> Seq<char>
    decreases n,
{
    if n < 10 {
        seq![dec_digit(n as int)]
    } else {
        dec_str(n / 10) + seq![dec_digit((n % 10) as int)]
    }
}

/// The decimal rendering of `v`, with a leading `-` when it is negative.
pub open spec fn int_str(v: int) -> Seq<char> {
    if v < 0 {
        seq!['-'] + dec_str((-v) as nat)
    } else {
        dec_str(v as nat)
    }
}

fn dec_digit_char(n: u64) -> (c: char)
    requires
        n < 10,
    ensures
        c == dec_digit(n as int),
{
    if n == 0 {
        '0'
    } else if n == 1 {
        '1'
    } else if n == 2 {
        '2'
    } else if n == 3 {
        '3'
    } else if n == 4 {
        '4'
    } else if n == 5 {
        '5'
    } else if n == 6 {
        '6'
    } else if n == 7 {
        '7'
    } else if n == 8 {
        '8'
    } else {
        '9'
    }
}

/// Appends the decimal rendering of `n` to `out`.
pub fn push_u64(out: &mut String, n: u64)
    ensures
        final(out)@ == old(out)@ + dec_str(n as nat),
{
    let mut digits: Vec<char> = Vec::new();
    let mut m = n;
    proof {
        assert(digits@.reverse() =~= Seq::<char>::empty());
    }
    loop
        invariant
            dec_str(n as nat) == (if m > 0 || digits@.len() == 0 {
                dec_str(m as nat)
            } else {
                Seq::<char>::empty()
            }) + digits@.reverse(),
        ensures
            dec_str(n as nat) == digits@.reverse(),
        decreases m, (if digits@.len() == 0 { 1int } else { 0int }),
    {
        if m == 0 && digits.len() > 0 {
            break;
        }
        let ghost m0 = m;
        let d = m % 10;
        let rest = m / 10;
        digits.push(dec_digit_char(d));
        proof {
            assert(digits@.reverse() =~= seq![dec_digit(d as int)] + digits@.drop_last().reverse());
            if m0 < 10 {
                assert(dec_str(m0 as nat) == seq![dec_digit(m0 as int)]);
            }
            assert((if rest > 0 {
                dec_str(rest as nat)
            } else {
                Seq::<char>::empty()
            }) + digits@.reverse() =~= (if m0 > 0 || digits@.drop_last().len() == 0 {
                dec_str(m0 as nat)
            } else {
                Seq::<char>::empty()
            }) + digits@.drop_last().reverse());
        }
        m = rest;
    }
    let ghost all = digits@;
    let mut k: usize = digits.len();
    proof {
        assert(out@ + digits@.reverse() =~= old(out)@ + dec_str(n as nat));
    }
    loop
        invariant
            k == digits@.len(),
            out@ + digits@.reverse() == old(out)@ + dec_str(n as nat),
        ensures
            out@ == old(out)@ + dec_str(n as nat),
        decreases k,
    {
        if k == 0 {
            proof {
                assert(out@ =~= out@ + digits@.reverse());
            }
            break;
        }
        let ghost before = digits@;
        let c = match digits.pop() {
            Some(c) => c,
            None => vstd::pervasive::unreached(),
        };
        out.push(c);
        k = k - 1;
        proof {
            assert(before.reverse() =~= seq![c] + digits@.reverse());
            assert(out@ + digits@.reverse() =~= old(out)@ + dec_str(n as nat));
        }
    }
}

/// Appends the decimal rendering of `v` to `out`, with a `-` sign when it
/// is negative.
pub fn push_i32(out: &mut String, v: i32)
    ensures
        final(out)@ == old(out)@ + int_str(v as int),
{
    if v < 0 {
        out.push('-');
        let wide: i64 = v as i64;
        let mag: u64 = (-wide) as u64;
        proof {
            assert(mag as int == -(v as int));
        }
        push_u64(out, mag);
        proof {
            assert(old(out)@ + seq!['-'] + dec_str(mag as nat) =~= old(out)@ + int_str(v as int));
        }
    } else {
        push_u64(out, v as u64);
    }
}

} // verus!

//! Printable forms of the numeric literals: verified decimal rendering of
//! 32-bit integers. Float literals keep their scanned text and are emitted
//! verbatim, so they need no rendering here.

use vstd::prelude::*;
use vstd::string::StringExecFns;

verus! {

/// The decimal digit character for `d` (meaningful for `0 <= d < 10`).
pub open spec fn dec_digit(d: int) -> char {
    if d == 0 {
        '0'
    } else if d == 1 {
        '1'
    } else if d == 2 {
        '2'
    } else if d == 3 {
        '3'
    } else if d == 4 {
        '4'
    } else if d == 5 {
        '5'
    } else if d == 6 {
        '6'
    } else if d == 7 {
        '7'
    } else if d == 8 {
        '8'
    } else {
        '9'
    }
}

/// The decimal text of a non-negative integer, without leading zeros.
pub open spec fn dec_text(n: int) -> Seq<char>
    decreases n,
{
    if n < 10 {
        seq![dec_digit(n)]
    } else {
        dec_text(n / 10).push(dec_digit(n % 10))
    }
}

/// The decimal text of an integer: a minus sign before the magnitude when
/// negative.
pub open spec fn int_text(i: int) -> Seq<char> {
    if i < 0 {
        seq!['-'] + dec_text(-i)
    } else {
        dec_text(i)
    }
}

/// The value of a run of decimal digit characters, most significant first.
pub open spec fn dec_val(s: Seq<char>) -> int
    decreases s.len(),
{
    if s.len() == 0 {
        0
    } else {
        dec_val(s.drop_last()) * 10 + (s.last() as u32 - 48)
    }
}

/// A digit character, `'0'` through `'9'`.
pub open spec fn spec_is_digit(c: char) -> bool {
    48 <= (c as u32) && (c as u32) <= 57
}

/// The value of a digit run is non-negative.
pub proof fn lemma_dec_val_nonneg(s: Seq<char>)
    requires
        forall|i: int| 0 <= i < s.len() ==> spec_is_digit(#[trigger] s[i]),
    ensures
        dec_val(s) >= 0,
    decreases s.len(),
{
    if s.len() > 0 {
        assert(forall|i: int|
            0 <= i < s.drop_last().len() ==> spec_is_digit(#[trigger] s.drop_last()[i]));
        lemma_dec_val_nonneg(s.drop_last());
    }
}

/// A digit run denotes at least as much as any of its prefixes.
pub proof fn lemma_dec_val_prefix(s: Seq<char>, k: int)
    requires
        0 <= k <= s.len(),
        forall|i: int| 0 <= i < s.len() ==> spec_is_digit(#[trigger] s[i]),
    ensures
        dec_val(s) >= dec_val(s.subrange(0, k)),
    decreases s.len() - k,
{
    if k < s.len() {
        lemma_dec_val_prefix(s, k + 1);
        let a = s.subrange(0, k);
        let b = s.subrange(0, k + 1);
        assert(b.drop_last() =~= a);
        assert(forall|i: int| 0 <= i < a.len() ==> spec_is_digit(#[trigger] a[i]));
        lemma_dec_val_nonneg(a);
        assert(dec_val(b) == dec_val(a) * 10 + (b.last() as u32 - 48));
        assert(spec_is_digit(b.last()));
        assert(dec_val(b) >= dec_val(a));
    } else {
        assert(s.subrange(0, k) =~= s);
    }
}

/// Parses a run of decimal digits as a 32-bit signed integer; reports
/// failure exactly when the denoted value is out of range.
pub fn parse_i32(text: &String) -> (r: Result<i32, ()>)
    requires
        text@.len() > 0,
        forall|i: int| 0 <= i < text@.len() ==> spec_is_digit(#[trigger] text@[i]),
    ensures
        match r {
            Ok(v) => v as int == dec_val(text@) && dec_val(text@) <= i32::MAX as int,
            Err(_) => dec_val(text@) > i32::MAX as int,
        },
{
    let n = text.as_str().unicode_len();
    let mut acc: i64 = 0;
    let mut i: usize = 0;
    while i < n
        invariant
            i <= n,
            n == text@.len(),
            forall|j: int| 0 <= j < text@.len() ==> spec_is_digit(#[trigger] text@[j]),
            0 <= acc <= i32::MAX as int,
            acc as int == dec_val(text@.subrange(0, i as int)),
        decreases n - i,
    {
        let c = text.as_str().get_char(i);
        let d: u32 = (c as u32) - 48;
        let next: i64 = acc * 10 + (d as i64);
        proof {
            let b = text@.subrange(0, i as int + 1);
            assert(b.drop_last() =~= text@.subrange(0, i as int));
            assert(b.last() == text@[i as int]);
            assert(dec_val(b) == dec_val(text@.subrange(0, i as int)) * 10 + (b.last() as u32
                - 48));
        }
        if next > i32::MAX as i64 {
            proof {
                lemma_dec_val_prefix(text@, i as int + 1);
            }
            return Err(());
        }
        acc = next;
        i = i + 1;
    }
    proof {
        assert(text@.subrange(0, n as int) =~= text@);
    }
    Ok(acc as i32)
}

/// Exact decimal rendering of an `i32`.
pub fn int_to_text(n: i32) -> (r: String)
    ensures
        r@ == int_text(n as int),
{
    let mut out = String::new();
    if n < 0 {
        out.append("-");
        let mag: u32 = (-(n as i64)) as u32;
        proof {
            assert(mag as int == -(n as int));
            assert("-"@ =~= seq!['-']) by {
                reveal_strlit("-");
            }
        }
        push_dec(mag, &mut out);
        proof {
            assert(out@ =~= seq!['-'] + dec_text(-(n as int)));
        }
    } else {
        push_dec(n as u32, &mut out);
        proof {
            assert(out@ =~= dec_text(n as int));
        }
    }
    out
}

/// Appends the decimal digits of `n` to `out`.
fn push_dec(n: u32, out: &mut String)
    ensures
        final(out)@ == old(out)@ + dec_text(n as int),
    decreases n,
{
    if n < 10 {
        out.append(dec_digit_str(n));
        proof {
            assert(final(out)@ =~= old(out)@ + dec_text(n as int));
        }
    } else {
        push_dec(n / 10, out);
        out.append(dec_digit_str(n % 10));
        proof {
            assert(final(out)@ =~= old(out)@ + dec_text(n as int));
        }
    }
}

/// The one-character string for the digit `d`.
fn dec_digit_str(d: u32) -> (r: &'static str)
    requires
        d < 10,
    ensures
        r@ == seq![dec_digit(d as int)],
{
    proof {
        reveal_strlit("0");
        reveal_strlit("1");
        reveal_strlit("2");
        reveal_strlit("3");
        reveal_strlit("4");
        reveal_strlit("5");
        reveal_strlit("6");
        reveal_strlit("7");
        reveal_strlit("8");
        reveal_strlit("9");
    }
    let r = if d == 0 {
        "0"
    } else if d == 1 {
        "1"
    } else if d == 2 {
        "2"
    } else if d == 3 {
        "3"
    } else if d == 4 {
        "4"
    } else if d == 5 {
        "5"
    } else if d == 6 {
        "6"
    } else if d == 7 {
        "7"
    } else if d == 8 {
        "8"
    } else {
        "9"
    };
    proof {
        assert(r@ =~= seq![dec_digit(d as int)]);
    }
    r
}

} // verus!

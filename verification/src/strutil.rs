//! Small string helpers: contracts for the two std functions the scanners
//! lean on, and a verified character-wise string comparison.

use vstd::prelude::*;
use vstd::string::StrSliceExecFns;

verus! {

/// Relies on `String::push`: appends the given character to the end of the
/// string.
pub assume_specification[ String::push ](s: &mut String, ch: char)
    ensures
        final(s)@ == old(s)@.push(ch),
;

/// Whether a character has the Unicode white-space property; the result
/// depends on the character alone.
pub uninterp spec fn is_whitespace_char(c: char) -> bool;

/// Relies on `char::is_whitespace`: whether the character has the Unicode
/// white-space property. As std documents it, the ASCII white-space
/// characters (tab through carriage return, and space) have the property,
/// and the printable ASCII characters other than space do not.
pub assume_specification[ char::is_whitespace ](c: char) -> (r: bool)
    ensures
        r == is_whitespace_char(c),
        (9 <= c as u32 && c as u32 <= 13) || c as u32 == 32 ==> r,
        33 <= c as u32 && c as u32 <= 126 ==> !r,
;

/// Whether a character has the Unicode alphabetic property; the result
/// depends on the character alone.
pub uninterp spec fn is_alphabetic_char(c: char) -> bool;

/// Relies on `char::is_alphabetic`: whether the character has the Unicode
/// alphabetic property. As std documents it, the ASCII letters have the
/// property, and ASCII control characters, digits, punctuation and white
/// space do not.
pub assume_specification[ char::is_alphabetic ](c: char) -> (r: bool)
    ensures
        r == is_alphabetic_char(c),
        (97 <= c as u32 && c as u32 <= 122) || (65 <= c as u32 && c as u32 <= 90) ==> r,
        c as u32 <= 64 || (91 <= c as u32 && c as u32 <= 96) || (123 <= c as u32 && c as u32
            <= 126) ==> !r,
;

/// Exact character-wise equality of two string slices.
pub fn str_eq(a: &str, b: &str) -> (r: bool)
    ensures
        r == (a@ == b@),
{
    let la = a.unicode_len();
    let lb = b.unicode_len();
    if la != lb {
        proof {
            assert(a@ != b@) by {
                assert(a@.len() != b@.len());
            }
        }
        return false;
    }
    let mut i: usize = 0;
    while i < la
        invariant
            i <= la,
            la == a@.len(),
            la == b@.len(),
            forall|j: int| 0 <= j < i ==> a@[j] == b@[j],
        decreases la - i,
    {
        if a.get_char(i) != b.get_char(i) {
            return false;
        }
        i += 1;
    }
    proof {
        assert(a@ =~= b@);
    }
    true
}

} // verus!

//! Small text helpers: currency-code normalization and ASCII strings.
//!
//! Currency codes are normalized to upper case before any comparison or
//! lookup. The library's normalization rule maps the ASCII letters
//! `a`..`z` of an ASCII string to upper case and leaves any other string
//! unchanged.

use vstd::prelude::*;
use vstd::string::StrSliceExecFns;
use vstd::string::StringSliceAdditionalSpecFns;
use vstd::utf8::is_ascii_chars;

verus! {

broadcast use vstd::string::group_string_axioms;

/// One character of a code, normalized: an ASCII lower-case letter
/// becomes the matching upper-case letter.
pub open spec fn upper_char(c: char) -> char {
    if 97 <= c as u32 && c as u32 <= 122 {
        ((c as u32 - 32) as u8) as char
    } else {
        c
    }
}

/// A whole code, normalized: each character of an ASCII string is
/// upper-cased; a string with any non-ASCII character stays as it is.
pub open spec fn upper_seq(s: Seq<char>) -> Seq<char> {
    if is_ascii_chars(s) {
        s.map_values(|c: char| upper_char(c))
    } else {
        s
    }
}

/// Relies on `String::from_utf8`: bytes that are valid UTF-8 become a
/// string of exactly those bytes, and ASCII bytes decode to one
/// character each.
#[verifier::external_body]
pub(crate) fn string_from_ascii(bytes: Vec<u8>) -> (r: String)
    requires
        forall|i: int| 0 <= i < bytes@.len() ==> bytes@[i] < 128,
    ensures
        r@.len() == bytes@.len(),
        forall|i: int| 0 <= i < bytes@.len() ==> r@[i] == bytes@[i] as char,
{
    String::from_utf8(bytes).unwrap_or_default()
}

/// Normalize a currency code to upper case.
pub fn to_upper_code(s: &str) -> (r: String)
    ensures
        r@ == upper_seq(s@),
{
    if !s.is_ascii() {
        return s.to_owned();
    }
    let bytes = s.as_bytes_vec();
    let n = bytes.len();
    let mut out: Vec<u8> = Vec::new();
    let mut i: usize = 0;
    while i < n
        invariant
            n == bytes.len(),
            bytes@ == s.spec_bytes(),
            vstd::string::is_ascii(s),
            i <= n,
            out@.len() == i,
            forall|j: int| 0 <= j < i ==> out@[j] < 128,
            forall|j: int| 0 <= j < i ==> out@[j] as char == upper_char(#[trigger] s@[j]),
        decreases n - i,
    {
        proof {
            assert(s.spec_bytes()[i as int] == s@[i as int] as u8);
            assert('\0' <= s@[i as int] <= '\u{7f}');
        }
        let b = bytes[i];
        if 97 <= b && b <= 122 {
            out.push(b - 32);
        } else {
            out.push(b);
        }
        i += 1;
    }
    let r = string_from_ascii(out);
    proof {
        assert(r@ =~= s@.map_values(|c: char| upper_char(c)));
    }
    r
}

/// The number of characters of a code.
pub fn code_char_len(s: &str) -> (n: usize)
    ensures
        n == s@.len(),
{
    s.unicode_len()
}

} // verus!

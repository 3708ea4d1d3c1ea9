//! Character classes shared by the lexical stripper and the export-type
//! parser, and the conversions between `String` and `Vec<char>` that the
//! scanners work over.

use vstd::prelude::*;

verus! {

/// A character of the identifier class: ASCII letters, digits, underscore.
pub open spec fn is_ident_char(c: char) -> bool {
    let n = c as u32;
    (97 <= n && n <= 122)  // 'a' ..= 'z'
    || (65 <= n && n <= 90)  // 'A' ..= 'Z'
    || (48 <= n && n <= 57)  // '0' ..= '9'
    || n == 95  // '_'
}

/// ASCII whitespace: space, tab, line feed, form feed, carriage return.
pub open spec fn is_space_char(c: char) -> bool {
    let n = c as u32;
    n == 32 || n == 9 || n == 10 || n == 12 || n == 13
}

/// Runtime test for [`is_ident_char`].
pub fn ident_char(c: char) -> (r: bool)
    ensures
        r == is_ident_char(c),
{
    let n = c as u32;
    (97 <= n && n <= 122) || (65 <= n && n <= 90) || (48 <= n && n <= 57) || n == 95
}

/// Runtime test for [`is_space_char`].
pub fn space_char(c: char) -> (r: bool)
    ensures
        r == is_space_char(c),
{
    let n = c as u32;
    n == 32 || n == 9 || n == 10 || n == 12 || n == 13
}

/// The characters of `s`, in order, as a vector the scanners can index.
pub fn chars_of(s: &str) -> (r: Vec<char>)
    ensures
        r@ == s@,
{
    let mut r: Vec<char> = Vec::new();
    for c in it: s.chars()
        invariant
            it.seq() == s@,
            r@ == it.seq().take(it.index() as int),
    {
        r.push(c);
    }
    proof {
        assert(r@ =~= s@);
    }
    r
}

/// Relies on `String::from_iter` over `char`: the returned string consists of
/// exactly the characters of `v`, in order.
#[verifier::external_body]
pub fn string_of(v: Vec<char>) -> (r: String)
    ensures
        r@ == v@,
{
    v.into_iter().collect()
}

} // verus!

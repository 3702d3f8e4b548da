//! Small string helpers: equality and decimal rendering, with the parts that
//! std computes behind trusted wrappers.

use vstd::prelude::*;

verus! {

/// Relies on `<str as PartialEq>::eq`: two string slices are equal exactly
/// when their character contents are equal.
#[verifier::external_body]
pub fn str_eq(a: &str, b: &str) -> (r: bool)
    ensures
        r == (a@ == b@),
{
    a == b
}

/// The decimal digits of `n`, most significant first.
pub open spec fn dec_str(n: nat) -> Seq<char>
    decreases n,
{
    let digit = seq![digit_char((n % 10) as int)];
    if n < 10 {
        digit
    } else {
        dec_str(n / 10) + digit
    }
}

/// The character for one decimal digit.
pub open spec fn digit_char(d: int) -> char {
    if d == 0 { '0' }
    else if d == 1 { '1' }
    else if d == 2 { '2' }
    else if d == 3 { '3' }
    else if d == 4 { '4' }
    else if d == 5 { '5' }
    else if d == 6 { '6' }
    else if d == 7 { '7' }
    else if d == 8 { '8' }
    else { '9' }
}

/// Relies on `u64::to_string` (std `Display` for integers): the result is the
/// decimal rendering of the value.
#[verifier::external_body]
pub fn u64_to_string(n: u64) -> (r: String)
    ensures
        r@ == dec_str(n as nat),
{
    n.to_string()
}

/// What `String::from_utf8_lossy` decodes a byte run to: a function of the
/// bytes alone.
pub uninterp spec fn lossy_of(s: Seq<u8>) -> Seq<char>;

/// Relies on `String::from_utf8_lossy`: the decoding depends on the bytes
/// alone, and UTF-8 being ASCII-compatible, a run of bytes below 128 decodes
/// to exactly those characters.
#[verifier::external_body]
pub fn bytes_to_string_lossy(v: &Vec<u8>) -> (r: String)
    ensures
        r@ == lossy_of(v@),
        (forall|i: int| 0 <= i < v@.len() ==> v@[i] < 128) ==> (
            r@.len() == v@.len()
            && forall|i: int| 0 <= i < v@.len() ==> r@[i] == (v@[i] as char)
        ),
{
    String::from_utf8_lossy(v.as_slice()).into_owned()
}

/// Relies on `i64::to_string` (std `Display` for integers): a minus sign for
/// negative values, then the decimal digits of the magnitude.
#[verifier::external_body]
pub fn i64_to_string(n: i64) -> (r: String)
    ensures
        n >= 0 ==> r@ == dec_str(n as nat),
        n < 0 ==> r@ == seq!['-'] + dec_str((-(n as int)) as nat),
{
    n.to_string()
}

} // verus!

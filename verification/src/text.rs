//! Characters and text: the Unicode classes the scanner relies on, and the
//! building blocks of rendered diagnostics.

use vstd::prelude::*;
use vstd::string::StringExecFns;

verus! {

/// Whether `c` carries the Unicode property `White_Space`.
pub uninterp spec fn unicode_whitespace(c: char) -> bool;

/// Whether `c` carries the Unicode property `Alphabetic`.
pub uninterp spec fn unicode_alphabetic(c: char) -> bool;

/// Whether `c` belongs to one of the Unicode number categories `Nd`, `Nl`, `No`.
pub uninterp spec fn unicode_numeric(c: char) -> bool;

/// How the standard library's `Debug` prints a string: in double quotes,
/// with the characters that need it escaped.
pub uninterp spec fn debug_quoted(s: Seq<char>) -> Seq<char>;

/// `char::is_whitespace` is taken to decide the property `White_Space`; the
/// contract only gives that answer its name.
pub assume_specification[ char::is_whitespace ](c: char) -> (b: bool)
    ensures
        b == unicode_whitespace(c),
;

/// `char::is_alphabetic` is taken to decide the property `Alphabetic`; the
/// contract only gives that answer its name.
pub assume_specification[ char::is_alphabetic ](c: char) -> (b: bool)
    ensures
        b == unicode_alphabetic(c),
;

/// `char::is_numeric` is taken to decide membership in the number
/// categories; the contract only gives that answer its name.
pub assume_specification[ char::is_numeric ](c: char) -> (b: bool)
    ensures
        b == unicode_numeric(c),
;

/// `char::is_alphanumeric` is documented to hold exactly of the characters
/// of which `is_alphabetic` or `is_numeric` holds.
pub assume_specification[ char::is_alphanumeric ](c: char) -> (b: bool)
    ensures
        b == (unicode_alphabetic(c) || unicode_numeric(c)),
;

/// `String::push` is documented to append the given character to the end of
/// the string.
pub assume_specification[ String::push ](s: &mut String, ch: char)
    ensures
        final(s)@ == old(s)@.push(ch),
;

/// Formats `s` with the standard library's `Debug` for `str`. Assumed: the
/// output depends on the characters of `s` alone.
#[verifier::external_body]
pub(crate) fn debug_quote(s: &str) -> (r: String)
    ensures
        r@ == debug_quoted(s@),
{
    format!("{:?}", s)
}

/// The character that stands for a decimal digit.
pub open spec fn digit_char(d: nat) -> char
    recommends
        d < 10,
{
    if d == 0 {
        '0'
    } else if d == 1 {
        '1'
    } else if d == 2 {
        '2'
    } else if d == 3 {
        '3'
    } else if d == 4 {
        '4'
    } else if d == 5 {
        '5'
    } else if d == 6 {
        '6'
    } else if d == 7 {
        '7'
    } else if d == 8 {
        '8'
    } else {
        '9'
    }
}

/// The decimal numeral of `n`, most significant digit first, without
/// leading zeros.
pub open spec fn decimal(n: nat) -> Seq<char>
    decreases n,
{
    if n < 10 {
        seq![digit_char(n)]
    } else {
        decimal(n / 10).push(digit_char(n % 10))
    }
}

fn digit(d: usize) -> (c: char)
    requires
        d < 10,
    ensures
        c == digit_char(d as nat),
{
    if d == 0 {
        '0'
    } else if d == 1 {
        '1'
    } else if d == 2 {
        '2'
    } else if d == 3 {
        '3'
    } else if d == 4 {
        '4'
    } else if d == 5 {
        '5'
    } else if d == 6 {
        '6'
    } else if d == 7 {
        '7'
    } else if d == 8 {
        '8'
    } else {
        '9'
    }
}

/// Appends the decimal numeral of `n` to `out`.
pub fn push_decimal(out: &mut String, n: usize)
    ensures
        final(out)@ == old(out)@ + decimal(n as nat),
    decreases n,
{
    if n < 10 {
        out.push(digit(n));
        assert(out@ =~= old(out)@ + decimal(n as nat));
    } else {
        push_decimal(out, n / 10);
        out.push(digit(n % 10));
        assert(out@ =~= old(out)@ + decimal(n as nat));
    }
}

/// The decimal numeral of `n` as a string.
pub fn decimal_string(n: usize) -> (r: String)
    ensures
        r@ == decimal(n as nat),
{
    let mut out = String::new();
    push_decimal(&mut out, n);
    assert(out@ =~= decimal(n as nat));
    out
}

/// The text `prefix`, then `inner`, then `suffix`.
pub fn enclose(prefix: &str, inner: &str, suffix: &str) -> (r: String)
    ensures
        r@ == prefix@ + inner@ + suffix@,
{
    let mut out = String::from_str(prefix);
    out.append(inner);
    out.append(suffix);
    out
}

} // verus!

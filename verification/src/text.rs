//! Building strings: appending characters and decimal numbers.
use vstd::prelude::*;

verus! {

/// Appends one character to a string.
///
/// Calls `String::push` of std, which appends `c` to the end of `s`.
#[verifier::external_body]
pub(crate) fn push_char(s: &mut String, c: char)
    ensures
        final(s)@ == old(s)@.push(c),
{
    s.push(c);
}

/// A Unicode scalar value: a code point that is not a surrogate.
pub open spec fn is_scalar(n: nat) -> bool {
    n <= 0x10FFFF && !(0xD800 <= n && n <= 0xDFFF)
}

/// The character with the given code, where the code is a Unicode scalar
/// value.
///
/// Calls `char::from_u32` of std, which returns the character for a scalar
/// value and `None` for any other code.
#[verifier::external_body]
pub(crate) fn char_from_code(code: u32) -> (r: Option<char>)
    ensures
        is_scalar(code as nat) ==> r == Some(code as char),
        !is_scalar(code as nat) ==> r is None,
{
    char::from_u32(code)
}

/// The characters that `char::to_uppercase` of std yields for `c`: its
/// Unicode uppercase mapping, or `c` itself where it has none.
pub uninterp spec fn uppercase_of(c: char) -> Seq<char>;

/// The uppercase form of an ASCII lowercase letter; any other character
/// maps to itself.
pub open spec fn ascii_upper(c: char) -> char {
    if 97 <= c as u32 <= 122 {
        ((c as u32) - 32) as char
    } else {
        c
    }
}

/// Appends the uppercase mapping of `c` to `s`.
///
/// Calls `char::to_uppercase` of std and appends each character it yields.
/// The mapping of a non-ASCII character comes from Unicode's tables and is
/// only named here (`uppercase_of`); for an ASCII character std documents
/// the ASCII uppercase letter, or the character itself where it is not a
/// lowercase letter.
#[verifier::external_body]
pub(crate) fn push_uppercase(s: &mut String, c: char)
    ensures
        final(s)@ == old(s)@ + uppercase_of(c),
        (c as u32) < 128 ==> final(s)@ == old(s)@.push(ascii_upper(c)),
{
    s.extend(c.to_uppercase());
}

/// The ASCII digit for `d`.
pub open spec fn digit_char(d: nat) -> char {
    if d == 0 {
        '0'
    } else if d == 1 {
        '1'
    } else if d == 2 {
        '2'
    } else if d == 3 {
        '3'
    } else if d == 4 {
        '4'
    } else if d == 5 {
        '5'
    } else if d == 6 {
        '6'
    } else if d == 7 {
        '7'
    } else if d == 8 {
        '8'
    } else {
        '9'
    }
}

/// Decimal rendering of `n`, without leading zeros.
pub open spec fn decimal(n: nat) -> Seq<char>
    decreases n,
{
    if n < 10 {
        seq![digit_char(n)]
    } else {
        decimal(n / 10).push(digit_char(n % 10))
    }
}

fn digit(d: u64) -> (c: char)
    requires
        d < 10,
    ensures
        c == digit_char(d as nat),
{
    if d == 0 {
        '0'
    } else if d == 1 {
        '1'
    } else if d == 2 {
        '2'
    } else if d == 3 {
        '3'
    } else if d == 4 {
        '4'
    } else if d == 5 {
        '5'
    } else if d == 6 {
        '6'
    } else if d == 7 {
        '7'
    } else if d == 8 {
        '8'
    } else {
        '9'
    }
}

/// Appends the decimal rendering of `n` to `s`.
pub fn push_decimal(s: &mut String, n: u64)
    ensures
        final(s)@ == old(s)@ + decimal(n as nat),
    decreases n,
{
    if n < 10 {
        push_char(s, digit(n));
    } else {
        push_decimal(s, n / 10);
        push_char(s, digit(n % 10));
    }
}

/// Decimal rendering of `n`.
pub fn u64_to_decimal(n: u64) -> (r: String)
    ensures
        r@ == decimal(n as nat),
{
    let mut s = String::new();
    push_decimal(&mut s, n);
    proof {
        assert(s@ =~= decimal(n as nat));
    }
    s
}

} // verus!

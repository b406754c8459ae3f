//! Text helpers: identifier normalisation and decimal numbers.

use vstd::prelude::*;
use vstd::string::*;

verus! {

/// The ASCII lower-case form of a character; others are unchanged.
pub open spec fn lower_char(c: char) -> char {
    if 'A' <= c && c <= 'Z' {
        ((c as u8) + 32) as char
    } else {
        c
    }
}

/// A text with each ASCII capital replaced by its lower-case letter.
pub open spec fn lowercase(s: Seq<char>) -> Seq<char> {
    Seq::new(s.len(), |i: int| lower_char(s[i]))
}

/// A text without the pair of double quotes that surrounds it, if one does.
pub open spec fn strip_quotes(s: Seq<char>) -> Seq<char> {
    if s.len() >= 2 && s[0] == '"' && s[s.len() - 1] == '"' {
        s.subrange(1, s.len() - 1)
    } else {
        s
    }
}

/// The normal form under which identifiers are compared: surrounding quotes
/// removed, ASCII letters in lower case.
pub open spec fn normalized(s: Seq<char>) -> Seq<char> {
    lowercase(strip_quotes(s))
}

/// Whether a character is a decimal digit.
pub open spec fn is_digit(c: char) -> bool {
    '0' <= c && c <= '9'
}

/// The number that a sequence of decimal digits writes.
pub open spec fn decimal_value(digits: Seq<char>) -> int
    decreases digits.len(),
{
    if digits.len() == 0 {
        0
    } else {
        10 * decimal_value(digits.drop_last()) + (digits.last() as int - '0' as int)
    }
}

/// The 64-bit integer that a text writes: an optional sign, then one or more
/// decimal digits and nothing else, with a value in range.
pub open spec fn parsed_i64(s: Seq<char>) -> Option<i64> {
    let signed = s.len() > 0 && (s[0] == '-' || s[0] == '+');
    let digits = if signed {
        s.subrange(1, s.len() as int)
    } else {
        s
    };
    let magnitude = decimal_value(digits);
    let value = if s.len() > 0 && s[0] == '-' {
        -magnitude
    } else {
        magnitude
    };
    if digits.len() > 0 && (forall|i: int| 0 <= i < digits.len() ==> is_digit(#[trigger] digits[i]))
        && i64::MIN <= value <= i64::MAX {
        Some(value as i64)
    } else {
        None
    }
}

/// The decimal digits of a natural number, without leading zeros.
pub open spec fn decimal_digits(n: nat) -> Seq<char>
    decreases n,
{
    if n < 10 {
        seq![('0' as u8 + n as u8) as char]
    } else {
        decimal_digits(n / 10).push(('0' as u8 + (n % 10) as u8) as char)
    }
}

/// `str::to_ascii_lowercase`: a copy of the text in which the ASCII letters
/// `A` to `Z` are replaced by `a` to `z` and every other character is kept.
#[verifier::external_body]
fn ascii_lowercase(s: &str) -> (lower: String)
    ensures
        lower@ == lowercase(s@),
{
    s.to_ascii_lowercase()
}

/// `str::parse::<i64>`: the integer written by an optional `+` or `-` and
/// decimal digits; no value where the text has another form, holds no digit,
/// or writes a number outside the 64-bit range.
#[verifier::external_body]
pub(crate) fn parse_i64(s: &str) -> (value: Option<i64>)
    ensures
        value == parsed_i64(s@),
{
    s.parse::<i64>().ok()
}

/// `usize::to_string`: the number in decimal digits, without sign or
/// leading zeros.
#[verifier::external_body]
pub(crate) fn decimal_string(n: usize) -> (digits: String)
    ensures
        digits@ == decimal_digits(n as nat),
{
    n.to_string()
}

/// Brings an identifier into the form under which names are compared.
pub fn normalize_ident(ident: &str) -> (normal: String)
    ensures
        normal@ == normalized(ident@),
{
    let len = ident.unicode_len();
    if len >= 2 && ident.get_char(0) == '"' && ident.get_char(len - 1) == '"' {
        ascii_lowercase(ident.substring_char(1, len - 1))
    } else {
        ascii_lowercase(ident)
    }
}

} // verus!

//! Text forms of plain values.
//!
//! Decimal numbers are written here and proved, and what counts as the
//! decimal form of a number is stated here. Reading numbers and text out
//! of bytes, and the other forms, are taken from the standard library and
//! from the crates that define them; those functions are believed, not
//! proved, and say in their contracts what their documentation and sources
//! show.

use vstd::prelude::*;
use vstd::arithmetic::power::pow;
use vstd::utf8::{decode_utf8, encode_utf8, encode_utf8_decode_utf8, encode_utf8_valid_utf8, valid_utf8};
use validator::ValidateEmail;

verus! {

/// The character of the decimal digit `d`.
pub open spec fn digit_char(d: int) -> char {
    seq!['0', '1', '2', '3', '4', '5', '6', '7', '8', '9'][d]
}

/// The decimal form of `n`, without leading zeros.
pub open spec fn decimal(n: nat) -> Seq<char>
    decreases n,
{
    if n < 10 {
        seq![digit_char(n as int)]
    } else {
        decimal(n / 10).push(digit_char((n % 10) as int))
    }
}

/// The text of the decimal digit `d`.
fn digit_text(d: usize) -> (text: &'static str)
    requires
        d < 10,
    ensures
        text@ == seq![digit_char(d as int)],
{
    proof {
        reveal_strlit("0");
        reveal_strlit("1");
        reveal_strlit("2");
        reveal_strlit("3");
        reveal_strlit("4");
        reveal_strlit("5");
        reveal_strlit("6");
        reveal_strlit("7");
        reveal_strlit("8");
        reveal_strlit("9");
    }
    let text = if d == 0 {
        "0"
    } else if d == 1 {
        "1"
    } else if d == 2 {
        "2"
    } else if d == 3 {
        "3"
    } else if d == 4 {
        "4"
    } else if d == 5 {
        "5"
    } else if d == 6 {
        "6"
    } else if d == 7 {
        "7"
    } else if d == 8 {
        "8"
    } else {
        "9"
    };
    assert(text@ =~= seq![digit_char(d as int)]);
    text
}

/// Writes `n` in decimal, without leading zeros.
pub fn to_decimal(n: usize) -> (text: String)
    ensures
        text@ == decimal(n as nat),
    decreases n,
{
    if n < 10 {
        digit_text(n).to_owned()
    } else {
        let mut text = to_decimal(n / 10);
        text.append(digit_text(n % 10));
        assert(text@ =~= decimal(n as nat));
        text
    }
}

/// The decimal form of `i`, with a minus sign where it is negative.
pub open spec fn signed_decimal(i: int) -> Seq<char> {
    if i < 0 {
        "-"@ + decimal((-i) as nat)
    } else {
        decimal(i as nat)
    }
}

/// Writes `i` in decimal, with a minus sign where it is negative.
pub fn to_signed_decimal(i: i32) -> (text: String)
    ensures
        text@ == signed_decimal(i as int),
{
    if i < 0 {
        let magnitude: i64 = -(i as i64);
        let mut text = "-".to_owned();
        text.append(to_decimal(magnitude as usize).as_str());
        text
    } else {
        to_decimal(i as usize)
    }
}

/// The character of the hexadecimal digit `d`, in lower case.
pub open spec fn hex_char(d: int) -> char {
    seq!['0', '1', '2', '3', '4', '5', '6', '7', '8', '9', 'a', 'b', 'c', 'd', 'e', 'f'][d]
}

/// Hexadecimal digit number `i` of `id`, counted from the most
/// significant of its 32 digits.
pub open spec fn hex_digit(id: u128, i: int) -> int {
    (id as int / pow(16, (31 - i) as nat)) % 16
}

/// The number of hyphens before place `p` of the text of an identifier.
pub open spec fn hyphens_before(p: int) -> int {
    if p < 8 {
        0
    } else if p < 13 {
        1
    } else if p < 18 {
        2
    } else if p < 23 {
        3
    } else {
        4
    }
}

/// The text of an identifier: its 32 hexadecimal digits in lower case, in
/// groups of 8, 4, 4, 4 and 12 with a hyphen between them.
pub open spec fn uuid_text(id: u128) -> Seq<char> {
    Seq::new(
        36,
        |p: int|
            if p == 8 || p == 13 || p == 18 || p == 23 {
                '-'
            } else {
                hex_char(hex_digit(id, p - hyphens_before(p)))
            },
    )
}

/// The JSON string that stands for `text`: quoted and escaped.
pub uninterp spec fn json_quoted(text: Seq<char>) -> Seq<char>;

/// An HTTP status code with its reason phrase.
pub uninterp spec fn status_line(code: u16) -> Seq<char>;

/// Whether `text` is an e-mail address.
pub uninterp spec fn email_accepted(text: Seq<char>) -> bool;

/// Whether `c` is one of the digits `0` to `9`.
pub open spec fn is_digit(c: char) -> bool {
    '0' <= c <= '9'
}

/// The number that the digits of `digits` write, read from the left.
pub open spec fn digits_value(digits: Seq<char>) -> int
    decreases digits.len(),
{
    if digits.len() == 0 {
        0
    } else {
        digits_value(digits.drop_last()) * 10 + (digits.last() as int - '0' as int)
    }
}

/// What follows the sign of `text`, if it starts with `+` or `-`; else all
/// of it.
pub open spec fn unsigned_part(text: Seq<char>) -> Seq<char> {
    if text.len() > 0 && (text[0] == '+' || text[0] == '-') {
        text.skip(1)
    } else {
        text
    }
}

/// The number that `text` writes: the digits' value, negated after a `-`.
pub open spec fn signed_value(text: Seq<char>) -> int {
    if text.len() > 0 && text[0] == '-' {
        -digits_value(unsigned_part(text))
    } else {
        digits_value(unsigned_part(text))
    }
}

/// The number that `text` is the decimal form of: an optional `+` or `-`,
/// then one or more digits and nothing else, for a number that a signed
/// integer of 64 bits holds. Any other text stands for no number.
pub open spec fn parsed_i64(text: Seq<char>) -> Option<i64> {
    let digits = unsigned_part(text);
    if digits.len() >= 1 && (forall|i: int| 0 <= i < digits.len() ==> is_digit(#[trigger] digits[i]))
        && i64::MIN <= signed_value(text) <= i64::MAX {
        Some(signed_value(text) as i64)
    } else {
        None
    }
}

/// Writes an identifier with `Uuid::from_u128` and the `Display` of the
/// `uuid` crate, which gives the hyphenated form in lower case.
#[verifier::external_body]
pub(crate) fn uuid_to_text(id: u128) -> (text: String)
    ensures
        text@ == uuid_text(id),
{
    uuid::Uuid::from_u128(id).to_string()
}

/// Quotes `text` with `serde_json::to_string`, which cannot fail on a
/// string written to memory.
#[verifier::external_body]
pub(crate) fn json_quote(text: &str) -> (quoted: Option<String>)
    ensures
        quoted is Some,
        quoted->0@ == json_quoted(text@),
{
    match serde_json::to_string(text) {
        Ok(quoted) => Some(quoted),
        Err(_) => None,
    }
}

/// Writes a status code with the `Display` of `http::StatusCode`, which
/// `StatusCode::from_u16` makes of every code from 100 to 999.
#[verifier::external_body]
pub(crate) fn status_to_text(code: u16) -> (text: Option<String>)
    ensures
        (text is Some) == (100 <= code <= 999),
        text matches Some(line) ==> line@ == status_line(code),
{
    match axum::http::StatusCode::from_u16(code) {
        Ok(status) => Some(status.to_string()),
        Err(_) => None,
    }
}

/// Asks `validate_email` of the `validator` crate whether `text` is an
/// e-mail address.
#[verifier::external_body]
pub(crate) fn is_email(text: &str) -> (accepted: bool)
    ensures
        accepted == email_accepted(text@),
{
    text.validate_email()
}

/// Reads a decimal number with `str::parse::<i64>`, which accepts an
/// optional sign followed by decimal digits alone and refuses what does not
/// fit.
#[verifier::external_body]
pub(crate) fn parse_i64(text: &str) -> (value: Option<i64>)
    ensures
        value == parsed_i64(text@),
{
    match text.parse::<i64>() {
        Ok(value) => Some(value),
        Err(_) => None,
    }
}

/// Reads bytes as text with `String::from_utf8`, which gives the text
/// whose UTF-8 encoding the bytes are and refuses bytes that are none.
#[verifier::external_body]
pub(crate) fn string_from_utf8(bytes: Vec<u8>) -> (text: Option<String>)
    ensures
        valid_utf8(bytes@) ==> text is Some,
        text matches Some(t) ==> encode_utf8(t@) == bytes@,
{
    match String::from_utf8(bytes) {
        Ok(text) => Some(text),
        Err(_) => None,
    }
}

/// The text that `bytes` encode in UTF-8, where they encode one.
pub open spec fn text_of(bytes: Seq<u8>) -> Option<Seq<char>> {
    if valid_utf8(bytes) {
        Some(decode_utf8(bytes))
    } else {
        None
    }
}

/// Reads `bytes` as text; gives nothing exactly where they are not the
/// UTF-8 encoding of a text.
pub fn bytes_to_text(bytes: Vec<u8>) -> (text: Option<String>)
    ensures
        match text {
            Some(t) => text_of(bytes@) == Some(t@),
            None => text_of(bytes@) is None,
        },
{
    let text = string_from_utf8(bytes);
    proof {
        if text is Some {
            encode_utf8_valid_utf8(text->0@);
            encode_utf8_decode_utf8(text->0@);
        }
    }
    text
}

/// The text that was written as bytes is read back from them.
pub proof fn lemma_text_of_its_bytes(text: Seq<char>)
    ensures
        text_of(encode_utf8(text)) == Some(text),
{
    encode_utf8_valid_utf8(text);
    encode_utf8_decode_utf8(text);
}

} // verus!

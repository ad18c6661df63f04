//! Numbers and bytes as text: what status details and diagnostics are made of.

use vstd::prelude::*;
use vstd::utf8::{decode_utf8, encode_utf8, valid_utf8};

verus! {

/// The hexadecimal digit that stands for `digit`; below ten, the decimal one.
pub open spec fn digit_char(digit: nat) -> char {
    if digit == 0 {
        '0'
    } else if digit == 1 {
        '1'
    } else if digit == 2 {
        '2'
    } else if digit == 3 {
        '3'
    } else if digit == 4 {
        '4'
    } else if digit == 5 {
        '5'
    } else if digit == 6 {
        '6'
    } else if digit == 7 {
        '7'
    } else if digit == 8 {
        '8'
    } else if digit == 9 {
        '9'
    } else if digit == 10 {
        'a'
    } else if digit == 11 {
        'b'
    } else if digit == 12 {
        'c'
    } else if digit == 13 {
        'd'
    } else if digit == 14 {
        'e'
    } else {
        'f'
    }
}

/// `value` in decimal, without leading zeros.
pub open spec fn decimal_text(value: nat) -> Seq<char>
    decreases value,
{
    if value < 10 {
        seq![digit_char(value)]
    } else {
        decimal_text(value / 10).push(digit_char(value % 10))
    }
}

/// The last `width` hexadecimal digits of `value`.
pub open spec fn hex_digits(value: nat, width: nat) -> Seq<char>
    decreases width,
{
    if width == 0 {
        Seq::empty()
    } else {
        hex_digits(value / 16, (width - 1) as nat).push(digit_char(value % 16))
    }
}

/// A 64-bit id the way diagnostics show it: `0x` and sixteen digits.
pub open spec fn hex_id_text(id: u64) -> Seq<char> {
    "0x"@ + hex_digits(id as nat, 16)
}

fn digit_str(digit: u8) -> (text: &'static str)
    requires
        digit < 16,
    ensures
        text@ == seq![digit_char(digit as nat)],
{
    proof {
        reveal_strlit("0");
        reveal_strlit("1");
        reveal_strlit("2");
        reveal_strlit("3");
        reveal_strlit("4");
        reveal_strlit("5");
        reveal_strlit("6");
        reveal_strlit("7");
        reveal_strlit("8");
        reveal_strlit("9");
        reveal_strlit("a");
        reveal_strlit("b");
        reveal_strlit("c");
        reveal_strlit("d");
        reveal_strlit("e");
        reveal_strlit("f");
    }
    match digit {
        0 => "0",
        1 => "1",
        2 => "2",
        3 => "3",
        4 => "4",
        5 => "5",
        6 => "6",
        7 => "7",
        8 => "8",
        9 => "9",
        10 => "a",
        11 => "b",
        12 => "c",
        13 => "d",
        14 => "e",
        _ => "f",
    }
}

/// Writes `value` in decimal.
pub fn decimal(value: u64) -> (text: String)
    ensures
        text@ == decimal_text(value as nat),
    decreases value,
{
    if value < 10 {
        String::from_str(digit_str(value as u8))
    } else {
        let mut text = decimal(value / 10);
        text.append(digit_str((value % 10) as u8));
        proof {
            assert(text@ =~= decimal_text((value / 10) as nat).push(
                digit_char((value % 10) as nat),
            ));
        }
        text
    }
}

fn hex(value: u64, width: u8) -> (text: String)
    ensures
        text@ == hex_digits(value as nat, width as nat),
    decreases width,
{
    if width == 0 {
        String::new()
    } else {
        let mut text = hex(value / 16, width - 1);
        text.append(digit_str((value % 16) as u8));
        proof {
            assert(text@ =~= hex_digits((value / 16) as nat, (width - 1) as nat).push(
                digit_char((value % 16) as nat),
            ));
        }
        text
    }
}

/// Writes `id` as `0x` and sixteen hexadecimal digits.
pub fn hex_id(id: u64) -> (text: String)
    ensures
        text@ == hex_id_text(id),
{
    let mut text = String::from_str("0x");
    text.append(hex(id, 16).as_str());
    text
}

/// Whether two strings hold the same characters.
pub fn same_text(a: &str, b: &str) -> (same: bool)
    ensures
        same == (a@ == b@),
{
    String::from_str(a) == String::from_str(b)
}

/// What `String::from_utf8_lossy` makes of bytes that are not valid UTF-8.
pub uninterp spec fn utf8_repaired(bytes: Seq<u8>) -> Seq<char>;

/// The text that `bytes` are read as: what they encode, or, where they are not
/// valid UTF-8, their repaired form.
pub open spec fn lossy_text(bytes: Seq<u8>) -> Seq<char> {
    if valid_utf8(bytes) {
        decode_utf8(bytes)
    } else {
        utf8_repaired(bytes)
    }
}

/// Calls `String::from_utf8_lossy`, and takes its text as an owned `String`.
///
/// Claimed of it, not proved: bytes that are valid UTF-8 come out as exactly
/// the characters they encode, and what any other bytes are repaired to
/// depends on the bytes alone.
#[verifier::external_body]
pub(crate) fn utf8_lossy(bytes: &[u8]) -> (text: String)
    ensures
        valid_utf8(bytes@) ==> text@ == decode_utf8(bytes@),
        !valid_utf8(bytes@) ==> text@ == utf8_repaired(bytes@),
{
    String::from_utf8_lossy(bytes).into_owned()
}

/// Text survives being sent as UTF-8.
pub proof fn text_survives_utf8(text: Seq<char>)
    ensures
        lossy_text(encode_utf8(text)) == text,
{
    vstd::utf8::encode_utf8_valid_utf8(text);
    vstd::utf8::encode_utf8_decode_utf8(text);
}

/// The UTF-8 bytes of `text`.
pub fn utf8_bytes(text: &str) -> (bytes: Vec<u8>)
    ensures
        bytes@ == encode_utf8(text@),
{
    let mut bytes: Vec<u8> = Vec::new();
    bytes.extend_from_slice(text.as_bytes());
    bytes
}

/// A decimal number is written digit by digit, the last digit last.
pub proof fn decimals_are_written_out(value: nat, digit: nat)
    requires
        digit < 10,
    ensures
        decimal_text(digit) == seq![(48 + digit) as char],
        value > 0 ==> decimal_text(10 * value + digit) == decimal_text(value).push(
            (48 + digit) as char,
        ),
{
}

/// A hexadecimal number is written digit by digit, the last digit last, and an
/// id has sixteen of them behind `0x`.
pub proof fn ids_are_written_out(value: nat, width: nat, digit: nat, id: u64)
    requires
        digit < 16,
    ensures
        hex_digits(value, 0).len() == 0,
        hex_digits(16 * value + digit, width + 1) == hex_digits(value, width).push(
            if digit < 10 {
                (48 + digit) as char
            } else {
                (87 + digit) as char
            },
        ),
        hex_id_text(id) == seq!['0', 'x'] + hex_digits(id as nat, 16),
{
    reveal_strlit("0x");
    assert("0x"@ =~= seq!['0', 'x']);
}

/// Bytes that are valid UTF-8 are read as what they encode; only others are
/// repaired.
pub proof fn bytes_are_read_as_text(bytes: Seq<u8>)
    ensures
        valid_utf8(bytes) ==> lossy_text(bytes) == decode_utf8(bytes),
        !valid_utf8(bytes) ==> lossy_text(bytes) == utf8_repaired(bytes),
{
}

} // verus!

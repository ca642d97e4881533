//! Hexadecimal text for byte sequences: two lowercase digits for every byte,
//! and a lenient reader that takes text two bytes at a time and passes over
//! what is no byte.

use vstd::prelude::*;
use vstd::string::StringExecFns;
use vstd::utf8::{encode_utf8, is_ascii_chars, is_ascii_chars_encode_utf8};

verus! {

/// The lowercase hexadecimal digit that stands for a value below sixteen.
pub open spec fn hex_digit(value: int) -> char
    recommends
        0 <= value < 16,
{
    if value < 10 {
        (value + '0' as int) as char
    } else {
        (value - 10 + 'a' as int) as char
    }
}

/// The text of a byte sequence: for every byte its high digit, then its low
/// digit, in the order of the bytes.
pub open spec fn hex_encode(bytes: Seq<u8>) -> Seq<char> {
    Seq::new(
        2 * bytes.len(),
        |i: int|
            if i % 2 == 0 {
                hex_digit(bytes[i / 2] as int / 16)
            } else {
                hex_digit(bytes[i / 2] as int % 16)
            },
    )
}

/// The value of a text byte read as one hexadecimal digit, in either case.
pub open spec fn digit_value(byte: u8) -> Option<u8> {
    if '0' as u8 <= byte <= '9' as u8 {
        Some((byte - '0' as u8) as u8)
    } else if 'a' as u8 <= byte <= 'f' as u8 {
        Some((byte - 'a' as u8 + 10) as u8)
    } else if 'A' as u8 <= byte <= 'F' as u8 {
        Some((byte - 'A' as u8 + 10) as u8)
    } else {
        None
    }
}

/// The byte that two text bytes stand for, if they stand for one: both are
/// hexadecimal digits, the high one first. No sign, blank or other character
/// is part of a pair.
pub open spec fn pair_value(first: u8, second: u8) -> Option<u8> {
    match digit_value(first) {
        Some(high) => match digit_value(second) {
            Some(low) => Some((16 * high + low) as u8),
            None => None,
        },
        None => None,
    }
}

/// The bytes read from text bytes taken two at a time from the front: a pair
/// that stands for a byte gives that byte, any other pair gives nothing, and
/// neither does a single byte left at the end.
pub open spec fn hex_decode(text: Seq<u8>) -> Seq<u8>
    decreases text.len(),
{
    if text.len() < 2 {
        Seq::empty()
    } else {
        let rest = hex_decode(text.skip(2));
        match pair_value(text[0], text[1]) {
            Some(byte) => seq![byte] + rest,
            None => rest,
        }
    }
}

/// Reads one text byte as a hexadecimal digit.
fn digit_of(byte: u8) -> (value: Option<u8>)
    ensures
        value == digit_value(byte),
{
    if '0' as u8 <= byte && byte <= '9' as u8 {
        Some(byte - '0' as u8)
    } else if 'a' as u8 <= byte && byte <= 'f' as u8 {
        Some(byte - 'a' as u8 + 10)
    } else if 'A' as u8 <= byte && byte <= 'F' as u8 {
        Some(byte - 'A' as u8 + 10)
    } else {
        None
    }
}

/// Reads two text bytes as one byte.
fn decode_pair(first: u8, second: u8) -> (byte: Option<u8>)
    ensures
        byte == pair_value(first, second),
{
    match digit_of(first) {
        Some(high) => match digit_of(second) {
            Some(low) => Some(16 * high + low),
            None => None,
        },
        None => None,
    }
}

/// Reads bytes from hexadecimal text.
///
/// The text is taken two bytes of its UTF-8 form at a time. A pair of
/// hexadecimal digits, in either case, gives one byte. Every other pair is
/// passed over without an error, a digit beside a sign or a blank too, and so
/// is a single byte left at the end.
pub fn from_hexdec_string(text: &str) -> (bytes: Vec<u8>)
    ensures
        bytes@ == hex_decode(encode_utf8(text@)),
{
    let raw = text.as_bytes();
    let len: usize = raw.len();
    let mut bytes: Vec<u8> = Vec::new();
    let mut at: usize = 0;
    proof {
        assert(raw@.skip(0) =~= raw@);
    }
    while len - at >= 2
        invariant
            len == raw@.len(),
            at <= len,
            bytes@ + hex_decode(raw@.skip(at as int)) == hex_decode(raw@),
        decreases len - at,
    {
        proof {
            assert(raw@.skip(at as int).skip(2) =~= raw@.skip(at + 2));
        }
        match decode_pair(raw[at], raw[at + 1]) {
            Some(byte) => {
                bytes.push(byte);
            },
            None => {},
        }
        at += 2;
    }
    bytes
}

/// The one-character text of a hexadecimal digit.
fn digit_text(value: u8) -> (text: &'static str)
    requires
        value < 16,
    ensures
        text@ == seq![hex_digit(value as int)],
{
    proof {
        reveal_strlit("0");
        reveal_strlit("1");
        reveal_strlit("2");
        reveal_strlit("3");
        reveal_strlit("4");
        reveal_strlit("5");
        reveal_strlit("6");
        reveal_strlit("7");
        reveal_strlit("8");
        reveal_strlit("9");
        reveal_strlit("a");
        reveal_strlit("b");
        reveal_strlit("c");
        reveal_strlit("d");
        reveal_strlit("e");
        reveal_strlit("f");
    }
    let text: &'static str = match value {
        0 => "0",
        1 => "1",
        2 => "2",
        3 => "3",
        4 => "4",
        5 => "5",
        6 => "6",
        7 => "7",
        8 => "8",
        9 => "9",
        10 => "a",
        11 => "b",
        12 => "c",
        13 => "d",
        14 => "e",
        _ => "f",
    };
    assert(text@ =~= seq![hex_digit(value as int)]);
    text
}

/// Writes a byte sequence as hexadecimal text.
///
/// Every byte gives exactly two lowercase digits, the high one first, padded
/// with a zero where the byte is below sixteen; the pairs stand in the order
/// of the bytes. The text is ASCII, so it is as long in bytes as in
/// characters, and [`from_hexdec_string`] reads the bytes back from it.
pub fn to_hexdec_string(bytes: &[u8]) -> (text: String)
    ensures
        text@ == hex_encode(bytes@),
        text@.len() == 2 * bytes@.len(),
        is_ascii_chars(text@),
        encode_utf8(text@).len() == 2 * bytes@.len(),
        hex_decode(encode_utf8(text@)) == bytes@,
{
    let mut text: String = String::new();
    let mut at: usize = 0;
    while at < bytes.len()
        invariant
            at <= bytes@.len(),
            text@.len() == 2 * at,
            forall|k: int| 0 <= k < 2 * at ==> text@[k] == hex_encode(bytes@)[k],
        decreases bytes@.len() - at,
    {
        let byte: u8 = bytes[at];
        text.append(digit_text(byte / 16));
        text.append(digit_text(byte % 16));
        at += 1;
    }
    proof {
        assert(text@ =~= hex_encode(bytes@));
        lemma_hex_encode_length(bytes@);
        lemma_decode_undoes_encode(bytes@);
    }
    text
}

/// The text of a byte sequence has two characters for every byte. All of them
/// are ASCII, so its UTF-8 form has two bytes for every byte as well.
pub proof fn lemma_hex_encode_length(bytes: Seq<u8>)
    ensures
        hex_encode(bytes).len() == 2 * bytes.len(),
        is_ascii_chars(hex_encode(bytes)),
        encode_utf8(hex_encode(bytes)).len() == 2 * bytes.len(),
{
    is_ascii_chars_encode_utf8(hex_encode(bytes));
}

/// Text bytes that agree with the text of `bytes` at every position are read
/// back as `bytes`.
proof fn lemma_decode_of_digits(text: Seq<u8>, bytes: Seq<u8>)
    requires
        text.len() == 2 * bytes.len(),
        forall|i: int| 0 <= i < text.len() ==> text[i] == hex_encode(bytes)[i] as u8,
    ensures
        hex_decode(text) == bytes,
    decreases bytes.len(),
{
    if bytes.len() == 0 {
        assert(hex_decode(text) =~= bytes);
    } else {
        let rest = bytes.skip(1);
        assert forall|i: int| 0 <= i < text.skip(2).len() implies text.skip(2)[i] == hex_encode(
            rest,
        )[i] as u8 by {
            assert(text.skip(2)[i] == text[i + 2]);
            assert(rest[i / 2] == bytes[(i + 2) / 2]);
        }
        lemma_decode_of_digits(text.skip(2), rest);
        assert(text[0] == hex_encode(bytes)[0] as u8);
        assert(text[1] == hex_encode(bytes)[1] as u8);
        assert(pair_value(text[0], text[1]) == Some(bytes[0]));
        assert(seq![bytes[0]] + rest =~= bytes);
    }
}

/// Reading the text of a byte sequence gives the sequence back.
pub proof fn lemma_decode_undoes_encode(bytes: Seq<u8>)
    ensures
        hex_decode(encode_utf8(hex_encode(bytes))) == bytes,
{
    is_ascii_chars_encode_utf8(hex_encode(bytes));
    lemma_decode_of_digits(encode_utf8(hex_encode(bytes)), bytes);
}

} // verus!

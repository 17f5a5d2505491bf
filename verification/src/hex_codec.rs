//! Hexadecimal text: the form in which keys are named, stored and sent.
//!
//! Text is modelled as a sequence of ASCII codes. Encoding always writes
//! lower-case digits; decoding accepts both cases.

use vstd::prelude::*;

verus! {

/// The opaque error of `hex::decode`.
#[verifier::external_type_specification]
#[verifier::external_body]
pub struct ExFromHexError(hex::FromHexError);

/// ASCII code of the lower-case hexadecimal digit for a value below 16.
pub open spec fn hex_digit(value: int) -> u8 {
    if value < 10 {
        (48 + value) as u8
    } else {
        (87 + value) as u8
    }
}

/// Value of a hexadecimal digit given by its ASCII code, in either case.
pub open spec fn hex_value(code: u8) -> Option<int> {
    if 48 <= code <= 57 {
        Some(code - 48)
    } else if 97 <= code <= 102 {
        Some(code - 87)
    } else if 65 <= code <= 70 {
        Some(code - 55)
    } else {
        None
    }
}

/// The hexadecimal text of `data`: two digits per byte, high nibble first.
pub open spec fn hex_text(data: Seq<u8>) -> Seq<u8> {
    Seq::new(
        2 * data.len(),
        |i: int|
            if i % 2 == 0 {
                hex_digit(data[i / 2] as int / 16)
            } else {
                hex_digit(data[i / 2] as int % 16)
            },
    )
}

/// The characters with the given ASCII codes.
pub open spec fn ascii_chars(codes: Seq<u8>) -> Seq<char> {
    Seq::new(codes.len(), |i: int| codes[i] as char)
}

/// Whether `text` is an even number of hexadecimal digits.
pub open spec fn is_hex_text(text: Seq<u8>) -> bool {
    &&& text.len() % 2 == 0
    &&& forall|i: int| 0 <= i < text.len() ==> (#[trigger] hex_value(text[i])) is Some
}

/// The bytes that hexadecimal `text` stands for.
pub open spec fn hex_bytes(text: Seq<u8>) -> Seq<u8> {
    Seq::new(
        text.len() / 2,
        |i: int| (16 * hex_value(text[2 * i])->0 + hex_value(text[2 * i + 1])->0) as u8,
    )
}

/// Calls `hex::encode`, which writes each byte as two lower-case digits taken
/// from the table `0123456789abcdef`, high nibble first.
#[verifier::external_body]
pub(crate) fn hex_encode(data: &[u8]) -> (text: String)
    ensures
        text@ == ascii_chars(hex_text(data@)),
{
    hex::encode(data)
}

/// Calls `hex::decode`, which fails on text of odd length and on any byte that
/// is not a digit `0-9`, `a-f` or `A-F`, and otherwise joins each pair of
/// digits into one byte.
#[verifier::external_body]
pub(crate) fn hex_decode(text: &[u8]) -> (decoded: Result<Vec<u8>, hex::FromHexError>)
    ensures
        decoded is Ok <==> is_hex_text(text@),
        decoded matches Ok(bytes) ==> bytes@ == hex_bytes(text@),
{
    hex::decode(text)
}

/// Whether `code` is the ASCII code of a hexadecimal digit above 7.
pub fn is_high_digit(code: u8) -> (high: bool)
    ensures
        high == (hex_value(code) matches Some(value) && value > 7),
{
    code == 56 || code == 57 || (97 <= code && code <= 102) || (65 <= code && code <= 70)
}

/// Every digit that encoding writes is read back as the value it was written
/// for.
pub proof fn lemma_hex_digit_value(value: int)
    requires
        0 <= value < 16,
    ensures
        hex_value(hex_digit(value)) == Some(value),
        hex_digit(value) < 128,
{
}

/// Decoding the encoding of `data` gives `data` back.
pub proof fn lemma_hex_round_trip(data: Seq<u8>)
    ensures
        is_hex_text(hex_text(data)),
        hex_bytes(hex_text(data)) == data,
{
    let text = hex_text(data);
    assert forall|i: int| 0 <= i < text.len() implies (#[trigger] hex_value(text[i])) is Some by {
        lemma_hex_digit_value(data[i / 2] as int / 16);
        lemma_hex_digit_value(data[i / 2] as int % 16);
    }
    assert forall|i: int| 0 <= i < data.len() implies hex_bytes(text)[i] == data[i] by {
        lemma_hex_digit_value(data[i] as int / 16);
        lemma_hex_digit_value(data[i] as int % 16);
        assert(text[2 * i] == hex_digit(data[(2 * i) / 2] as int / 16));
        assert(text[2 * i + 1] == hex_digit(data[(2 * i + 1) / 2] as int % 16));
    }
    assert(hex_bytes(text) =~= data);
}

/// Encoded text is ASCII, so as a string it occupies exactly the bytes of
/// `hex_text`.
pub proof fn lemma_hex_string_bytes(data: Seq<u8>)
    ensures
        vstd::utf8::is_ascii_chars(ascii_chars(hex_text(data))),
        vstd::utf8::encode_utf8(ascii_chars(hex_text(data))) == hex_text(data),
{
    let text = hex_text(data);
    assert forall|i: int| 0 <= i < text.len() implies #[trigger] text[i] < 128 by {
        lemma_hex_digit_value(data[i / 2] as int / 16);
        lemma_hex_digit_value(data[i / 2] as int % 16);
    }
    lemma_ascii_chars_bytes(text);
}

/// A string of ASCII characters is stored as exactly their codes.
pub proof fn lemma_ascii_chars_bytes(codes: Seq<u8>)
    ensures
        (forall|i: int| 0 <= i < codes.len() ==> #[trigger] codes[i] < 128) ==> {
            &&& vstd::utf8::is_ascii_chars(ascii_chars(codes))
            &&& vstd::utf8::encode_utf8(ascii_chars(codes)) == codes
        },
{
    if forall|i: int| 0 <= i < codes.len() ==> #[trigger] codes[i] < 128 {
        let chars = ascii_chars(codes);
        assert forall|i: int| 0 <= i < chars.len() implies '\0' <= #[trigger] chars[i]
            <= '\u{7f}' by {
            assert(codes[i] < 128);
        }
        vstd::utf8::is_ascii_chars_encode_utf8(chars);
        assert forall|i: int| 0 <= i < codes.len() implies vstd::utf8::encode_utf8(chars)[i]
            == codes[i] by {
            assert(codes[i] < 128);
            assert(chars[i] as u8 == codes[i]);
        }
        assert(vstd::utf8::encode_utf8(chars) =~= codes);
    }
}

} // verus!

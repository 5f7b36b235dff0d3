//! Hexadecimal text, as the `hex` crate reads and writes it.

use crate::error::LheError;
use vstd::prelude::*;
use vstd::utf8::{encode_utf8, is_ascii_chars, is_ascii_chars_encode_utf8};

verus! {

/// The sixteen lowercase hexadecimal digits, by value.
pub open spec fn hex_digits() -> Seq<char> {
    seq!['0', '1', '2', '3', '4', '5', '6', '7', '8', '9', 'a', 'b', 'c', 'd', 'e', 'f']
}

/// The lowercase hexadecimal text of `bytes`: two digits per byte, the high
/// half first.
pub open spec fn hex_text(bytes: Seq<u8>) -> Seq<char> {
    Seq::new(
        2 * bytes.len(),
        |i: int|
            if i % 2 == 0 {
                hex_digits()[bytes[i / 2] as int / 16]
            } else {
                hex_digits()[bytes[i / 2] as int % 16]
            },
    )
}

/// The value of one hexadecimal digit given as an ASCII byte; both cases are
/// digits. `None` for any other byte.
pub open spec fn hex_value(c: u8) -> Option<int> {
    if 0x30 <= c <= 0x39 {
        Some(c as int - 0x30)
    } else if 0x61 <= c <= 0x66 {
        Some(c as int - 0x61 + 10)
    } else if 0x41 <= c <= 0x46 {
        Some(c as int - 0x41 + 10)
    } else {
        None
    }
}

/// Whether `text` is hexadecimal text: an even number of bytes, each a digit.
pub open spec fn is_hex(text: Seq<u8>) -> bool {
    &&& text.len() % 2 == 0
    &&& forall|i: int| 0 <= i < text.len() ==> (#[trigger] hex_value(text[i])).is_some()
}

/// The bytes that hexadecimal `text` stands for.
pub open spec fn hex_bytes(text: Seq<u8>) -> Seq<u8> {
    Seq::new(
        text.len() / 2,
        |i: int| (hex_value(text[2 * i]).unwrap() * 16 + hex_value(text[2 * i + 1]).unwrap()) as u8,
    )
}

/// Why a text is not hexadecimal.
#[derive(Clone, Copy, Debug, PartialEq, Eq)]
pub enum HexError {
    /// The byte `c` at position `index` is no hexadecimal digit.
    InvalidHexCharacter { c: char, index: usize },
    /// The text has an odd number of bytes.
    OddLength,
    /// The text does not fill a container of fixed size.
    InvalidStringLength,
}

/// Calls `hex::encode`. Trusted: the result is the lowercase text of `data`,
/// two digits per byte, high half first.
#[verifier::external_body]
pub(crate) fn hex_encode(data: &[u8]) -> (text: String)
    ensures
        text@ == hex_text(data@),
{
    hex::encode(data)
}

/// Calls `hex::decode` on the bytes of a text. Trusted: it succeeds exactly on
/// an even number of digits of either case and then yields one byte per pair of
/// digits; it reports an odd length before it looks at any byte, and otherwise
/// the first byte that is no digit, with its position. It never reports a
/// length mismatch, which is kept for containers of fixed size.
#[verifier::external_body]
pub(crate) fn hex_decode(text: &[u8]) -> (r: Result<Vec<u8>, HexError>)
    ensures
        match r {
            Ok(bytes) => is_hex(text@) && bytes@ == hex_bytes(text@),
            Err(HexError::OddLength) => text@.len() % 2 == 1,
            Err(HexError::InvalidHexCharacter { c, index }) => {
                &&& text@.len() % 2 == 0
                &&& index < text@.len()
                &&& hex_value(text@[index as int]).is_none()
                &&& forall|j: int| 0 <= j < index ==> (#[trigger] hex_value(text@[j])).is_some()
                &&& c as u32 == text@[index as int] as u32
            },
            Err(HexError::InvalidStringLength) => false,
        },
{
    match hex::decode(text) {
        Ok(bytes) => Ok(bytes),
        Err(hex::FromHexError::OddLength) => Err(HexError::OddLength),
        Err(hex::FromHexError::InvalidHexCharacter { c, index }) => Err(
            HexError::InvalidHexCharacter { c, index },
        ),
        Err(hex::FromHexError::InvalidStringLength) => Err(HexError::InvalidStringLength),
    }
}

/// The bytes that a text occupies: its UTF-8 encoding.
pub open spec fn text_bytes(text: Seq<char>) -> Seq<u8> {
    encode_utf8(text)
}

/// What decoding `text` gives: its bytes where it is hexadecimal, nothing
/// where it is not.
pub open spec fn hex_decoded(text: Seq<char>) -> Option<Seq<u8>> {
    if is_hex(text_bytes(text)) {
        Some(hex_bytes(text_bytes(text)))
    } else {
        None
    }
}

/// The lowercase hexadecimal text of `data`.
pub fn encode(data: &[u8]) -> (text: String)
    ensures
        text@ == hex_text(data@),
{
    hex_encode(data)
}

/// The bytes that `text` stands for, or `Parameter` where it is not an even
/// number of hexadecimal digits.
pub fn decode(text: &str) -> (r: Result<Vec<u8>, LheError>)
    ensures
        match r {
            Ok(bytes) => hex_decoded(text@) == Some(bytes@),
            Err(e) => e == LheError::Parameter && hex_decoded(text@).is_none(),
        },
{
    match hex_decode(text.as_bytes()) {
        Ok(bytes) => Ok(bytes),
        Err(_) => Err(LheError::Parameter),
    }
}

/// Hexadecimal text written by `encode` is plain ASCII, one byte per digit.
pub proof fn lemma_hex_text_bytes(bytes: Seq<u8>)
    ensures
        is_ascii_chars(hex_text(bytes)),
        text_bytes(hex_text(bytes)).len() == 2 * bytes.len(),
        forall|i: int|
            0 <= i < 2 * bytes.len() ==> #[trigger] text_bytes(hex_text(bytes))[i] == hex_text(
                bytes,
            )[i] as u8,
{
    let text = hex_text(bytes);
    assert forall|i: int| 0 <= i < text.len() implies '\0' <= #[trigger] text[i] <= '\u{7f}' by {
        let d = if i % 2 == 0 {
            bytes[i / 2] as int / 16
        } else {
            bytes[i / 2] as int % 16
        };
        assert(0 <= d < 16);
        assert(text[i] == hex_digits()[d]);
    }
    is_ascii_chars_encode_utf8(text);
}

/// Decoding what `encode` wrote gives the bytes back, whatever they are.
pub proof fn lemma_decode_encode(bytes: Seq<u8>)
    ensures
        hex_decoded(hex_text(bytes)) == Some(bytes),
{
    let text = hex_text(bytes);
    let raw = text_bytes(text);
    lemma_hex_text_bytes(bytes);
    assert forall|i: int| 0 <= i < raw.len() implies {
        &&& (#[trigger] hex_value(raw[i])).is_some()
        &&& hex_value(raw[i]).unwrap() == if i % 2 == 0 {
            bytes[i / 2] as int / 16
        } else {
            bytes[i / 2] as int % 16
        }
    } by {
        let d = if i % 2 == 0 {
            bytes[i / 2] as int / 16
        } else {
            bytes[i / 2] as int % 16
        };
        assert(0 <= d < 16);
        assert(text[i] == hex_digits()[d]);
        assert(raw[i] == text[i] as u8);
    }
    assert(is_hex(raw));
    assert forall|k: int| 0 <= k < bytes.len() implies #[trigger] hex_bytes(raw)[k] == bytes[k] by {
        assert(hex_value(raw[2 * k]).unwrap() == bytes[(2 * k) / 2] as int / 16);
        assert(hex_value(raw[2 * k + 1]).unwrap() == bytes[(2 * k + 1) / 2] as int % 16);
    }
    assert(hex_bytes(raw) =~= bytes);
}

/// Whether every one of `texts` is hexadecimal.
pub open spec fn all_hex(texts: Seq<String>) -> bool {
    forall|i: int| 0 <= i < texts.len() ==> hex_decoded(#[trigger] texts[i]@).is_some()
}

/// The lowercase hexadecimal text of each of `items`, in their order.
pub fn encode_all(items: &Vec<Vec<u8>>) -> (texts: Vec<String>)
    ensures
        texts@.len() == items@.len(),
        forall|i: int| 0 <= i < items@.len() ==> (#[trigger] texts@[i])@ == hex_text(items@[i]@),
{
    let mut texts: Vec<String> = Vec::new();
    let mut i: usize = 0;
    while i < items.len()
        invariant
            i <= items@.len(),
            texts@.len() == i,
            forall|j: int| 0 <= j < i ==> (#[trigger] texts@[j])@ == hex_text(items@[j]@),
        decreases items@.len() - i,
    {
        texts.push(encode(items[i].as_slice()));
        i += 1;
    }
    texts
}

/// The bytes that each of `texts` stands for, in their order; `Parameter`
/// where one of them is not hexadecimal.
pub fn decode_all(texts: &Vec<String>) -> (r: Result<Vec<Vec<u8>>, LheError>)
    ensures
        match r {
            Ok(items) => {
                &&& items@.len() == texts@.len()
                &&& forall|i: int|
                    0 <= i < texts@.len() ==> hex_decoded(texts@[i]@) == Some(
                        (#[trigger] items@[i])@,
                    )
            },
            Err(e) => e == LheError::Parameter && !all_hex(texts@),
        },
{
    let mut items: Vec<Vec<u8>> = Vec::new();
    let mut i: usize = 0;
    while i < texts.len()
        invariant
            i <= texts@.len(),
            items@.len() == i,
            forall|j: int|
                0 <= j < i ==> hex_decoded(texts@[j]@) == Some((#[trigger] items@[j])@),
        decreases texts@.len() - i,
    {
        match decode(texts[i].as_str()) {
            Ok(bytes) => {
                items.push(bytes);
            },
            Err(e) => {
                assert(hex_decoded(texts@[i as int]@).is_none());
                return Err(e);
            },
        }
        i += 1;
    }
    Ok(items)
}

} // verus!

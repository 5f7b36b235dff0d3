//! Strings at the boundary: text as a run of bytes that ends at a zero byte.

use crate::error::LheError;
use crate::hexcodec::text_bytes;
use vstd::prelude::*;
use vstd::slice::{slice_subrange, slice_to_vec};
use vstd::utf8::{decode_utf8, valid_utf8};

verus! {

/// Calls `String::from_utf8`. Trusted: it succeeds exactly on well-formed
/// UTF-8 and then gives the text that the bytes encode.
#[verifier::external_body]
fn utf8_text(bytes: Vec<u8>) -> (r: Option<String>)
    ensures
        match r {
            Some(text) => valid_utf8(bytes@) && text@ == decode_utf8(bytes@),
            None => !valid_utf8(bytes@),
        },
{
    String::from_utf8(bytes).ok()
}

/// Reads the text that starts a buffer and ends before its first zero byte.
/// `Pointer` where the buffer holds no zero byte, so that the text would not
/// end inside it; `Parameter` where the bytes before the zero byte are not
/// UTF-8.
pub fn cstr2string(cstr: &[u8]) -> (r: Result<String, LheError>)
    ensures
        match r {
            Ok(text) => exists|end: int|
                {
                    &&& 0 <= end < cstr@.len()
                    &&& cstr@[end] == 0
                    &&& forall|i: int| 0 <= i < end ==> cstr@[i] != 0
                    &&& valid_utf8(#[trigger] cstr@.subrange(0, end))
                    &&& text@ == decode_utf8(cstr@.subrange(0, end))
                },
            Err(e) => if forall|i: int| 0 <= i < cstr@.len() ==> cstr@[i] != 0 {
                e == LheError::Pointer
            } else {
                e == LheError::Parameter && exists|end: int|
                    {
                        &&& 0 <= end < cstr@.len()
                        &&& cstr@[end] == 0
                        &&& forall|i: int| 0 <= i < end ==> cstr@[i] != 0
                        &&& !valid_utf8(#[trigger] cstr@.subrange(0, end))
                    }
            },
        },
{
    let mut end: usize = 0;
    while end < cstr.len() && cstr[end] != 0
        invariant
            end <= cstr@.len(),
            forall|i: int| 0 <= i < end ==> cstr@[i] != 0,
        decreases cstr@.len() - end,
    {
        end += 1;
    }
    if end == cstr.len() {
        return Err(LheError::Pointer);
    }
    match utf8_text(slice_to_vec(slice_subrange(cstr, 0, end))) {
        Some(text) => {
            assert(valid_utf8(cstr@.subrange(0, end as int)));
            Ok(text)
        },
        None => {
            assert(!valid_utf8(cstr@.subrange(0, end as int)));
            Err(LheError::Parameter)
        },
    }
}

/// Writes a text as its bytes followed by a zero byte. `Parameter` where the
/// text itself holds a zero byte, so that it would end too early.
pub fn string2cstr(text: &str) -> (r: Result<Vec<u8>, LheError>)
    ensures
        match r {
            Ok(cstr) => !text_bytes(text@).contains(0) && cstr@ == text_bytes(text@).push(0),
            Err(e) => e == LheError::Parameter && text_bytes(text@).contains(0),
        },
{
    let bytes = text.as_bytes();
    let mut i: usize = 0;
    while i < bytes.len()
        invariant
            i <= bytes@.len(),
            bytes@ == text_bytes(text@),
            forall|j: int| 0 <= j < i ==> bytes@[j] != 0,
        decreases bytes@.len() - i,
    {
        if bytes[i] == 0 {
            assert(text_bytes(text@)[i as int] == 0);
            return Err(LheError::Parameter);
        }
        i += 1;
    }
    let mut cstr = slice_to_vec(bytes);
    cstr.push(0);
    Ok(cstr)
}

/// A text that is written and read again is the same text.
pub proof fn lemma_cstr_round_trip(text: Seq<char>)
    requires
        !text_bytes(text).contains(0),
    ensures
        valid_utf8(text_bytes(text).push(0).subrange(0, text_bytes(text).len() as int)),
        decode_utf8(text_bytes(text).push(0).subrange(0, text_bytes(text).len() as int)) == text,
{
    let bytes = text_bytes(text);
    assert(bytes.push(0).subrange(0, bytes.len() as int) =~= bytes);
    vstd::utf8::encode_utf8_valid_utf8(text);
    vstd::utf8::encode_utf8_decode_utf8(text);
}

} // verus!

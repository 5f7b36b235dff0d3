//! The packed encoding of sparse secret keys.
//!
//! A secret key is a run of 32-bit big-endian elements. Where every element is
//! `0`, `1` or `SPARSE_CONST`, each takes two bits and four of them one byte,
//! so that the key shrinks sixteen times. Any other key travels as it is.

use crate::be32::{be32_bytes, be32_value, lemma_be32_bytes_of_value, push_be32, read_be32};
use crate::error::LheError;
use crate::hexcodec::{decode, encode, hex_decoded, hex_text, lemma_decode_encode};
use vstd::prelude::*;

verus! {

/// The one large value that a sparse key holds besides `0` and `1`.
pub const SPARSE_CONST: u32 = 0x07e0_0000;

/// The length at which decoded bytes are taken for a packed key.
pub const PACKED_LEN: usize = 256;

/// How many whole elements `sk` holds; up to three bytes may be left over.
pub open spec fn element_count(sk: Seq<u8>) -> int {
    sk.len() as int / 4
}

/// The `k`-th element of `sk`.
pub open spec fn element(sk: Seq<u8>, k: int) -> int {
    be32_value(sk, 4 * k)
}

/// The two-bit code of an element, where it has one.
pub open spec fn element_code(e: int) -> Option<int> {
    if e == 0 {
        Some(0)
    } else if e == 1 {
        Some(1)
    } else if e == SPARSE_CONST {
        Some(2)
    } else {
        None
    }
}

/// The element that a two-bit code stands for. The code `3` is never written;
/// where it is read it stands for `0`.
pub open spec fn code_element(code: int) -> int {
    if code == 1 {
        1
    } else if code == 2 {
        SPARSE_CONST as int
    } else {
        0
    }
}

/// Whether every whole element of `sk` has a code.
pub open spec fn is_sparse(sk: Seq<u8>) -> bool {
    forall|k: int| 0 <= k < element_count(sk) ==> element_code(#[trigger] element(sk, k)).is_some()
}

/// The byte that packs the four elements of group `g`, the first in the two
/// highest bits.
pub open spec fn packed_byte(sk: Seq<u8>, g: int) -> u8 {
    (element_code(element(sk, 4 * g)).unwrap() * 64 + element_code(
        element(sk, 4 * g + 1),
    ).unwrap() * 16 + element_code(element(sk, 4 * g + 2)).unwrap() * 4 + element_code(
        element(sk, 4 * g + 3),
    ).unwrap()) as u8
}

/// A sparse key, packed: one byte for each whole group of four elements.
/// Elements after the last whole group are not carried.
pub open spec fn packed(sk: Seq<u8>) -> Seq<u8> {
    Seq::new((element_count(sk) / 4) as nat, |g: int| packed_byte(sk, g))
}

/// The bytes that stand for `sk` on the wire, before they are written as text.
pub open spec fn compressed(sk: Seq<u8>) -> Seq<u8> {
    if is_sparse(sk) {
        packed(sk)
    } else {
        sk
    }
}

/// The `i`-th two-bit code of `b`, counted from the highest bits.
pub open spec fn byte_code(b: u8, i: int) -> int {
    if i == 0 {
        b as int / 64
    } else if i == 1 {
        (b as int / 16) % 4
    } else if i == 2 {
        (b as int / 4) % 4
    } else {
        b as int % 4
    }
}

/// The sixteen bytes that one packed byte expands to.
pub open spec fn expanded_byte(b: u8) -> Seq<u8> {
    be32_bytes(code_element(byte_code(b, 0))) + be32_bytes(code_element(byte_code(b, 1)))
        + be32_bytes(code_element(byte_code(b, 2))) + be32_bytes(code_element(byte_code(b, 3)))
}

/// A packed key, expanded: sixteen bytes for each byte.
pub open spec fn expanded(bytes: Seq<u8>) -> Seq<u8> {
    Seq::new(16 * bytes.len(), |p: int| expanded_byte(bytes[p / 16])[p % 16])
}

/// The key that decoded bytes stand for: expanded where they have the length
/// of a packed key, as they are otherwise.
pub open spec fn decompressed(bytes: Seq<u8>) -> Seq<u8> {
    if bytes.len() == PACKED_LEN {
        expanded(bytes)
    } else {
        bytes
    }
}

/// The two-bit code of the `k`-th element, where it has one.
fn code_at(sk: &[u8], k: usize) -> (c: Option<u8>)
    requires
        k < element_count(sk@),
    ensures
        match c {
            Some(code) => element_code(element(sk@, k as int)) == Some(code as int),
            None => element_code(element(sk@, k as int)).is_none(),
        },
{
    let len = sk.len();
    assert(4 * k + 4 <= len);
    let e = read_be32(sk, 4 * k);
    if e == 0 {
        Some(0)
    } else if e == 1 {
        Some(1)
    } else if e == SPARSE_CONST {
        Some(2)
    } else {
        None
    }
}

/// Writes a secret key as text: packed where it is sparse, whole where it is
/// not, in lowercase hexadecimal either way.
pub fn try_compress_sk(sk: &[u8]) -> (text: String)
    ensures
        text@ == hex_text(compressed(sk@)),
{
    let count = sk.len() / 4;
    let groups = count / 4;
    let mut bs: Vec<u8> = Vec::new();
    let mut g: usize = 0;
    while g < groups
        invariant
            count == element_count(sk@),
            groups == count / 4,
            g <= groups,
            forall|k: int| 0 <= k < 4 * g ==> element_code(#[trigger] element(sk@, k)).is_some(),
            bs@ == Seq::new(g as nat, |j: int| packed_byte(sk@, j)),
        decreases groups - g,
    {
        let c0 = code_at(sk, 4 * g);
        let c1 = code_at(sk, 4 * g + 1);
        let c2 = code_at(sk, 4 * g + 2);
        let c3 = code_at(sk, 4 * g + 3);
        match (c0, c1, c2, c3) {
            (Some(a), Some(b), Some(c), Some(d)) => {
                bs.push(a * 64 + b * 16 + c * 4 + d);
                assert(bs@ =~= Seq::new((g + 1) as nat, |j: int| packed_byte(sk@, j)));
            },
            _ => {
                assert(!is_sparse(sk@)) by {
                    let _ = element(sk@, 4 * g as int);
                    let _ = element(sk@, 4 * g as int + 1);
                    let _ = element(sk@, 4 * g as int + 2);
                    let _ = element(sk@, 4 * g as int + 3);
                }
                return encode(sk);
            },
        }
        g += 1;
    }
    let mut k: usize = 4 * groups;
    while k < count
        invariant
            count == element_count(sk@),
            4 * groups <= k <= count,
            forall|i: int| 0 <= i < k ==> element_code(#[trigger] element(sk@, i)).is_some(),
        decreases count - k,
    {
        if code_at(sk, k).is_none() {
            assert(!is_sparse(sk@)) by {
                let _ = element(sk@, k as int);
            }
            return encode(sk);
        }
        k += 1;
    }
    assert(bs@ =~= packed(sk@));
    encode(bs.as_slice())
}

/// Appends to `out` the sixteen bytes that the packed byte `b` expands to.
fn push_expanded(out: &mut Vec<u8>, b: u8)
    ensures
        final(out)@ == old(out)@ + expanded_byte(b),
{
    let c0 = b / 64;
    let c1 = (b / 16) % 4;
    let c2 = (b / 4) % 4;
    let c3 = b % 4;
    push_be32(out, element_of(c0));
    push_be32(out, element_of(c1));
    push_be32(out, element_of(c2));
    push_be32(out, element_of(c3));
    assert(out@ =~= old(out)@ + expanded_byte(b));
}

/// The element that a two-bit code stands for.
fn element_of(code: u8) -> (e: u32)
    ensures
        e == code_element(code as int),
{
    if code == 1 {
        1
    } else if code == 2 {
        SPARSE_CONST
    } else {
        0
    }
}

/// Reads a secret key from text: hexadecimal digits that stand for a packed
/// key, where they decode to `PACKED_LEN` bytes, and for the key itself
/// otherwise. `Parameter` where the text is not hexadecimal.
pub fn try_decompress_sk(data: &String) -> (r: Result<Vec<u8>, LheError>)
    ensures
        match r {
            Ok(sk) => hex_decoded(data@).is_some() && sk@ == decompressed(
                hex_decoded(data@).unwrap(),
            ),
            Err(e) => e == LheError::Parameter && hex_decoded(data@).is_none(),
        },
{
    let bytes = match decode(data.as_str()) {
        Ok(bytes) => bytes,
        Err(e) => {
            return Err(e);
        },
    };
    if bytes.len() != PACKED_LEN {
        return Ok(bytes);
    }
    let mut bs: Vec<u8> = Vec::new();
    let mut i: usize = 0;
    while i < bytes.len()
        invariant
            i <= bytes@.len(),
            bs@ == expanded(bytes@.take(i as int)),
        decreases bytes@.len() - i,
    {
        let ghost before = bs@;
        push_expanded(&mut bs, bytes[i]);
        assert(bs@ =~= expanded(bytes@.take(i + 1))) by {
            assert(expanded_byte(bytes@[i as int]).len() == 16);
            assert forall|p: int| 0 <= p < 16 * (i + 1) implies bs@[p] == expanded(
                bytes@.take(i + 1),
            )[p] by {
                if p < 16 * i {
                    assert(bytes@.take(i as int)[p / 16] == bytes@.take(i + 1)[p / 16]);
                    assert(before[p] == expanded(bytes@.take(i as int))[p]);
                } else {
                    assert(p / 16 == i);
                    assert(p % 16 == p - 16 * i);
                }
            }
        }
        i += 1;
    }
    assert(bytes@.take(bytes@.len() as int) =~= bytes@);
    Ok(bs)
}

/// An element that has a code is the element that its code stands for.
proof fn lemma_code_element(e: int)
    requires
        element_code(e).is_some(),
    ensures
        0 <= element_code(e).unwrap() < 3,
        code_element(element_code(e).unwrap()) == e,
{
}

/// Expanding the byte that packs a group of a sparse key gives the sixteen
/// bytes of that group.
proof fn lemma_expand_group(sk: Seq<u8>, g: int)
    requires
        is_sparse(sk),
        0 <= g,
        16 * g + 16 <= sk.len(),
    ensures
        expanded_byte(packed_byte(sk, g)) == sk.subrange(16 * g, 16 * g + 16),
{
    let e0 = element(sk, 4 * g);
    let e1 = element(sk, 4 * g + 1);
    let e2 = element(sk, 4 * g + 2);
    let e3 = element(sk, 4 * g + 3);
    lemma_code_element(e0);
    lemma_code_element(e1);
    lemma_code_element(e2);
    lemma_code_element(e3);
    let c0 = element_code(e0).unwrap();
    let c1 = element_code(e1).unwrap();
    let c2 = element_code(e2).unwrap();
    let c3 = element_code(e3).unwrap();
    let b = packed_byte(sk, g);
    assert(b as int == c0 * 64 + c1 * 16 + c2 * 4 + c3);
    assert(byte_code(b, 0) == c0);
    assert(byte_code(b, 1) == c1);
    assert(byte_code(b, 2) == c2);
    assert(byte_code(b, 3) == c3);
    lemma_be32_bytes_of_value(sk, 16 * g);
    lemma_be32_bytes_of_value(sk, 16 * g + 4);
    lemma_be32_bytes_of_value(sk, 16 * g + 8);
    lemma_be32_bytes_of_value(sk, 16 * g + 12);
    assert(be32_bytes(e0) == sk.subrange(16 * g, 16 * g + 4));
    assert(be32_bytes(e1) == sk.subrange(16 * g + 4, 16 * g + 8));
    assert(be32_bytes(e2) == sk.subrange(16 * g + 8, 16 * g + 12));
    assert(be32_bytes(e3) == sk.subrange(16 * g + 12, 16 * g + 16));
    assert(expanded_byte(b) =~= sk.subrange(16 * g, 16 * g + 16));
}

/// Expanding a packed sparse key gives the key back, where the key is made of
/// whole groups.
pub proof fn lemma_expand_packed(sk: Seq<u8>)
    requires
        is_sparse(sk),
        sk.len() % 16 == 0,
    ensures
        expanded(packed(sk)) == sk,
{
    let back = expanded(packed(sk));
    assert(back.len() == sk.len());
    assert forall|p: int| 0 <= p < sk.len() implies back[p] == sk[p] by {
        let g = p / 16;
        lemma_expand_group(sk, g);
        assert(packed(sk)[g] == packed_byte(sk, g));
        assert(sk.subrange(16 * g, 16 * g + 16)[p % 16] == sk[p]);
    }
    assert(back =~= sk);
}

/// Whether a key comes back from the wire as it went.
pub open spec fn round_trips(sk: Seq<u8>) -> bool {
    decompressed(compressed(sk)) == sk
}

/// Compression followed by decompression. What `try_compress_sk` writes
/// always decodes to the compressed bytes, so a key that is not sparse is
/// carried whole. The key itself comes back exactly in these cases: a sparse
/// key of 4096 bytes (packed to `PACKED_LEN` bytes and expanded again) or of
/// no bytes at all, and a key that is not sparse and is not `PACKED_LEN` bytes
/// long (one of that length is taken for a packed key when it is read).
pub proof fn lemma_compress_round_trip(sk: Seq<u8>)
    ensures
        hex_decoded(hex_text(compressed(sk))) == Some(compressed(sk)),
        !is_sparse(sk) ==> hex_decoded(hex_text(compressed(sk))) == Some(sk),
        round_trips(sk) <==> if is_sparse(sk) {
            sk.len() == 16 * PACKED_LEN || sk.len() == 0
        } else {
            sk.len() != PACKED_LEN
        },
{
    lemma_decode_encode(compressed(sk));
    if is_sparse(sk) {
        assert(packed(sk).len() == sk.len() / 16);
        if sk.len() == 16 * PACKED_LEN {
            lemma_expand_packed(sk);
        } else if packed(sk).len() == PACKED_LEN {
            assert(expanded(packed(sk)).len() == 16 * PACKED_LEN);
        } else if sk.len() == 0 {
            assert(packed(sk) =~= sk);
        } else {
            assert(packed(sk).len() < sk.len());
        }
    } else {
        if sk.len() == PACKED_LEN {
            assert(expanded(sk).len() == 16 * PACKED_LEN);
        }
    }
}

} // verus!

//! Big-endian 32-bit fields: the unit of every length and value on the wire.

use vstd::prelude::*;

verus! {

/// The four bytes of `v`, most significant first.
pub open spec fn be32_bytes(v: int) -> Seq<u8> {
    seq![
        ((v / 16777216) % 256) as u8,
        ((v / 65536) % 256) as u8,
        ((v / 256) % 256) as u8,
        (v % 256) as u8,
    ]
}

/// The number that the four bytes of `s` from position `at` stand for.
pub open spec fn be32_value(s: Seq<u8>, at: int) -> int {
    s[at] as int * 16777216 + s[at + 1] as int * 65536 + s[at + 2] as int * 256 + s[at + 3] as int
}

/// Reading back what was written gives the number that was written.
pub proof fn lemma_be32_value_of_bytes(v: int)
    requires
        0 <= v <= u32::MAX,
    ensures
        be32_bytes(v).len() == 4,
        be32_value(be32_bytes(v), 0) == v,
{
}

/// The four bytes of a number are its digits to the base 256.
proof fn lemma_base256_digits(a: int, b: int, c: int, d: int)
    requires
        0 <= a < 256,
        0 <= b < 256,
        0 <= c < 256,
        0 <= d < 256,
    ensures
        be32_bytes(a * 16777216 + b * 65536 + c * 256 + d) == seq![a as u8, b as u8, c as u8, d as u8],
{
    let v = a * 16777216 + b * 65536 + c * 256 + d;
    let lo3 = b * 65536 + c * 256 + d;
    let lo2 = c * 256 + d;
    assert(v / 16777216 == a) by {
        assert(v == a * 16777216 + lo3 && 0 <= lo3 < 16777216);
    }
    assert(v / 65536 == a * 256 + b) by {
        assert(v == (a * 256 + b) * 65536 + lo2 && 0 <= lo2 < 65536);
    }
    assert(v / 256 == a * 65536 + b * 256 + c) by {
        assert(v == (a * 65536 + b * 256 + c) * 256 + d);
    }
    assert((a * 256 + b) % 256 == b);
    assert((a * 65536 + b * 256 + c) % 256 == c) by {
        assert(a * 65536 + b * 256 + c == (a * 256 + b) * 256 + c);
    }
    assert(v % 256 == d) by {
        assert(v == (a * 65536 + b * 256 + c) * 256 + d);
    }
    assert(be32_bytes(v) =~= seq![a as u8, b as u8, c as u8, d as u8]);
}

/// Writing what was read gives the bytes that were read.
pub proof fn lemma_be32_bytes_of_value(s: Seq<u8>, at: int)
    requires
        0 <= at,
        at + 4 <= s.len(),
    ensures
        0 <= be32_value(s, at) <= u32::MAX,
        be32_bytes(be32_value(s, at)) == s.subrange(at, at + 4),
{
    lemma_base256_digits(s[at] as int, s[at + 1] as int, s[at + 2] as int, s[at + 3] as int);
    assert(s.subrange(at, at + 4) =~= seq![s[at], s[at + 1], s[at + 2], s[at + 3]]);
}

/// Reads the 32-bit field that starts at `at`.
pub fn read_be32(data: &[u8], at: usize) -> (v: u32)
    requires
        at + 4 <= data@.len(),
    ensures
        v == be32_value(data@, at as int),
{
    let b0: u32 = data[at] as u32;
    let b1: u32 = data[at + 1] as u32;
    let b2: u32 = data[at + 2] as u32;
    let b3: u32 = data[at + 3] as u32;
    b0 * 16777216 + b1 * 65536 + b2 * 256 + b3
}

/// Appends `v` to `out` as one 32-bit field.
pub fn push_be32(out: &mut Vec<u8>, v: u32)
    ensures
        final(out)@ == old(out)@ + be32_bytes(v as int),
{
    out.push((v / 16777216) as u8);
    out.push(((v / 65536) % 256) as u8);
    out.push(((v / 256) % 256) as u8);
    out.push((v % 256) as u8);
    assert(out@ =~= old(out)@ + be32_bytes(v as int));
}

} // verus!

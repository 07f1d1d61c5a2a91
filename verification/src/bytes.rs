//! Byte-level primitives of the wire format: 32 and 64 bit words read from
//! and written to a byte sequence, little- or big-endian.

use vstd::prelude::*;

verus! {

/// The four little-endian bytes of a 32 bit word.
pub open spec fn le_bytes_u32(v: u32) -> Seq<u8> {
    seq![
        (v & 0xff) as u8,
        ((v >> 8) & 0xff) as u8,
        ((v >> 16) & 0xff) as u8,
        ((v >> 24) & 0xff) as u8,
    ]
}

/// The eight little-endian bytes of a 64 bit word.
pub open spec fn le_bytes_u64(v: u64) -> Seq<u8> {
    seq![
        (v & 0xff) as u8,
        ((v >> 8) & 0xff) as u8,
        ((v >> 16) & 0xff) as u8,
        ((v >> 24) & 0xff) as u8,
        ((v >> 32) & 0xff) as u8,
        ((v >> 40) & 0xff) as u8,
        ((v >> 48) & 0xff) as u8,
        ((v >> 56) & 0xff) as u8,
    ]
}

/// The 32 bit word held by four bytes, the first byte least significant.
pub open spec fn u32_of_le(b0: u8, b1: u8, b2: u8, b3: u8) -> u32 {
    (b0 as u32) | ((b1 as u32) << 8) | ((b2 as u32) << 16) | ((b3 as u32) << 24)
}

/// The 64 bit word held by eight bytes, the first byte least significant.
pub open spec fn u64_of_le(b0: u8, b1: u8, b2: u8, b3: u8, b4: u8, b5: u8, b6: u8, b7: u8) -> u64 {
    (b0 as u64) | ((b1 as u64) << 8) | ((b2 as u64) << 16) | ((b3 as u64) << 24)
        | ((b4 as u64) << 32) | ((b5 as u64) << 40) | ((b6 as u64) << 48) | ((b7 as u64) << 56)
}

/// The 32 bit word read at `pos` in the byte order given by `le`, together
/// with the position after it; `None` when fewer than four bytes remain.
pub open spec fn parse_u32(b: Seq<u8>, pos: int, le: bool) -> Option<(u32, int)> {
    if 0 <= pos && pos + 4 <= b.len() {
        let v = if le {
            u32_of_le(b[pos], b[pos + 1], b[pos + 2], b[pos + 3])
        } else {
            u32_of_le(b[pos + 3], b[pos + 2], b[pos + 1], b[pos])
        };
        Some((v, pos + 4))
    } else {
        None
    }
}

/// The 64 bit word read at `pos` in the byte order given by `le`, together
/// with the position after it; `None` when fewer than eight bytes remain.
pub open spec fn parse_u64(b: Seq<u8>, pos: int, le: bool) -> Option<(u64, int)> {
    if 0 <= pos && pos + 8 <= b.len() {
        let v = if le {
            u64_of_le(b[pos], b[pos + 1], b[pos + 2], b[pos + 3],
                b[pos + 4], b[pos + 5], b[pos + 6], b[pos + 7])
        } else {
            u64_of_le(b[pos + 7], b[pos + 6], b[pos + 5], b[pos + 4],
                b[pos + 3], b[pos + 2], b[pos + 1], b[pos])
        };
        Some((v, pos + 8))
    } else {
        None
    }
}

/// Reading the little-endian bytes of a word gives the word back.
pub proof fn lemma_u32_le_roundtrip(v: u32)
    ensures
        u32_of_le((v & 0xff) as u8, ((v >> 8) & 0xff) as u8, ((v >> 16) & 0xff) as u8,
            ((v >> 24) & 0xff) as u8) == v,
{
    assert(((v & 0xff) as u8) as u32 | ((((v >> 8) & 0xff) as u8) as u32) << 8
        | ((((v >> 16) & 0xff) as u8) as u32) << 16 | ((((v >> 24) & 0xff) as u8) as u32) << 24
        == v) by (bit_vector);
}

/// Reading the little-endian bytes of a word gives the word back.
pub proof fn lemma_u64_le_roundtrip(v: u64)
    ensures
        u64_of_le((v & 0xff) as u8, ((v >> 8) & 0xff) as u8, ((v >> 16) & 0xff) as u8,
            ((v >> 24) & 0xff) as u8, ((v >> 32) & 0xff) as u8, ((v >> 40) & 0xff) as u8,
            ((v >> 48) & 0xff) as u8, ((v >> 56) & 0xff) as u8) == v,
{
    assert(((v & 0xff) as u8) as u64 | ((((v >> 8) & 0xff) as u8) as u64) << 8
        | ((((v >> 16) & 0xff) as u8) as u64) << 16 | ((((v >> 24) & 0xff) as u8) as u64) << 24
        | ((((v >> 32) & 0xff) as u8) as u64) << 32 | ((((v >> 40) & 0xff) as u8) as u64) << 40
        | ((((v >> 48) & 0xff) as u8) as u64) << 48 | ((((v >> 56) & 0xff) as u8) as u64) << 56
        == v) by (bit_vector);
}

/// Appends the four little-endian bytes of `v`.
pub fn write_u32_le(v: u32, out: &mut Vec<u8>)
    ensures
        final(out)@ == old(out)@ + le_bytes_u32(v),
{
    out.push((v & 0xff) as u8);
    out.push(((v >> 8) & 0xff) as u8);
    out.push(((v >> 16) & 0xff) as u8);
    out.push(((v >> 24) & 0xff) as u8);
    assert(out@ =~= old(out)@ + le_bytes_u32(v));
}

/// Appends the eight little-endian bytes of `v`.
pub fn write_u64_le(v: u64, out: &mut Vec<u8>)
    ensures
        final(out)@ == old(out)@ + le_bytes_u64(v),
{
    out.push((v & 0xff) as u8);
    out.push(((v >> 8) & 0xff) as u8);
    out.push(((v >> 16) & 0xff) as u8);
    out.push(((v >> 24) & 0xff) as u8);
    out.push(((v >> 32) & 0xff) as u8);
    out.push(((v >> 40) & 0xff) as u8);
    out.push(((v >> 48) & 0xff) as u8);
    out.push(((v >> 56) & 0xff) as u8);
    assert(out@ =~= old(out)@ + le_bytes_u64(v));
}

/// Reads the 32 bit word at `pos` in the byte order given by `le`.
pub fn read_u32_at(bytes: &[u8], pos: usize, le: bool) -> (r: Option<(u32, usize)>)
    ensures
        match r {
            Some((v, p)) => parse_u32(bytes@, pos as int, le) == Some((v, p as int))
                && pos < p <= bytes@.len(),
            None => parse_u32(bytes@, pos as int, le) is None,
        },
{
    if bytes.len() >= 4 && pos <= bytes.len() - 4 {
        let v = if le {
            (bytes[pos] as u32) | ((bytes[pos + 1] as u32) << 8)
                | ((bytes[pos + 2] as u32) << 16) | ((bytes[pos + 3] as u32) << 24)
        } else {
            (bytes[pos + 3] as u32) | ((bytes[pos + 2] as u32) << 8)
                | ((bytes[pos + 1] as u32) << 16) | ((bytes[pos] as u32) << 24)
        };
        Some((v, pos + 4))
    } else {
        None
    }
}

/// Reads the 64 bit word at `pos` in the byte order given by `le`.
pub fn read_u64_at(bytes: &[u8], pos: usize, le: bool) -> (r: Option<(u64, usize)>)
    ensures
        match r {
            Some((v, p)) => parse_u64(bytes@, pos as int, le) == Some((v, p as int))
                && pos < p <= bytes@.len(),
            None => parse_u64(bytes@, pos as int, le) is None,
        },
{
    if bytes.len() >= 8 && pos <= bytes.len() - 8 {
        let v = if le {
            (bytes[pos] as u64) | ((bytes[pos + 1] as u64) << 8)
                | ((bytes[pos + 2] as u64) << 16) | ((bytes[pos + 3] as u64) << 24)
                | ((bytes[pos + 4] as u64) << 32) | ((bytes[pos + 5] as u64) << 40)
                | ((bytes[pos + 6] as u64) << 48) | ((bytes[pos + 7] as u64) << 56)
        } else {
            (bytes[pos + 7] as u64) | ((bytes[pos + 6] as u64) << 8)
                | ((bytes[pos + 5] as u64) << 16) | ((bytes[pos + 4] as u64) << 24)
                | ((bytes[pos + 3] as u64) << 32) | ((bytes[pos + 2] as u64) << 40)
                | ((bytes[pos + 1] as u64) << 48) | ((bytes[pos] as u64) << 56)
        };
        Some((v, pos + 8))
    } else {
        None
    }
}

/// The 64 bit word read little-endian from its own little-endian bytes, as
/// `parse_u64` sees them after `write_u64_le`.
pub proof fn lemma_parse_u64_of_le(b: Seq<u8>, pos: int, v: u64)
    requires
        0 <= pos,
        pos + 8 <= b.len(),
        b.subrange(pos, pos + 8) == le_bytes_u64(v),
    ensures
        parse_u64(b, pos, true) == Some((v, pos + 8)),
{
    let sub = b.subrange(pos, pos + 8);
    assert(b[pos] == sub[0]);
    assert(b[pos + 1] == sub[1]);
    assert(b[pos + 2] == sub[2]);
    assert(b[pos + 3] == sub[3]);
    assert(b[pos + 4] == sub[4]);
    assert(b[pos + 5] == sub[5]);
    assert(b[pos + 6] == sub[6]);
    assert(b[pos + 7] == sub[7]);
    lemma_u64_le_roundtrip(v);
}

/// The 32 bit word read little-endian from its own little-endian bytes, as
/// `parse_u32` sees them after `write_u32_le`.
pub proof fn lemma_parse_u32_of_le(b: Seq<u8>, pos: int, v: u32)
    requires
        0 <= pos,
        pos + 4 <= b.len(),
        b.subrange(pos, pos + 4) == le_bytes_u32(v),
    ensures
        parse_u32(b, pos, true) == Some((v, pos + 4)),
{
    let sub = b.subrange(pos, pos + 4);
    assert(b[pos] == sub[0]);
    assert(b[pos + 1] == sub[1]);
    assert(b[pos + 2] == sub[2]);
    assert(b[pos + 3] == sub[3]);
    lemma_u32_le_roundtrip(v);
}

/// Splits a concatenation seen through `subrange`: bytes that hold `s1 + s2`
/// at `pos` hold `s1` at `pos` and `s2` right after it.
pub proof fn lemma_subrange_split(b: Seq<u8>, pos: int, s1: Seq<u8>, s2: Seq<u8>)
    requires
        0 <= pos,
        pos + s1.len() + s2.len() <= b.len(),
        b.subrange(pos, pos + s1.len() + s2.len()) == s1 + s2,
    ensures
        b.subrange(pos, pos + s1.len()) == s1,
        b.subrange(pos + s1.len(), pos + s1.len() + s2.len()) == s2,
{
    let whole = b.subrange(pos, pos + s1.len() + s2.len());
    assert(b.subrange(pos, pos + s1.len()) =~= s1) by {
        assert(forall|i: int| 0 <= i < s1.len() ==> b[pos + i] == whole[i] && whole[i] == s1[i]);
    }
    assert(b.subrange(pos + s1.len(), pos + s1.len() + s2.len()) =~= s2) by {
        assert(forall|i: int|
            0 <= i < s2.len() ==> b[pos + s1.len() + i] == whole[s1.len() + i]
                && whole[s1.len() + i] == s2[i]);
    }
}

} // verus!

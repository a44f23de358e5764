//! Fixed-width integers as bytes: little-endian (the payload layout) and
//! big-endian (the header and legacy length fields).
use vstd::prelude::*;

verus! {

/// The four bytes of `v`, least significant first.
pub open spec fn le_u32(v: u32) -> Seq<u8> {
    seq![v as u8, (v >> 8u32) as u8, (v >> 16u32) as u8, (v >> 24u32) as u8]
}

/// The value of four bytes read least significant first.
pub open spec fn u32_of_le(b0: u8, b1: u8, b2: u8, b3: u8) -> u32 {
    (b0 as u32) | ((b1 as u32) << 8u32) | ((b2 as u32) << 16u32) | ((b3 as u32) << 24u32)
}

/// The four bytes of `v`, most significant first.
pub open spec fn be_u32(v: u32) -> Seq<u8> {
    seq![(v >> 24u32) as u8, (v >> 16u32) as u8, (v >> 8u32) as u8, v as u8]
}

/// The eight bytes of `v`, least significant first.
pub open spec fn le_u64(v: u64) -> Seq<u8> {
    seq![
        v as u8,
        (v >> 8u64) as u8,
        (v >> 16u64) as u8,
        (v >> 24u64) as u8,
        (v >> 32u64) as u8,
        (v >> 40u64) as u8,
        (v >> 48u64) as u8,
        (v >> 56u64) as u8,
    ]
}

/// The value of eight bytes read least significant first.
pub open spec fn u64_of_le(b0: u8, b1: u8, b2: u8, b3: u8, b4: u8, b5: u8, b6: u8, b7: u8) -> u64 {
    (b0 as u64) | ((b1 as u64) << 8u64) | ((b2 as u64) << 16u64) | ((b3 as u64) << 24u64) | ((
    b4 as u64) << 32u64) | ((b5 as u64) << 40u64) | ((b6 as u64) << 48u64) | ((b7 as u64)
        << 56u64)
}

/// A signed 64-bit value is written as its two's complement bit pattern.
pub open spec fn le_i64(v: i64) -> Seq<u8> {
    le_u64(v as u64)
}

pub proof fn lemma_le_u32_round_trip(v: u32)
    ensures
        u32_of_le(le_u32(v)[0], le_u32(v)[1], le_u32(v)[2], le_u32(v)[3]) == v,
{
    assert(u32_of_le(v as u8, (v >> 8u32) as u8, (v >> 16u32) as u8, (v >> 24u32) as u8) == v)
        by (bit_vector);
}

pub proof fn lemma_le_u32_of_bytes(b0: u8, b1: u8, b2: u8, b3: u8)
    ensures
        le_u32(u32_of_le(b0, b1, b2, b3)) == seq![b0, b1, b2, b3],
{
    let x = u32_of_le(b0, b1, b2, b3);
    assert(x as u8 == b0 && (x >> 8u32) as u8 == b1 && (x >> 16u32) as u8 == b2 && (x >> 24u32)
        as u8 == b3) by (bit_vector)
        requires
            x == (b0 as u32) | ((b1 as u32) << 8u32) | ((b2 as u32) << 16u32) | ((b3 as u32)
                << 24u32),
    ;
    assert(le_u32(x) =~= seq![b0, b1, b2, b3]);
}

pub proof fn lemma_be_u32_round_trip(v: u32)
    ensures
        u32_of_le(be_u32(v)[3], be_u32(v)[2], be_u32(v)[1], be_u32(v)[0]) == v,
{
    assert(u32_of_le(v as u8, (v >> 8u32) as u8, (v >> 16u32) as u8, (v >> 24u32) as u8) == v)
        by (bit_vector);
}

pub proof fn lemma_le_u64_round_trip(v: u64)
    ensures
        u64_of_le(
            le_u64(v)[0],
            le_u64(v)[1],
            le_u64(v)[2],
            le_u64(v)[3],
            le_u64(v)[4],
            le_u64(v)[5],
            le_u64(v)[6],
            le_u64(v)[7],
        ) == v,
{
    assert(u64_of_le(
        v as u8,
        (v >> 8u64) as u8,
        (v >> 16u64) as u8,
        (v >> 24u64) as u8,
        (v >> 32u64) as u8,
        (v >> 40u64) as u8,
        (v >> 48u64) as u8,
        (v >> 56u64) as u8,
    ) == v) by (bit_vector);
}

pub proof fn lemma_le_u64_of_bytes(b0: u8, b1: u8, b2: u8, b3: u8, b4: u8, b5: u8, b6: u8, b7: u8)
    ensures
        le_u64(u64_of_le(b0, b1, b2, b3, b4, b5, b6, b7)) == seq![b0, b1, b2, b3, b4, b5, b6, b7],
{
    let x = u64_of_le(b0, b1, b2, b3, b4, b5, b6, b7);
    assert(x as u8 == b0 && (x >> 8u64) as u8 == b1 && (x >> 16u64) as u8 == b2 && (x >> 24u64)
        as u8 == b3 && (x >> 32u64) as u8 == b4 && (x >> 40u64) as u8 == b5 && (x >> 48u64) as u8
        == b6 && (x >> 56u64) as u8 == b7) by (bit_vector)
        requires
            x == (b0 as u64) | ((b1 as u64) << 8u64) | ((b2 as u64) << 16u64) | ((b3 as u64)
                << 24u64) | ((b4 as u64) << 32u64) | ((b5 as u64) << 40u64) | ((b6 as u64)
                << 48u64) | ((b7 as u64) << 56u64),
    ;
    assert(le_u64(x) =~= seq![b0, b1, b2, b3, b4, b5, b6, b7]);
}

pub proof fn lemma_i64_bits(v: i64, u: u64)
    ensures
        ((v as u64) as i64) == v,
        ((u as i64) as u64) == u,
{
    assert(((v as u64) as i64) == v) by (bit_vector);
    assert(((u as i64) as u64) == u) by (bit_vector);
}

/// Appends the little-endian bytes of `v`.
pub fn push_u32_le(out: &mut Vec<u8>, v: u32)
    ensures
        final(out)@ == old(out)@ + le_u32(v),
{
    out.push(v as u8);
    out.push((v >> 8) as u8);
    out.push((v >> 16) as u8);
    out.push((v >> 24) as u8);
    assert(final(out)@ =~= old(out)@ + le_u32(v));
}

/// Appends the big-endian bytes of `v`.
pub fn push_u32_be(out: &mut Vec<u8>, v: u32)
    ensures
        final(out)@ == old(out)@ + be_u32(v),
{
    out.push((v >> 24) as u8);
    out.push((v >> 16) as u8);
    out.push((v >> 8) as u8);
    out.push(v as u8);
    assert(final(out)@ =~= old(out)@ + be_u32(v));
}

/// Appends the little-endian bytes of `v`.
pub fn push_u64_le(out: &mut Vec<u8>, v: u64)
    ensures
        final(out)@ == old(out)@ + le_u64(v),
{
    out.push(v as u8);
    out.push((v >> 8) as u8);
    out.push((v >> 16) as u8);
    out.push((v >> 24) as u8);
    out.push((v >> 32) as u8);
    out.push((v >> 40) as u8);
    out.push((v >> 48) as u8);
    out.push((v >> 56) as u8);
    assert(final(out)@ =~= old(out)@ + le_u64(v));
}

/// Appends the little-endian two's complement bytes of `v`.
pub fn push_i64_le(out: &mut Vec<u8>, v: i64)
    ensures
        final(out)@ == old(out)@ + le_i64(v),
{
    push_u64_le(out, v as u64);
}

/// Reads four little-endian bytes at `pos`.
pub fn read_u32_le(b: &[u8], pos: usize) -> (r: u32)
    requires
        pos + 4 <= b.len(),
    ensures
        le_u32(r) == b@.subrange(pos as int, pos + 4),
{
    let r = (b[pos] as u32) | ((b[pos + 1] as u32) << 8) | ((b[pos + 2] as u32) << 16) | ((b[pos
        + 3] as u32) << 24);
    proof {
        lemma_le_u32_of_bytes(b@[pos as int], b@[pos + 1], b@[pos + 2], b@[pos + 3]);
        assert(b@.subrange(pos as int, pos + 4) =~= seq![
            b@[pos as int],
            b@[pos + 1],
            b@[pos + 2],
            b@[pos + 3],
        ]);
    }
    r
}

/// Reads four big-endian bytes at `pos`.
pub fn read_u32_be(b: &[u8], pos: usize) -> (r: u32)
    requires
        pos + 4 <= b.len(),
    ensures
        be_u32(r) == b@.subrange(pos as int, pos + 4),
{
    let r = (b[pos + 3] as u32) | ((b[pos + 2] as u32) << 8) | ((b[pos + 1] as u32) << 16) | ((
    b[pos] as u32) << 24);
    proof {
        lemma_le_u32_of_bytes(b@[pos + 3], b@[pos + 2], b@[pos + 1], b@[pos as int]);
        assert(b@.subrange(pos as int, pos + 4) =~= be_u32(r));
    }
    r
}

/// Reads eight little-endian bytes at `pos`.
pub fn read_u64_le(b: &[u8], pos: usize) -> (r: u64)
    requires
        pos + 8 <= b.len(),
    ensures
        le_u64(r) == b@.subrange(pos as int, pos + 8),
{
    let r = (b[pos] as u64) | ((b[pos + 1] as u64) << 8) | ((b[pos + 2] as u64) << 16) | ((b[pos
        + 3] as u64) << 24) | ((b[pos + 4] as u64) << 32) | ((b[pos + 5] as u64) << 40) | ((b[pos
        + 6] as u64) << 48) | ((b[pos + 7] as u64) << 56);
    proof {
        lemma_le_u64_of_bytes(
            b@[pos as int],
            b@[pos + 1],
            b@[pos + 2],
            b@[pos + 3],
            b@[pos + 4],
            b@[pos + 5],
            b@[pos + 6],
            b@[pos + 7],
        );
        assert(b@.subrange(pos as int, pos + 8) =~= le_u64(r));
    }
    r
}

} // verus!

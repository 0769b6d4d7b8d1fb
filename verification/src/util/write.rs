//! Writing fixed-size integers into byte buffers.
use vstd::prelude::*;
use crate::util::read::{Endian, spec_u16, spec_u32, spec_u64};

verus! {

/// The two bytes of `v` (below 2^16) in the given byte order.
pub open spec fn spec_u16_bytes(v: int, e: Endian) -> Seq<u8> {
    if e == Endian::Little {
        seq![(v % 256) as u8, (v / 256) as u8]
    } else {
        seq![(v / 256) as u8, (v % 256) as u8]
    }
}

/// The four bytes of `v` (below 2^32) in the given byte order.
pub open spec fn spec_u32_bytes(v: int, e: Endian) -> Seq<u8> {
    if e == Endian::Little {
        spec_u16_bytes(v % 65536, e) + spec_u16_bytes(v / 65536, e)
    } else {
        spec_u16_bytes(v / 65536, e) + spec_u16_bytes(v % 65536, e)
    }
}

/// The eight bytes of `v` (below 2^64) in the given byte order.
pub open spec fn spec_u64_bytes(v: int, e: Endian) -> Seq<u8> {
    if e == Endian::Little {
        spec_u32_bytes(v % 4294967296, e) + spec_u32_bytes(v / 4294967296, e)
    } else {
        spec_u32_bytes(v / 4294967296, e) + spec_u32_bytes(v % 4294967296, e)
    }
}

/// Reading back the bytes of a 16-bit value gives the value.
pub proof fn lemma_u16_bytes_round_trip(v: int, e: Endian, s: Seq<u8>, pos: int)
    requires
        0 <= v < 65536,
        0 <= pos,
        pos + 2 <= s.len(),
        s.subrange(pos, pos + 2) == spec_u16_bytes(v, e),
    ensures
        spec_u16(s, pos, e) == v,
{
    assert(s[pos] == spec_u16_bytes(v, e)[0]);
    assert(s[pos + 1] == spec_u16_bytes(v, e)[1]);
}

/// Reading back the bytes of a 32-bit value gives the value.
pub proof fn lemma_u32_bytes_round_trip(v: int, e: Endian, s: Seq<u8>, pos: int)
    requires
        0 <= v < 4294967296,
        0 <= pos,
        pos + 4 <= s.len(),
        s.subrange(pos, pos + 4) == spec_u32_bytes(v, e),
    ensures
        spec_u32(s, pos, e) == v,
{
    let lo = v % 65536;
    let hi = v / 65536;
    let (a, b) = if e == Endian::Little {
        (lo, hi)
    } else {
        (hi, lo)
    };
    assert(s.subrange(pos, pos + 2) =~= s.subrange(pos, pos + 4).subrange(0, 2));
    assert(s.subrange(pos + 2, pos + 4) =~= s.subrange(pos, pos + 4).subrange(2, 4));
    assert(spec_u32_bytes(v, e).subrange(0, 2) =~= spec_u16_bytes(a, e));
    assert(spec_u32_bytes(v, e).subrange(2, 4) =~= spec_u16_bytes(b, e));
    lemma_u16_bytes_round_trip(a, e, s, pos);
    lemma_u16_bytes_round_trip(b, e, s, pos + 2);
}

/// Reading back the bytes of a 64-bit value gives the value.
pub proof fn lemma_u64_bytes_round_trip(v: int, e: Endian, s: Seq<u8>, pos: int)
    requires
        0 <= v < 18446744073709551616,
        0 <= pos,
        pos + 8 <= s.len(),
        s.subrange(pos, pos + 8) == spec_u64_bytes(v, e),
    ensures
        spec_u64(s, pos, e) == v,
{
    let lo = v % 4294967296;
    let hi = v / 4294967296;
    let (a, b) = if e == Endian::Little {
        (lo, hi)
    } else {
        (hi, lo)
    };
    assert(s.subrange(pos, pos + 4) =~= s.subrange(pos, pos + 8).subrange(0, 4));
    assert(s.subrange(pos + 4, pos + 8) =~= s.subrange(pos, pos + 8).subrange(4, 8));
    assert(spec_u64_bytes(v, e).subrange(0, 4) =~= spec_u32_bytes(a, e));
    assert(spec_u64_bytes(v, e).subrange(4, 8) =~= spec_u32_bytes(b, e));
    lemma_u32_bytes_round_trip(a, e, s, pos);
    lemma_u32_bytes_round_trip(b, e, s, pos + 4);
}

/// Appends the two bytes of `v`.
pub fn push_u16(out: &mut Vec<u8>, v: u16, e: Endian)
    ensures
        final(out)@ == old(out)@ + spec_u16_bytes(v as int, e),
{
    let lo = (v % 256) as u8;
    let hi = (v / 256) as u8;
    match e {
        Endian::Little => {
            out.push(lo);
            out.push(hi);
        },
        Endian::Big => {
            out.push(hi);
            out.push(lo);
        },
    }
    assert(out@ =~= old(out)@ + spec_u16_bytes(v as int, e));
}

/// Appends the four bytes of `v`.
pub fn push_u32(out: &mut Vec<u8>, v: u32, e: Endian)
    ensures
        final(out)@ == old(out)@ + spec_u32_bytes(v as int, e),
{
    let lo = (v % 65536) as u16;
    let hi = (v / 65536) as u16;
    match e {
        Endian::Little => {
            push_u16(out, lo, e);
            push_u16(out, hi, e);
        },
        Endian::Big => {
            push_u16(out, hi, e);
            push_u16(out, lo, e);
        },
    }
    assert(out@ =~= old(out)@ + spec_u32_bytes(v as int, e));
}

/// Appends the eight bytes of `v`.
pub fn push_u64(out: &mut Vec<u8>, v: u64, e: Endian)
    ensures
        final(out)@ == old(out)@ + spec_u64_bytes(v as int, e),
{
    let lo = (v % 4294967296) as u32;
    let hi = (v / 4294967296) as u32;
    match e {
        Endian::Little => {
            push_u32(out, lo, e);
            push_u32(out, hi, e);
        },
        Endian::Big => {
            push_u32(out, hi, e);
            push_u32(out, lo, e);
        },
    }
    assert(out@ =~= old(out)@ + spec_u64_bytes(v as int, e));
}

/// Appends `bytes`.
pub fn push_bytes(out: &mut Vec<u8>, bytes: &[u8])
    ensures
        final(out)@ == old(out)@ + bytes@,
{
    let n = bytes.len();
    let mut k: usize = 0;
    while k < n
        invariant
            n == bytes@.len(),
            k <= n,
            out@ == old(out)@ + bytes@.subrange(0, k as int),
        decreases n - k,
    {
        out.push(bytes[k]);
        proof {
            assert(bytes@.subrange(0, k + 1) =~= bytes@.subrange(0, k as int).push(bytes@[k as int]));
        }
        k = k + 1;
    }
    assert(bytes@.subrange(0, n as int) =~= bytes@);
}

} // verus!

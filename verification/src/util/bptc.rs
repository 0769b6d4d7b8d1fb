//! Decoding of BPTC blocks: BC6H (half-float RGB) and BC7 (RGBA). A block is a
//! 128-bit little-endian value read from its least significant bit on.
use vstd::prelude::*;
use vstd::arithmetic::power2::{pow2, lemma_pow2_adds, lemma_pow2_pos, lemma2_to64};
use crate::util::read::{Endian, read_u64, spec_u64};
use crate::util::bcdec::{block_fits, block_image, write_block};

verus! {

/// The 128 bits of a block that are still to be read, low word first.
pub struct Bitstream {
    pub low: u64,
    pub high: u64,
}

/// The value of the bits that are still to be read.
pub open spec fn stream_value(b: Bitstream) -> int {
    b.low + 18446744073709551616 * b.high
}

/// The value of the 16 bytes of a block, little-endian.
pub open spec fn spec_block_value(s: Seq<u8>) -> int {
    spec_u64(s, 0, Endian::Little) + 18446744073709551616 * spec_u64(s, 8, Endian::Little)
}

/// The `n` bits of `v` from bit `pos` on.
pub open spec fn spec_bits(v: int, pos: int, n: int) -> int {
    (v / pow2(pos as nat) as int) % (pow2(n as nat) as int)
}

proof fn lemma_pow2_le(a: nat, b: nat)
    requires
        a <= b,
    ensures
        pow2(a) <= pow2(b),
{
    if a < b {
        vstd::arithmetic::power2::lemma_pow2_strictly_increases(a, b);
    }
}

proof fn lemma_one_shl(n: u64)
    requires
        n < 64,
    ensures
        (1u64 << n) == pow2(n as nat),
        pow2(n as nat) <= u64::MAX,
{
    vstd::bits::lemma_u64_pow2_no_overflow(n as nat);
    vstd::bits::lemma_u64_shl_is_mul(1, n);
}

proof fn lemma_or_disjoint(a: u64, c: u64, n: u64, m: u64)
    by (bit_vector)
    requires
        1 <= n < 64,
        m == 64 - n,
    ensures
        (a >> n) | (c << m) == (a >> n) + (c << m),
{
}

/// Takes the `num_bits` lowest bits of the stream.
fn bitstream_read_bits(bstream: &mut Bitstream, num_bits: i32) -> (r: i32)
    requires
        1 <= num_bits <= 16,
    ensures
        r == stream_value(*old(bstream)) % (pow2(num_bits as nat) as int),
        stream_value(*final(bstream)) == stream_value(*old(bstream)) / (pow2(num_bits as nat) as int),
{
    let n = num_bits as u64;
    let low = bstream.low;
    let high = bstream.high;
    proof {
        lemma_one_shl(n);
        lemma_pow2_pos(n as nat);
        lemma_pow2_pos((64 - n) as nat);
        lemma_pow2_adds(n as nat, (64 - n) as nat);
        lemma2_to64();
    }
    let mask: u64 = (1u64 << n) - 1;
    let bits: u64 = low & mask;
    let top: u64 = high & mask;
    proof {
        assert(mask == vstd::bits::low_bits_mask(n as nat) as u64);
        vstd::bits::lemma_u64_low_bits_mask_is_mod(low, n as nat);
        vstd::bits::lemma_u64_low_bits_mask_is_mod(high, n as nat);
        assert(top < pow2(n as nat));
        let p = pow2(n as nat) as int;
        let q = pow2((64 - n) as nat) as int;
        assert(top * q <= (p - 1) * q) by (nonlinear_arith)
            requires
                top <= p - 1,
                q > 0,
        ;
        assert((p - 1) * q == p * q - q) by (nonlinear_arith);
        vstd::bits::lemma_u64_shl_is_mul(top, (64 - n) as u64);
        vstd::bits::lemma_u64_shr_is_div(low, n);
        vstd::bits::lemma_u64_shr_is_div(high, n);
        lemma_or_disjoint(low, top, n, (64 - n) as u64);
    }
    let new_low = (low >> n) | (top << (64 - n));
    let new_high = high >> n;
    bstream.low = new_low;
    bstream.high = new_high;
    proof {
        let p = pow2(n as nat) as int;
        let q = pow2((64 - n) as nat) as int;
        let lo = low as int;
        let hi = high as int;
        let x = lo + 18446744073709551616 * hi;
        let quo = lo / p + q * (hi % p) + 18446744073709551616 * (hi / p);
        vstd::arithmetic::div_mod::lemma_fundamental_div_mod(lo, p);
        vstd::arithmetic::div_mod::lemma_fundamental_div_mod(hi, p);
        assert(quo * p + lo % p == x) by (nonlinear_arith)
            requires
                quo == lo / p + q * (hi % p) + 18446744073709551616 * (hi / p),
                lo == p * (lo / p) + lo % p,
                hi == p * (hi / p) + hi % p,
                q * p == 18446744073709551616,
                x == lo + 18446744073709551616 * hi,
        ;
        vstd::arithmetic::div_mod::lemma_mod_pos_bound(lo, p);
        vstd::arithmetic::div_mod::lemma_fundamental_div_mod_converse(x, p, quo, lo % p);
        assert(new_low == lo / p + (hi % p) * q);
        assert(new_high == hi / p);
        assert((hi % p) * q == q * (hi % p)) by (nonlinear_arith);
        assert(stream_value(*bstream) == new_low + 18446744073709551616 * new_high);
        assert(stream_value(*bstream) == quo);
    }
    bits as i32
}

/// Takes the lowest bit of the stream.
fn bitstream_read_bit(bstream: &mut Bitstream) -> (r: i32)
    ensures
        r == stream_value(*old(bstream)) % 2,
        stream_value(*final(bstream)) == stream_value(*old(bstream)) / 2,
{
    proof {
        lemma2_to64();
    }
    bitstream_read_bits(bstream, 1)
}

/// `x` with its `n` lowest bits in reverse order, the rest dropped, accumulated onto
/// `acc`.
pub open spec fn spec_reverse_onto(x: int, n: int, acc: int) -> int
    decreases n,
{
    if n <= 0 {
        acc
    } else {
        spec_reverse_onto(x / 2, n - 1, 2 * acc + x % 2)
    }
}

/// The `n` lowest bits of `x` in reverse order.
pub open spec fn spec_reverse_bits(x: int, n: int) -> int {
    spec_reverse_onto(x, n, 0)
}

proof fn lemma_reverse_bound(x: int, n: int, acc: int)
    requires
        0 <= x,
        0 <= n,
        0 <= acc,
    ensures
        acc * pow2(n as nat) <= spec_reverse_onto(x, n, acc),
        spec_reverse_onto(x, n, acc) < (acc + 1) * pow2(n as nat),
    decreases n,
{
    if n == 0 {
        assert(pow2(0) == 1) by {
            lemma2_to64();
        }
        assert(spec_reverse_onto(x, n, acc) == acc);
        assert(acc * pow2(n as nat) == acc) by (nonlinear_arith)
            requires
                pow2(n as nat) == 1,
        ;
        assert((acc + 1) * pow2(n as nat) == acc + 1) by (nonlinear_arith)
            requires
                pow2(n as nat) == 1,
        ;
    } else {
        let a2 = 2 * acc + x % 2;
        let q = pow2((n - 1) as nat) as int;
        lemma_reverse_bound(x / 2, n - 1, a2);
        vstd::arithmetic::power2::lemma_pow2_unfold(n as nat);
        lemma_pow2_pos((n - 1) as nat);
        assert(spec_reverse_onto(x, n, acc) == spec_reverse_onto(x / 2, n - 1, a2));
        assert((a2 + 1) * q <= (acc + 1) * (2 * q) && acc * (2 * q) <= a2 * q) by (nonlinear_arith)
            requires
                a2 == 2 * acc + x % 2,
                0 <= x % 2 <= 1,
                q > 0,
        ;
        assert(pow2(n as nat) == 2 * q);
        assert(acc * pow2(n as nat) <= spec_reverse_onto(x, n, acc));
        assert(spec_reverse_onto(x, n, acc) < (acc + 1) * pow2(n as nat));
    }
}

/// Takes the `num_bits` lowest bits of the stream, the first taken becoming the most
/// significant.
fn bitstream_read_bits_r(bstream: &mut Bitstream, num_bits: i32) -> (r: i32)
    requires
        1 <= num_bits <= 16,
    ensures
        r == spec_reverse_bits(stream_value(*old(bstream)) % (pow2(num_bits as nat) as int), num_bits as int),
        stream_value(*final(bstream)) == stream_value(*old(bstream)) / (pow2(num_bits as nat) as int),
{
    let mut bits: i32 = bitstream_read_bits(bstream, num_bits);
    let ghost x = bits as int;
    let mut result: i32 = 0;
    let mut left: i32 = num_bits;
    proof {
        lemma_pow2_pos(num_bits as nat);
        vstd::arithmetic::div_mod::lemma_mod_pos_bound(stream_value(*old(bstream)), pow2(num_bits as nat) as int);
        vstd::bits::lemma_u64_pow2_no_overflow(num_bits as nat);
        lemma_reverse_bound(x, num_bits as int, 0);
        lemma2_to64();
        vstd::arithmetic::power2::lemma_pow2_strictly_increases(num_bits as nat, 17);
    }
    while left > 0
        invariant
            0 <= left <= num_bits <= 16,
            0 <= bits,
            0 <= result,
            spec_reverse_onto(bits as int, left as int, result as int) == spec_reverse_bits(x, num_bits as int),
            spec_reverse_bits(x, num_bits as int) < pow2(16),
            pow2(16) == 65536,
        decreases left,
    {
        proof {
            assert(spec_reverse_onto(bits as int, left as int, result as int) == spec_reverse_onto(
                bits as int / 2,
                left - 1,
                2 * result + bits % 2,
            ));
            lemma_reverse_bound(bits as int / 2, left - 1, 2 * result + bits % 2);
            lemma_pow2_pos((left - 1) as nat);
            let a2 = 2 * result + bits % 2;
            assert(2 * result + bits % 2 <= (2 * result + bits % 2) * pow2((left - 1) as nat))
                by (nonlinear_arith)
                requires
                    pow2((left - 1) as nat) >= 1,
                    2 * result + bits % 2 >= 0,
            ;
            assert(a2 < 65536);
        }
        result = 2 * result + bits % 2;
        bits = bits / 2;
        left = left - 1;
    }
    result
}

/// A stream over a block, with the block's value and the number of bits taken.
struct BitReader {
    bs: Bitstream,
    origin: Ghost<int>,
    pos: Ghost<int>,
}

impl BitReader {
    spec fn wf(&self) -> bool {
        &&& self.origin@ >= 0
        &&& self.pos@ >= 0
        &&& stream_value(self.bs) == self.origin@ / (pow2(self.pos@ as nat) as int)
    }

    fn new(block: &[u8]) -> (r: Self)
        requires
            block@.len() >= 16,
        ensures
            r.wf(),
            r.origin@ == spec_block_value(block@),
            r.pos@ == 0,
    {
        let low = read_u64(block, 0, Endian::Little).unwrap();
        let high = read_u64(block, 8, Endian::Little).unwrap();
        let r = BitReader {
            bs: Bitstream { low, high },
            origin: Ghost(spec_block_value(block@)),
            pos: Ghost(0),
        };
        proof {
            assert(pow2(0) == 1) by {
                lemma2_to64();
            }
            assert(spec_block_value(block@) == low + 18446744073709551616 * high);
            assert(spec_block_value(block@) / 1 == spec_block_value(block@));
        }
        r
    }

    proof fn lemma_advance(v: int, p: int, n: int)
        requires
            v >= 0,
            p >= 0,
            n >= 0,
        ensures
            (v / (pow2(p as nat) as int)) / (pow2(n as nat) as int) == v / (pow2((p + n) as nat) as int),
    {
        lemma_pow2_pos(p as nat);
        lemma_pow2_pos(n as nat);
        vstd::arithmetic::div_mod::lemma_div_denominator(v, pow2(p as nat) as int, pow2(n as nat) as int);
        lemma_pow2_adds(p as nat, n as nat);
    }

    /// Takes the next `n` bits.
    fn read(&mut self, n: i32) -> (r: i32)
        requires
            old(self).wf(),
            1 <= n <= 16,
        ensures
            final(self).wf(),
            final(self).origin@ == old(self).origin@,
            final(self).pos@ == old(self).pos@ + n,
            r == spec_bits(old(self).origin@, old(self).pos@, n as int),
            0 <= r < pow2(n as nat),
    {
        proof {
            Self::lemma_advance(self.origin@, self.pos@, n as int);
            lemma_pow2_pos(n as nat);
            vstd::arithmetic::div_mod::lemma_mod_pos_bound(stream_value(self.bs), pow2(n as nat) as int);
        }
        let r = bitstream_read_bits(&mut self.bs, n);
        self.pos = Ghost(self.pos@ + n);
        r
    }

    /// Takes the next bit.
    fn read_bit(&mut self) -> (r: i32)
        requires
            old(self).wf(),
        ensures
            final(self).wf(),
            final(self).origin@ == old(self).origin@,
            final(self).pos@ == old(self).pos@ + 1,
            r == spec_bits(old(self).origin@, old(self).pos@, 1),
            0 <= r < 2,
    {
        proof {
            Self::lemma_advance(self.origin@, self.pos@, 1);
            lemma2_to64();
        }
        let r = bitstream_read_bit(&mut self.bs);
        self.pos = Ghost(self.pos@ + 1);
        r
    }

    /// Takes the next `n` bits, the first taken becoming the most significant.
    fn read_reversed(&mut self, n: i32) -> (r: i32)
        requires
            old(self).wf(),
            1 <= n <= 16,
        ensures
            final(self).wf(),
            final(self).origin@ == old(self).origin@,
            final(self).pos@ == old(self).pos@ + n,
            r == spec_reverse_bits(spec_bits(old(self).origin@, old(self).pos@, n as int), n as int),
            0 <= r < pow2(n as nat),
    {
        proof {
            Self::lemma_advance(self.origin@, self.pos@, n as int);
            lemma_pow2_pos(n as nat);
            vstd::arithmetic::div_mod::lemma_mod_pos_bound(stream_value(self.bs), pow2(n as nat) as int);
            lemma_reverse_bound(stream_value(self.bs) % (pow2(n as nat) as int), n as int, 0);
        }
        let r = bitstream_read_bits_r(&mut self.bs, n);
        self.pos = Ghost(self.pos@ + n);
        r
    }
}

/// Subsets of a BC7 block, by mode.
pub const BC7_SUBSETS: [u32; 8] = [3, 2, 3, 2, 1, 1, 1, 2];

/// Bits of the partition number of a BC7 block, by mode.
pub const BC7_PARTITION_BITS: [u32; 8] = [4, 6, 6, 6, 0, 0, 0, 6];

/// Bits of each color channel of a BC7 endpoint, by mode, before its p-bit.
pub const BC7_COLOR_BITS: [u32; 8] = [4, 6, 5, 7, 5, 7, 7, 5];

/// Bits of the alpha channel of a BC7 endpoint, by mode (none: opaque).
pub const BC7_ALPHA_BITS: [u32; 8] = [0, 0, 0, 0, 6, 8, 7, 5];

/// Bits of a BC7 texel index, by mode.
pub const BC7_INDEX_BITS: [u32; 8] = [3, 3, 2, 2, 2, 2, 4, 2];

/// Bits of a BC7 texel's second index, by mode (none: one index per texel).
pub const BC7_INDEX2_BITS: [u32; 8] = [0, 0, 0, 0, 3, 2, 0, 0];

proof fn lemma_bc7_tables(m: int)
    requires
        0 <= m < 8,
    ensures
        BC7_SUBSETS@[m] == (if m == 0 || m == 2 {
            3u32
        } else if m == 1 || m == 3 || m == 7 {
            2u32
        } else {
            1u32
        }),
        BC7_PARTITION_BITS@[m] == (if m == 0 {
            4u32
        } else if m <= 3 || m == 7 {
            6u32
        } else {
            0u32
        }),
        4 <= BC7_COLOR_BITS@[m] <= 7,
        BC7_ALPHA_BITS@[m] <= 8,
        BC7_ALPHA_BITS@[m] == 0 <==> m < 4,
        bc7_has_pbits(m) ==> BC7_COLOR_BITS@[m] <= 7 && BC7_ALPHA_BITS@[m] <= 7,
        BC7_INDEX_BITS@[m] == (if m == 0 || m == 1 {
            3u32
        } else if m == 6 {
            4u32
        } else {
            2u32
        }),
        BC7_INDEX2_BITS@[m] == (if m == 4 {
            3u32
        } else if m == 5 {
            2u32
        } else {
            0u32
        }),
{
}

/// Interpolation weights (out of 64) for 2-, 3- and 4-bit indices.
pub const BPTC_WEIGHTS2: [u32; 4] = [0, 21, 43, 64];

pub const BPTC_WEIGHTS3: [u32; 8] = [0, 9, 18, 27, 37, 46, 55, 64];

pub const BPTC_WEIGHTS4: [u32; 16] = [0, 4, 9, 13, 17, 21, 26, 30, 34, 38, 43, 47, 51, 55, 60, 64];

/// Partitions of a block into two subsets: bit `t` of row `p` is the subset of texel `t`.
pub const PARTITIONS2: [u32; 64] = [
    0xcccc, 0x8888, 0xeeee, 0xecc8, 0xc880, 0xfeec, 0xfec8, 0xec80,
    0xc800, 0xffec, 0xfe80, 0xe800, 0xffe8, 0xff00, 0xfff0, 0xf000,
    0xf710, 0x008e, 0x7100, 0x08ce, 0x008c, 0x7310, 0x3100, 0x8cce,
    0x088c, 0x3110, 0x6666, 0x366c, 0x17e8, 0x0ff0, 0x718e, 0x399c,
    0xaaaa, 0xf0f0, 0x5a5a, 0x33cc, 0x3c3c, 0x55aa, 0x9696, 0xa55a,
    0x73ce, 0x13c8, 0x324c, 0x3bdc, 0x6996, 0xc33c, 0x9966, 0x0660,
    0x0272, 0x04e4, 0x4e40, 0x2720, 0xc936, 0x936c, 0x39c6, 0x639c,
    0x9336, 0x9cc6, 0x817e, 0xe718, 0xccf0, 0x0fcc, 0x7744, 0xee22,
];

/// The anchor texel of subset 1 in each partition into two subsets.
pub const ANCHORS2: [u32; 64] = [
    15, 15, 15, 15, 15, 15, 15, 15, 15, 15, 15, 15, 15, 15, 15, 15,
    15, 2, 8, 2, 2, 8, 8, 15, 2, 8, 2, 2, 8, 8, 2, 2,
    15, 15, 6, 8, 2, 8, 15, 15, 2, 8, 2, 2, 2, 15, 15, 6,
    6, 2, 6, 8, 15, 15, 2, 2, 15, 15, 15, 15, 15, 2, 2, 15,
];

/// Partitions of a block into three subsets: bit `t` of row `p` is set when texel `t`
/// is in subset 1.
pub const PARTITIONS3_FIRST: [u32; 64] = [
    0x08cc, 0x8cc8, 0xcc80, 0xec00, 0x3300, 0x00cc, 0xff00, 0xcccc,
    0x0f00, 0x0ff0, 0x00f0, 0x4444, 0x6666, 0x2222, 0x136c, 0x008c,
    0x36c8, 0x08ce, 0x3330, 0xf000, 0x00ee, 0x8888, 0x22c0, 0x4430,
    0x0c22, 0x0344, 0x6996, 0x9960, 0x0330, 0x0066, 0xc22c, 0x8c00,
    0x1300, 0xc400, 0x004c, 0x2222, 0x00f0, 0x2492, 0x2942, 0xc30c,
    0xc03c, 0x00aa, 0xaa00, 0x3030, 0xc0c0, 0x9090, 0xa00a, 0xaaa0,
    0x0aaa, 0xe0e0, 0x7070, 0x6660, 0x0ee0, 0x0770, 0x0666, 0x6600,
    0x0066, 0x0cc0, 0x0330, 0x6000, 0x8080, 0x1010, 0x000a, 0x08ce,
];

/// Bit `t` of row `p` is set when texel `t` is in subset 2.
pub const PARTITIONS3_SECOND: [u32; 64] = [
    0xf600, 0x7300, 0x3310, 0x00ce, 0xcc00, 0xcc00, 0x00cc, 0x3300,
    0xf000, 0xf000, 0xff00, 0x8888, 0x8888, 0xcccc, 0xec80, 0x7310,
    0xc800, 0x3100, 0xccc0, 0x0ccc, 0xee00, 0x7700, 0xcc00, 0x3300,
    0x00cc, 0xfc88, 0x0660, 0x6600, 0xc88c, 0xf900, 0x0cc0, 0x7310,
    0xec80, 0x08ce, 0xec80, 0x4444, 0x0f00, 0x4924, 0x4294, 0x0c30,
    0x03c0, 0xff00, 0x5500, 0xcccc, 0x0c0c, 0x6666, 0x0ff0, 0x5550,
    0xf000, 0x0e0e, 0x8888, 0x9990, 0xe00e, 0x8888, 0xf000, 0x9900,
    0xff00, 0xc00c, 0xcccc, 0x9000, 0x0808, 0xeeee, 0xfff0, 0x7310,
];

/// The anchor texels of subsets 1 and 2 in each partition into three subsets.
pub const ANCHORS3_FIRST: [u32; 64] = [
    3, 3, 15, 15, 8, 3, 15, 15, 8, 8, 6, 6, 6, 5, 3, 3,
    3, 3, 8, 15, 3, 3, 6, 10, 5, 8, 8, 6, 8, 5, 15, 15,
    8, 15, 3, 5, 6, 10, 8, 15, 15, 3, 15, 5, 15, 15, 15, 15,
    3, 15, 5, 5, 5, 8, 5, 10, 5, 10, 8, 13, 15, 12, 3, 3,
];

pub const ANCHORS3_SECOND: [u32; 64] = [
    15, 8, 8, 3, 15, 15, 3, 8, 15, 15, 15, 15, 15, 15, 15, 8,
    15, 8, 15, 3, 15, 8, 15, 8, 3, 15, 6, 10, 15, 15, 10, 8,
    15, 3, 15, 10, 10, 8, 9, 10, 6, 15, 8, 15, 3, 6, 6, 8,
    15, 3, 15, 15, 15, 15, 15, 15, 15, 15, 15, 15, 3, 15, 15, 8,
];

/// The subset of texel `t` in partition `p` of a block of `subsets` subsets.
pub open spec fn bptc_subset(subsets: int, p: int, t: int) -> int {
    if subsets == 1 {
        0
    } else if subsets == 2 {
        (PARTITIONS2@[p] as int / pow2(t as nat) as int) % 2
    } else if (PARTITIONS3_FIRST@[p] as int / pow2(t as nat) as int) % 2 == 1 {
        1
    } else if (PARTITIONS3_SECOND@[p] as int / pow2(t as nat) as int) % 2 == 1 {
        2
    } else {
        0
    }
}

/// Whether texel `t` is the anchor of its subset: texel 0 for subset 0, the tabled
/// texel for the others. The first index bit of an anchor is implied (zero) and not
/// stored.
pub open spec fn bptc_is_anchor(subsets: int, p: int, t: int) -> bool {
    ||| t == 0
    ||| subsets == 2 && t == ANCHORS2@[p]
    ||| subsets == 3 && (t == ANCHORS3_FIRST@[p] || t == ANCHORS3_SECOND@[p])
}

fn mask_bit(mask: u32, t: u32) -> (r: u32)
    requires
        t < 32,
    ensures
        r == (mask as int / pow2(t as nat) as int) % 2,
        r < 2,
{
    proof {
        vstd::bits::lemma_u32_shr_is_div(mask, t);
    }
    (mask >> t) % 2
}

fn partition_subset(subsets: u32, p: u32, t: u32) -> (r: u32)
    requires
        1 <= subsets <= 3,
        p < 64,
        t < 16,
    ensures
        r == bptc_subset(subsets as int, p as int, t as int),
        r < subsets,
{
    if subsets == 1 {
        0
    } else if subsets == 2 {
        mask_bit(PARTITIONS2[p as usize], t)
    } else if mask_bit(PARTITIONS3_FIRST[p as usize], t) == 1 {
        1
    } else if mask_bit(PARTITIONS3_SECOND[p as usize], t) == 1 {
        2
    } else {
        0
    }
}

fn is_anchor(subsets: u32, p: u32, t: u32) -> (r: bool)
    requires
        1 <= subsets <= 3,
        p < 64,
    ensures
        r == bptc_is_anchor(subsets as int, p as int, t as int),
{
    t == 0 || (subsets == 2 && t == ANCHORS2[p as usize]) || (subsets == 3 && (t
        == ANCHORS3_FIRST[p as usize] || t == ANCHORS3_SECOND[p as usize]))
}

/// Interpolation weight of index `i` of `bits` bits.
pub open spec fn bptc_weight(bits: int, i: int) -> int {
    if bits == 2 {
        BPTC_WEIGHTS2@[i] as int
    } else if bits == 3 {
        BPTC_WEIGHTS3@[i] as int
    } else {
        BPTC_WEIGHTS4@[i] as int
    }
}

fn weight(bits: u32, i: u32) -> (r: u32)
    requires
        2 <= bits <= 4,
        i < pow2(bits as nat),
    ensures
        r == bptc_weight(bits as int, i as int),
        r <= 64,
{
    proof {
        lemma2_to64();
    }
    if bits == 2 {
        BPTC_WEIGHTS2[i as usize]
    } else if bits == 3 {
        BPTC_WEIGHTS3[i as usize]
    } else {
        BPTC_WEIGHTS4[i as usize]
    }
}

/// The value `w`/64 of the way from `a` to `b`, rounded.
pub open spec fn bptc_interpolate(a: int, b: int, w: int) -> int {
    (a * (64 - w) + b * w + 32) / 64
}

fn interpolate_u8(a: u32, b: u32, w: u32) -> (r: u32)
    requires
        a < 256,
        b < 256,
        w <= 64,
    ensures
        r == bptc_interpolate(a as int, b as int, w as int),
        r < 256,
{
    proof {
        assert(a * (64 - w) + b * w <= 255 * 64) by (nonlinear_arith)
            requires
                a < 256,
                b < 256,
                w <= 64,
        ;
        lemma2_to64();
    }
    let x: u32 = a * (64 - w) + b * w + 32;
    proof {
        vstd::bits::lemma_u32_shr_is_div(x, 6);
    }
    x >> 6
}

/// The BC7 mode of a block: the position of its lowest set bit among the first 8
/// bits, from `m` on; 8 when none is set.
pub open spec fn bc7_mode_from(v: int, m: int) -> int
    decreases 8 - m,
{
    if m >= 8 {
        8
    } else if spec_bits(v, m, 1) == 1 {
        m
    } else {
        bc7_mode_from(v, m + 1)
    }
}

pub open spec fn bc7_mode(v: int) -> int {
    bc7_mode_from(v, 0)
}

pub open spec fn bc7_rotation_bits(m: int) -> int {
    if m == 4 || m == 5 {
        2
    } else {
        0
    }
}

pub open spec fn bc7_selection_bits(m: int) -> int {
    if m == 4 {
        1
    } else {
        0
    }
}

/// Whether each endpoint carries a p-bit below its channels (mode 1: one per pair).
pub open spec fn bc7_has_pbits(m: int) -> bool {
    m == 0 || m == 1 || m == 3 || m == 6 || m == 7
}

pub open spec fn bc7_endpoint_count(m: int) -> int {
    2 * BC7_SUBSETS@[m] as int
}

pub open spec fn bc7_pbit_count(m: int) -> int {
    if m == 1 {
        2
    } else if bc7_has_pbits(m) {
        bc7_endpoint_count(m)
    } else {
        0
    }
}

/// Layout of a BC7 block of mode `m`: the mode bits, the partition number, the
/// rotation and index selection; the color channels, channel by channel, endpoint by
/// endpoint; the alpha channels; the p-bits; the indices; the second indices.
pub open spec fn bc7_header_len(m: int) -> int {
    m + 1 + BC7_PARTITION_BITS@[m] + bc7_rotation_bits(m) + bc7_selection_bits(m)
}

pub open spec fn bc7_alpha_start(m: int) -> int {
    bc7_header_len(m) + 3 * bc7_endpoint_count(m) * BC7_COLOR_BITS@[m]
}

pub open spec fn bc7_pbit_start(m: int) -> int {
    bc7_alpha_start(m) + bc7_endpoint_count(m) * BC7_ALPHA_BITS@[m]
}

pub open spec fn bc7_index_start(m: int) -> int {
    bc7_pbit_start(m) + bc7_pbit_count(m)
}

pub open spec fn bc7_partition(v: int, m: int) -> int {
    spec_bits(v, m + 1, BC7_PARTITION_BITS@[m] as int)
}

pub open spec fn bc7_rotation(v: int, m: int) -> int {
    spec_bits(v, m + 1 + BC7_PARTITION_BITS@[m], bc7_rotation_bits(m))
}

pub open spec fn bc7_selection(v: int, m: int) -> int {
    spec_bits(v, m + 1 + BC7_PARTITION_BITS@[m] + bc7_rotation_bits(m), bc7_selection_bits(m))
}

/// Channel `c` (red, green, blue, alpha) of endpoint `e` as stored.
pub open spec fn bc7_raw(v: int, m: int, e: int, c: int) -> int {
    let cb = BC7_COLOR_BITS@[m] as int;
    let ab = BC7_ALPHA_BITS@[m] as int;
    if c < 3 {
        spec_bits(v, bc7_header_len(m) + (c * bc7_endpoint_count(m) + e) * cb, cb)
    } else {
        spec_bits(v, bc7_alpha_start(m) + e * ab, ab)
    }
}

/// The p-bit of endpoint `e`.
pub open spec fn bc7_pbit(v: int, m: int, e: int) -> int {
    if m == 1 {
        spec_bits(v, bc7_pbit_start(m) + e / 2, 1)
    } else if bc7_has_pbits(m) {
        spec_bits(v, bc7_pbit_start(m) + e, 1)
    } else {
        0
    }
}

/// A channel of `b` bits widened to 8 by repeating its high bits below it.
pub open spec fn bc7_expand(x: int, b: int) -> int {
    let y = x * pow2((8 - b) as nat) as int;
    y + y / pow2(b as nat) as int
}

/// Channel `c` of an endpoint stored as `raw` with p-bit `pbit`, widened to 8 bits;
/// alpha is 255 in the modes that store none.
pub open spec fn bc7_endpoint_from(raw: int, pbit: int, m: int, c: int) -> int {
    let bits = if c < 3 {
        BC7_COLOR_BITS@[m] as int
    } else {
        BC7_ALPHA_BITS@[m] as int
    };
    if c == 3 && BC7_ALPHA_BITS@[m] == 0 {
        255
    } else if bc7_has_pbits(m) {
        bc7_expand(2 * raw + pbit, bits + 1)
    } else {
        bc7_expand(raw, bits)
    }
}

pub open spec fn bc7_endpoint(v: int, m: int, e: int, c: int) -> int {
    bc7_endpoint_from(bc7_raw(v, m, e, c), bc7_pbit(v, m, e), m, c)
}

pub open spec fn bc7_subset(v: int, m: int, t: int) -> int {
    bptc_subset(BC7_SUBSETS@[m] as int, bc7_partition(v, m), t)
}

/// Bits of the index of texel `t`: one fewer on an anchor texel.
pub open spec fn bc7_index_size(v: int, m: int, t: int) -> int {
    BC7_INDEX_BITS@[m] - if bptc_is_anchor(BC7_SUBSETS@[m] as int, bc7_partition(v, m), t) {
        1int
    } else {
        0int
    }
}

pub open spec fn bc7_index_offset(v: int, m: int, t: int) -> int
    decreases t,
{
    if t <= 0 {
        0
    } else {
        bc7_index_offset(v, m, t - 1) + bc7_index_size(v, m, t - 1)
    }
}

pub open spec fn bc7_index(v: int, m: int, t: int) -> int {
    spec_bits(v, bc7_index_start(m) + bc7_index_offset(v, m, t), bc7_index_size(v, m, t))
}

/// Where the second index of texel `t` starts, after the first indices; texel 0
/// stores one bit fewer.
pub open spec fn bc7_index2_offset(m: int, t: int) -> int {
    let b2 = BC7_INDEX2_BITS@[m] as int;
    if t == 0 || b2 == 0 {
        0
    } else {
        b2 * t - 1
    }
}

pub open spec fn bc7_index2(v: int, m: int, t: int) -> int {
    let b2 = BC7_INDEX2_BITS@[m] as int;
    spec_bits(
        v,
        bc7_index_start(m) + bc7_index_offset(v, m, 16) + bc7_index2_offset(m, t),
        if t == 0 {
            b2 - 1
        } else {
            b2
        },
    )
}

/// Channel `c` of texel `t` before the rotation: the endpoints of the texel's subset
/// interpolated by the weight of its index (colors and alpha may take the two indices
/// in either order).
pub open spec fn bc7_unrotated_channel(v: int, m: int, t: int, c: int) -> int {
    let s = bc7_subset(v, m, t);
    let ib2 = BC7_INDEX2_BITS@[m] as int;
    let w1 = bptc_weight(BC7_INDEX_BITS@[m] as int, bc7_index(v, m, t));
    let w2 = bptc_weight(ib2, bc7_index2(v, m, t));
    let sel = bc7_selection(v, m);
    let w = if ib2 != 0 && ((c == 3) == (sel == 0)) {
        w2
    } else {
        w1
    };
    bptc_interpolate(bc7_endpoint(v, m, 2 * s, c), bc7_endpoint(v, m, 2 * s + 1, c), w)
}

/// The channel whose value lands in channel `c` when the rotation `rot` swaps alpha
/// with red, green or blue.
pub open spec fn bc7_rotated(rot: int, c: int) -> int {
    if rot != 0 && c == 3 {
        rot - 1
    } else if rot != 0 && c == rot - 1 {
        3
    } else {
        c
    }
}

/// Channel `c` of texel `t`.
pub open spec fn bc7_texel_channel(v: int, m: int, t: int, c: int) -> int {
    bc7_unrotated_channel(v, m, t, bc7_rotated(bc7_rotation(v, m), c))
}

/// The 16 RGBA texels of the BC7 block of value `v`, 4 bytes each; all zero when the
/// mode is reserved.
pub open spec fn spec_bc7_texels(v: int) -> Seq<u8> {
    let m = bc7_mode(v);
    Seq::new(
        64,
        |n: int|
            if m >= 8 {
                0u8
            } else {
                bc7_texel_channel(v, m, n / 4, n % 4) as u8
            },
    )
}

proof fn lemma_or_below(x: u32, z: u32, k: u32)
    by (bit_vector)
    requires
        k < 32,
        z < (1u32 << k),
    ensures
        (x << k) | z == (x << k) + z,
{
}

fn expand(x: u32, b: u32) -> (r: u32)
    requires
        1 <= b <= 8,
        x < pow2(b as nat),
    ensures
        r == bc7_expand(x as int, b as int),
        r < 256,
{
    let k = 8 - b;
    proof {
        lemma2_to64();
        lemma_pow2_pos(b as nat);
        lemma_pow2_pos(k as nat);
        lemma_pow2_adds(b as nat, k as nat);
        assert(x * pow2(k as nat) < 256) by (nonlinear_arith)
            requires
                x < pow2(b as nat),
                pow2(b as nat) * pow2(k as nat) == 256,
                pow2(k as nat) > 0,
        ;
        vstd::bits::lemma_u32_shl_is_mul(x, k);
    }
    let y = x << k;
    proof {
        assert(x * pow2(k as nat) <= 256 - pow2(k as nat)) by (nonlinear_arith)
            requires
                x + 1 <= pow2(b as nat),
                pow2(b as nat) * pow2(k as nat) == 256,
        ;
        vstd::bits::lemma_u32_shr_is_div(y, b);
        vstd::arithmetic::div_mod::lemma_multiply_divide_lt(y as int, pow2(b as nat) as int, pow2(k as nat) as int);
        vstd::bits::lemma_u32_shl_is_mul(1, k);
        lemma_or_below(x, y >> b, k);
        vstd::arithmetic::div_mod::lemma_div_is_ordered(y as int, 255, pow2(b as nat) as int);
    }
    y | (y >> b)
}

/// Reads the mode bits: ones up to and including the first set bit, at most 8.
fn bc7_read_mode(reader: &mut BitReader) -> (mode: u32)
    requires
        old(reader).wf(),
        old(reader).pos@ == 0,
    ensures
        final(reader).wf(),
        final(reader).origin@ == old(reader).origin@,
        mode == bc7_mode(old(reader).origin@),
        mode < 8 ==> final(reader).pos@ == mode + 1,
{
    let ghost v = reader.origin@;
    let mut mode: u32 = 0;
    while mode < 8
        invariant_except_break
            mode <= 8,
            reader.wf(),
            reader.origin@ == v,
            reader.pos@ == mode,
            bc7_mode_from(v, 0) == bc7_mode_from(v, mode as int),
        ensures
            reader.wf(),
            reader.origin@ == v,
            mode == bc7_mode(v),
            mode < 8 ==> reader.pos@ == mode + 1,
        decreases 8 - mode,
    {
        let bit = reader.read_bit();
        if bit != 0 {
            break;
        }
        mode = mode + 1;
    }
    mode
}

/// The final value of channel `c` of an endpoint (see `bc7_endpoint_from`).
fn endpoint_value(raw: u32, pbit: u32, m: u32, c: u32) -> (r: u32)
    requires
        m < 8,
        c < 4,
        pbit < 2,
        raw < pow2((if c < 3 { BC7_COLOR_BITS@[m as int] } else { BC7_ALPHA_BITS@[m as int] }) as nat),
    ensures
        r == bc7_endpoint_from(raw as int, pbit as int, m as int, c as int),
        r < 256,
{
    let bits = if c < 3 {
        BC7_COLOR_BITS[m as usize]
    } else {
        BC7_ALPHA_BITS[m as usize]
    };
    proof {
        lemma_bc7_tables(m as int);
        lemma2_to64();
        lemma_pow2_le(bits as nat, 8);
    }
    if c == 3 && BC7_ALPHA_BITS[m as usize] == 0 {
        255
    } else if m == 0 || m == 1 || m == 3 || m == 6 || m == 7 {
        proof {
            vstd::arithmetic::power2::lemma_pow2_unfold((bits + 1) as nat);
        }
        expand(2 * raw + pbit, bits + 1)
    } else {
        expand(raw, bits)
    }
}

/// Reads the endpoints: `4 * e + c` holds channel `c` of endpoint `e`.
fn bc7_read_endpoints(reader: &mut BitReader, m: u32) -> (ep: Vec<u32>)
    requires
        old(reader).wf(),
        m < 8,
        old(reader).pos@ == bc7_header_len(m as int),
    ensures
        final(reader).wf(),
        final(reader).origin@ == old(reader).origin@,
        final(reader).pos@ == bc7_index_start(m as int),
        ep@.len() == 4 * bc7_endpoint_count(m as int),
        forall|e: int, c: int|
            0 <= e < bc7_endpoint_count(m as int) && 0 <= c < 4 ==> #[trigger] ep@[4 * e + c]
                == bc7_endpoint(old(reader).origin@, m as int, e, c),
        forall|k: int| 0 <= k < ep@.len() ==> #[trigger] ep@[k] < 256,
{
    let ghost v = reader.origin@;
    let ghost mi = m as int;
    proof {
        lemma_bc7_tables(mi);
    }
    let ne: u32 = 2 * BC7_SUBSETS[m as usize];
    let cb: u32 = BC7_COLOR_BITS[m as usize];
    let ab: u32 = BC7_ALPHA_BITS[m as usize];
    let mut colors: Vec<u32> = Vec::new();
    let mut k: u32 = 0;
    while k < 3 * ne
        invariant
            m < 8,
            mi == m,
            ne == bc7_endpoint_count(mi),
            2 <= ne <= 6,
            cb == BC7_COLOR_BITS@[mi],
            4 <= cb <= 7,
            k <= 3 * ne,
            reader.wf(),
            reader.origin@ == v,
            reader.pos@ == bc7_header_len(mi) + k * cb,
            colors@.len() == k,
            forall|j: int| 0 <= j < k ==> #[trigger] colors@[j] == spec_bits(v, bc7_header_len(mi) + j * cb, cb as int),
            forall|j: int| 0 <= j < k ==> #[trigger] colors@[j] < pow2(cb as nat),
        decreases 3 * ne - k,
    {
        let x = reader.read(cb as i32);
        colors.push(x as u32);
        proof {
            assert((k + 1) * cb == k * cb + cb) by (nonlinear_arith);
        }
        k = k + 1;
    }
    let mut alphas: Vec<u32> = Vec::new();
    let mut e: u32 = 0;
    proof {
        assert(3 * ne * cb == (3 * ne) * cb);
        lemma2_to64();
    }
    while e < ne
        invariant
            m < 8,
            mi == m,
            ne == bc7_endpoint_count(mi),
            2 <= ne <= 6,
            ab == BC7_ALPHA_BITS@[mi],
            ab <= 8,
            e <= ne,
            reader.wf(),
            reader.origin@ == v,
            reader.pos@ == bc7_alpha_start(mi) + e * ab,
            alphas@.len() == e,
            forall|j: int| 0 <= j < e ==> #[trigger] alphas@[j] == spec_bits(v, bc7_alpha_start(mi) + j * ab, ab as int),
            forall|j: int| 0 <= j < e ==> #[trigger] alphas@[j] < pow2(ab as nat),
            pow2(0) == 1,
        decreases ne - e,
    {
        if ab > 0 {
            let x = reader.read(ab as i32);
            alphas.push(x as u32);
        } else {
            alphas.push(0);
            proof {
                assert(spec_bits(v, bc7_alpha_start(mi) + e * ab, 0) == 0);
            }
        }
        proof {
            assert((e + 1) * ab == e * ab + ab) by (nonlinear_arith);
        }
        e = e + 1;
    }
    let mut pbits: Vec<u32> = Vec::new();
    let ghost ps = bc7_pbit_start(mi);
    if m == 1 {
        let p0 = reader.read_bit() as u32;
        let p1 = reader.read_bit() as u32;
        pbits.push(p0);
        pbits.push(p0);
        pbits.push(p1);
        pbits.push(p1);
    } else if m == 0 || m == 3 || m == 6 || m == 7 {
        let mut j: u32 = 0;
        while j < ne
            invariant
                ne == bc7_endpoint_count(mi),
                j <= ne,
                reader.wf(),
                reader.origin@ == v,
                reader.pos@ == ps + j,
                pbits@.len() == j,
                forall|i: int| 0 <= i < j ==> #[trigger] pbits@[i] == spec_bits(v, ps + i, 1),
                forall|i: int| 0 <= i < j ==> #[trigger] pbits@[i] < 2,
            decreases ne - j,
        {
            let p = reader.read_bit() as u32;
            pbits.push(p);
            j = j + 1;
        }
    } else {
        let mut j: u32 = 0;
        while j < ne
            invariant
                j <= ne,
                pbits@.len() == j,
                forall|i: int| 0 <= i < j ==> #[trigger] pbits@[i] == 0,
            decreases ne - j,
        {
            pbits.push(0);
            j = j + 1;
        }
    }
    assert(pbits@.len() == ne);
    assert(forall|i: int| 0 <= i < ne ==> #[trigger] pbits@[i] == bc7_pbit(v, mi, i) && pbits@[i] < 2);
    let mut ep: Vec<u32> = Vec::new();
    let mut e: u32 = 0;
    while e < ne
        invariant
            m < 8,
            mi == m,
            ne == bc7_endpoint_count(mi),
            2 <= ne <= 6,
            cb == BC7_COLOR_BITS@[mi],
            ab == BC7_ALPHA_BITS@[mi],
            e <= ne,
            colors@.len() == 3 * ne,
            alphas@.len() == ne,
            pbits@.len() == ne,
            forall|j: int| 0 <= j < 3 * ne ==> #[trigger] colors@[j] == spec_bits(v, bc7_header_len(mi) + j * cb, cb as int),
            forall|j: int| 0 <= j < 3 * ne ==> #[trigger] colors@[j] < pow2(cb as nat),
            forall|j: int| 0 <= j < ne ==> #[trigger] alphas@[j] == spec_bits(v, bc7_alpha_start(mi) + j * ab, ab as int),
            forall|j: int| 0 <= j < ne ==> #[trigger] alphas@[j] < pow2(ab as nat),
            forall|i: int| 0 <= i < ne ==> #[trigger] pbits@[i] == bc7_pbit(v, mi, i) && pbits@[i] < 2,
            ep@.len() == 4 * e,
            forall|i: int, c: int|
                0 <= i < e && 0 <= c < 4 ==> #[trigger] ep@[4 * i + c] == bc7_endpoint(v, mi, i, c),
            forall|k: int| 0 <= k < ep@.len() ==> #[trigger] ep@[k] < 256,
        decreases ne - e,
    {
        let mut c: u32 = 0;
        while c < 4
            invariant
                m < 8,
                mi == m,
                ne == bc7_endpoint_count(mi),
                2 <= ne <= 6,
                cb == BC7_COLOR_BITS@[mi],
                ab == BC7_ALPHA_BITS@[mi],
                e < ne,
                c <= 4,
                colors@.len() == 3 * ne,
                alphas@.len() == ne,
                pbits@.len() == ne,
                forall|j: int| 0 <= j < 3 * ne ==> #[trigger] colors@[j] == spec_bits(v, bc7_header_len(mi) + j * cb, cb as int),
                forall|j: int| 0 <= j < 3 * ne ==> #[trigger] colors@[j] < pow2(cb as nat),
                forall|j: int| 0 <= j < ne ==> #[trigger] alphas@[j] == spec_bits(v, bc7_alpha_start(mi) + j * ab, ab as int),
                forall|j: int| 0 <= j < ne ==> #[trigger] alphas@[j] < pow2(ab as nat),
                forall|i: int| 0 <= i < ne ==> #[trigger] pbits@[i] == bc7_pbit(v, mi, i) && pbits@[i] < 2,
                ep@.len() == 4 * e + c,
                forall|i: int, cc: int|
                    0 <= i < e && 0 <= cc < 4 ==> #[trigger] ep@[4 * i + cc] == bc7_endpoint(v, mi, i, cc),
                forall|cc: int| 0 <= cc < c ==> #[trigger] ep@[4 * e + cc] == bc7_endpoint(v, mi, e as int, cc),
                forall|k: int| 0 <= k < ep@.len() ==> #[trigger] ep@[k] < 256,
            decreases 4 - c,
        {
            let raw = if c < 3 {
                proof {
                    assert(c * ne + e < 3 * ne) by (nonlinear_arith)
                        requires
                            c < 3,
                            e < ne,
                    ;
                }
                colors[(c * ne + e) as usize]
            } else {
                alphas[e as usize]
            };
            let x = endpoint_value(raw, pbits[e as usize], m, c);
            ep.push(x);
            proof {
                assert(bc7_raw(v, mi, e as int, c as int) == raw);
                assert(ep@[4 * e + c] == bc7_endpoint(v, mi, e as int, c as int));
                assert forall|i: int, cc: int|
                    0 <= i < e && 0 <= cc < 4 implies #[trigger] ep@[4 * i + cc] == bc7_endpoint(v, mi, i, cc) by {
                    assert(4 * i + cc < 4 * e);
                }
            }
            c = c + 1;
        }
        e = e + 1;
    }
    ep
}

/// Reads the index of each texel.
fn bc7_read_indices(reader: &mut BitReader, m: u32, partition: u32) -> (idx: Vec<u32>)
    requires
        old(reader).wf(),
        m < 8,
        partition < 64,
        partition == bc7_partition(old(reader).origin@, m as int),
        old(reader).pos@ == bc7_index_start(m as int),
    ensures
        final(reader).wf(),
        final(reader).origin@ == old(reader).origin@,
        final(reader).pos@ == bc7_index_start(m as int) + bc7_index_offset(old(reader).origin@, m as int, 16),
        idx@.len() == 16,
        forall|t: int| 0 <= t < 16 ==> #[trigger] idx@[t] == bc7_index(old(reader).origin@, m as int, t),
        forall|t: int| 0 <= t < 16 ==> #[trigger] idx@[t] < pow2(bc7_index_size(old(reader).origin@, m as int, t) as nat),
{
    let ghost v = reader.origin@;
    let ghost mi = m as int;
    proof {
        lemma_bc7_tables(mi);
    }
    let subsets = BC7_SUBSETS[m as usize];
    let ib = BC7_INDEX_BITS[m as usize];
    let mut idx: Vec<u32> = Vec::new();
    let mut t: u32 = 0;
    while t < 16
        invariant
            m < 8,
            mi == m,
            subsets == BC7_SUBSETS@[mi],
            1 <= subsets <= 3,
            ib == BC7_INDEX_BITS@[mi],
            2 <= ib <= 4,
            partition == bc7_partition(v, mi),
            partition < 64,
            t <= 16,
            reader.wf(),
            reader.origin@ == v,
            reader.pos@ == bc7_index_start(mi) + bc7_index_offset(v, mi, t as int),
            idx@.len() == t,
            forall|u: int| 0 <= u < t ==> #[trigger] idx@[u] == bc7_index(v, mi, u),
            forall|u: int| 0 <= u < t ==> #[trigger] idx@[u] < pow2(bc7_index_size(v, mi, u) as nat),
        decreases 16 - t,
    {
        let mut bits = ib;
        if is_anchor(subsets, partition, t) {
            bits = bits - 1;
        }
        assert(bits == bc7_index_size(v, mi, t as int));
        let x = reader.read(bits as i32);
        idx.push(x as u32);
        proof {
            assert(bc7_index_offset(v, mi, t + 1) == bc7_index_offset(v, mi, t as int) + bits);
        }
        t = t + 1;
    }
    idx
}

/// The 4 channels of texel `t` before the rotation, reading its second index where
/// the mode has one.
#[verifier::rlimit(40)]
fn bc7_unrotated(
    reader: &mut BitReader,
    m: u32,
    t: u32,
    partition: u32,
    selection: u32,
    ep: &Vec<u32>,
    index: u32,
) -> (r: (u32, u32, u32, u32))
    requires
        old(reader).wf(),
        m < 8,
        t < 16,
        partition == bc7_partition(old(reader).origin@, m as int),
        partition < 64,
        selection == bc7_selection(old(reader).origin@, m as int),
        old(reader).pos@ == bc7_index_start(m as int) + bc7_index_offset(old(reader).origin@, m as int, 16)
            + bc7_index2_offset(m as int, t as int),
        ep@.len() == 4 * bc7_endpoint_count(m as int),
        forall|e: int, c: int|
            0 <= e < bc7_endpoint_count(m as int) && 0 <= c < 4 ==> #[trigger] ep@[4 * e + c]
                == bc7_endpoint(old(reader).origin@, m as int, e, c),
        forall|k: int| 0 <= k < ep@.len() ==> #[trigger] ep@[k] < 256,
        index == bc7_index(old(reader).origin@, m as int, t as int),
        index < pow2(bc7_index_size(old(reader).origin@, m as int, t as int) as nat),
    ensures
        final(reader).wf(),
        final(reader).origin@ == old(reader).origin@,
        final(reader).pos@ == bc7_index_start(m as int) + bc7_index_offset(old(reader).origin@, m as int, 16)
            + bc7_index2_offset(m as int, t as int + 1),
        r.0 == bc7_unrotated_channel(old(reader).origin@, m as int, t as int, 0),
        r.1 == bc7_unrotated_channel(old(reader).origin@, m as int, t as int, 1),
        r.2 == bc7_unrotated_channel(old(reader).origin@, m as int, t as int, 2),
        r.3 == bc7_unrotated_channel(old(reader).origin@, m as int, t as int, 3),
        r.0 < 256 && r.1 < 256 && r.2 < 256 && r.3 < 256,
{
    let ghost v = reader.origin@;
    let ghost mi = m as int;
    proof {
        lemma_bc7_tables(mi);
        lemma2_to64();
    }
    let subsets = BC7_SUBSETS[m as usize];
    let ib = BC7_INDEX_BITS[m as usize];
    let ib2 = BC7_INDEX2_BITS[m as usize];
    let s = partition_subset(subsets, partition, t);
    proof {
        assert(bc7_index_size(v, mi, t as int) <= ib);
        lemma_pow2_le(bc7_index_size(v, mi, t as int) as nat, ib as nat);
    }
    let w1 = weight(ib, index);
    let ghost sw1 = bptc_weight(ib as int, bc7_index(v, mi, t as int));
    let ghost sw2 = bptc_weight(ib2 as int, bc7_index2(v, mi, t as int));
    let mut wc = w1;
    let mut wa = w1;
    if ib2 != 0 {
        let bits2: i32 = if t == 0 {
            (ib2 - 1) as i32
        } else {
            ib2 as i32
        };
        let index2 = reader.read(bits2);
        proof {
            lemma_pow2_le(bits2 as nat, ib2 as nat);
            assert(index2 == bc7_index2(v, mi, t as int));
            assert(ib2 * (t + 1) == ib2 * t + ib2) by (nonlinear_arith);
        }
        let w2 = weight(ib2, index2 as u32);
        if selection == 0 {
            wa = w2;
        } else {
            wc = w2;
        }
    }
    assert(wc == if ib2 != 0 && selection != 0 { sw2 } else { sw1 });
    assert(wa == if ib2 != 0 && selection == 0 { sw2 } else { sw1 });
    let e0 = (2 * s) as usize;
    let e1 = (2 * s + 1) as usize;
    proof {
        assert(ep@[4 * e0 + 0] == bc7_endpoint(v, mi, e0 as int, 0));
        assert(ep@[4 * e1 + 0] == bc7_endpoint(v, mi, e1 as int, 0));
        assert(ep@[4 * e0 + 1] == bc7_endpoint(v, mi, e0 as int, 1));
        assert(ep@[4 * e1 + 1] == bc7_endpoint(v, mi, e1 as int, 1));
        assert(ep@[4 * e0 + 2] == bc7_endpoint(v, mi, e0 as int, 2));
        assert(ep@[4 * e1 + 2] == bc7_endpoint(v, mi, e1 as int, 2));
        assert(ep@[4 * e0 + 3] == bc7_endpoint(v, mi, e0 as int, 3));
        assert(ep@[4 * e1 + 3] == bc7_endpoint(v, mi, e1 as int, 3));
    }
    let r = interpolate_u8(ep[4 * e0], ep[4 * e1], wc);
    let g = interpolate_u8(ep[4 * e0 + 1], ep[4 * e1 + 1], wc);
    let b = interpolate_u8(ep[4 * e0 + 2], ep[4 * e1 + 2], wc);
    let a = interpolate_u8(ep[4 * e0 + 3], ep[4 * e1 + 3], wa);
    (r, g, b, a)
}

/// Appends the 4 channels of texel `t`.
fn bc7_push_texel(
    reader: &mut BitReader,
    texels: &mut Vec<u8>,
    m: u32,
    t: u32,
    partition: u32,
    rotation: u32,
    selection: u32,
    ep: &Vec<u32>,
    index: u32,
)
    requires
        old(reader).wf(),
        m < 8,
        t < 16,
        partition == bc7_partition(old(reader).origin@, m as int),
        partition < 64,
        rotation == bc7_rotation(old(reader).origin@, m as int),
        rotation < 4,
        selection == bc7_selection(old(reader).origin@, m as int),
        old(reader).pos@ == bc7_index_start(m as int) + bc7_index_offset(old(reader).origin@, m as int, 16)
            + bc7_index2_offset(m as int, t as int),
        ep@.len() == 4 * bc7_endpoint_count(m as int),
        forall|e: int, c: int|
            0 <= e < bc7_endpoint_count(m as int) && 0 <= c < 4 ==> #[trigger] ep@[4 * e + c]
                == bc7_endpoint(old(reader).origin@, m as int, e, c),
        forall|k: int| 0 <= k < ep@.len() ==> #[trigger] ep@[k] < 256,
        index == bc7_index(old(reader).origin@, m as int, t as int),
        index < pow2(bc7_index_size(old(reader).origin@, m as int, t as int) as nat),
    ensures
        final(reader).wf(),
        final(reader).origin@ == old(reader).origin@,
        final(reader).pos@ == bc7_index_start(m as int) + bc7_index_offset(old(reader).origin@, m as int, 16)
            + bc7_index2_offset(m as int, t as int + 1),
        final(texels)@ == old(texels)@ + seq![
            bc7_texel_channel(old(reader).origin@, m as int, t as int, 0) as u8,
            bc7_texel_channel(old(reader).origin@, m as int, t as int, 1) as u8,
            bc7_texel_channel(old(reader).origin@, m as int, t as int, 2) as u8,
            bc7_texel_channel(old(reader).origin@, m as int, t as int, 3) as u8,
        ],
{
    let ghost v = reader.origin@;
    let (mut r, mut g, mut b, mut a) = bc7_unrotated(reader, m, t, partition, selection, ep, index);
    if rotation == 1 {
        let tmp = a;
        a = r;
        r = tmp;
    } else if rotation == 2 {
        let tmp = a;
        a = g;
        g = tmp;
    } else if rotation == 3 {
        let tmp = a;
        a = b;
        b = tmp;
    }
    let ghost added = seq![r as u8, g as u8, b as u8, a as u8];
    texels.push(r as u8);
    texels.push(g as u8);
    texels.push(b as u8);
    texels.push(a as u8);
    assert(texels@ =~= old(texels)@ + added);
}

/// Decodes the 16 texels of a BC7 block, 4 bytes each.
fn bc7_texels(block: &[u8]) -> (texels: Vec<u8>)
    requires
        block@.len() >= 16,
    ensures
        texels@ == spec_bc7_texels(spec_block_value(block@)),
{
    let mut reader = BitReader::new(block);
    let ghost v = reader.origin@;
    let m = bc7_read_mode(&mut reader);
    if m >= 8 {
        let texels: Vec<u8> = vec![0u8; 64];
        assert(texels@ =~= spec_bc7_texels(v));
        return texels;
    }
    let ghost mi = m as int;
    proof {
        lemma_bc7_tables(mi);
        lemma2_to64();
    }
    let mut partition: u32 = 0;
    if m == 0 || m == 1 || m == 2 || m == 3 || m == 7 {
        let bits: i32 = if m == 0 {
            4
        } else {
            6
        };
        partition = reader.read(bits) as u32;
    }
    let mut rotation: u32 = 0;
    let mut selection: u32 = 0;
    if m == 4 || m == 5 {
        rotation = reader.read(2) as u32;
        if m == 4 {
            selection = reader.read_bit() as u32;
        }
    }
    assert(partition == bc7_partition(v, mi) && partition < 64);
    assert(rotation == bc7_rotation(v, mi) && rotation < 4);
    assert(selection == bc7_selection(v, mi));
    let ep = bc7_read_endpoints(&mut reader, m);
    let idx = bc7_read_indices(&mut reader, m, partition);
    let ib2 = BC7_INDEX2_BITS[m as usize];
    let mut texels: Vec<u8> = Vec::new();
    let mut t: u32 = 0;
    while t < 16
        invariant
            m < 8,
            mi == m,
            ib2 == BC7_INDEX2_BITS@[mi],
            ib2 <= 3,
            partition == bc7_partition(v, mi),
            partition < 64,
            rotation == bc7_rotation(v, mi),
            rotation < 4,
            selection == bc7_selection(v, mi),
            t <= 16,
            reader.wf(),
            reader.origin@ == v,
            reader.pos@ == bc7_index_start(mi) + bc7_index_offset(v, mi, 16) + bc7_index2_offset(mi, t as int),
            ep@.len() == 4 * bc7_endpoint_count(mi),
            forall|e: int, c: int|
                0 <= e < bc7_endpoint_count(mi) && 0 <= c < 4 ==> #[trigger] ep@[4 * e + c]
                    == bc7_endpoint(v, mi, e, c),
            forall|k: int| 0 <= k < ep@.len() ==> #[trigger] ep@[k] < 256,
            idx@.len() == 16,
            forall|u: int| 0 <= u < 16 ==> #[trigger] idx@[u] == bc7_index(v, mi, u),
            forall|u: int| 0 <= u < 16 ==> #[trigger] idx@[u] < pow2(bc7_index_size(v, mi, u) as nat),
            texels@.len() == 4 * t,
            forall|n: int| 0 <= n < 4 * t ==> #[trigger] texels@[n] == bc7_texel_channel(v, mi, n / 4, n % 4) as u8,
        decreases 16 - t,
    {
        let ghost before = texels@;
        bc7_push_texel(&mut reader, &mut texels, m, t, partition, rotation, selection, &ep, idx[t as usize]);
        proof {
            assert forall|n: int| 0 <= n < 4 * t + 4 implies #[trigger] texels@[n] == bc7_texel_channel(
                v,
                mi,
                n / 4,
                n % 4,
            ) as u8 by {
                if n >= 4 * t {
                    assert(n / 4 == t as int);
                    assert(texels@[n] == before.add(
                        seq![
                            bc7_texel_channel(v, mi, t as int, 0) as u8,
                            bc7_texel_channel(v, mi, t as int, 1) as u8,
                            bc7_texel_channel(v, mi, t as int, 2) as u8,
                            bc7_texel_channel(v, mi, t as int, 3) as u8,
                        ],
                    )[n]);
                } else {
                    assert(texels@[n] == before[n]);
                }
            }
        }
        t = t + 1;
    }
    assert(texels@ =~= spec_bc7_texels(v));
    texels
}

/// Decodes a BC7 block (16 bytes) into 4x4 RGBA texels of 4 bytes.
pub fn bcdec_bc7(compressed_block: &[u8], decompressed_block: &mut [u8], destination_pitch: u32)
    requires
        compressed_block@.len() >= 16,
        block_fits(old(decompressed_block)@.len() as int, 0, destination_pitch as int, 4, 4),
    ensures
        final(decompressed_block)@ == block_image(
            old(decompressed_block)@,
            0,
            destination_pitch as int,
            4,
            4,
            spec_bc7_texels(spec_block_value(compressed_block@)),
        ),
{
    let texels = bc7_texels(compressed_block);
    write_block(decompressed_block, 0, destination_pitch as usize, 4, 4, texels.as_slice());
}


/// Bits of the first endpoint's channels of a BC6H block, by mode.
pub const BC6H_BASE_BITS: [u32; 14] = [10, 7, 11, 11, 11, 9, 8, 8, 8, 6, 10, 11, 12, 16];

/// Bits of the other endpoints' red, green and blue channels, by mode: differences
/// from the first endpoint, except in modes 9 and 10.
pub const BC6H_RED_BITS: [u32; 14] = [5, 6, 5, 4, 4, 5, 6, 5, 5, 6, 10, 9, 8, 4];

pub const BC6H_GREEN_BITS: [u32; 14] = [5, 6, 4, 5, 4, 5, 5, 6, 5, 6, 10, 9, 8, 4];

pub const BC6H_BLUE_BITS: [u32; 14] = [5, 6, 4, 4, 5, 5, 5, 5, 6, 6, 10, 9, 8, 4];

/// The mode number of a BC6H mode code; -1 for the reserved codes.
pub open spec fn bc6h_mode_of_code(code: int) -> int {
    if code == 0 {
        0
    } else if code == 1 {
        1
    } else if code == 2 {
        2
    } else if code == 6 {
        3
    } else if code == 10 {
        4
    } else if code == 14 {
        5
    } else if code == 18 {
        6
    } else if code == 22 {
        7
    } else if code == 26 {
        8
    } else if code == 30 {
        9
    } else if code == 3 {
        10
    } else if code == 7 {
        11
    } else if code == 11 {
        12
    } else if code == 15 {
        13
    } else {
        -1
    }
}

/// The mode of a BC6H block: its code is its 2 lowest bits, followed by the next 3
/// when those are 2 or 3.
pub open spec fn bc6h_mode(v: int) -> int {
    let c2 = spec_bits(v, 0, 2);
    bc6h_mode_of_code(
        if c2 < 2 {
            c2
        } else {
            c2 + 4 * spec_bits(v, 2, 3)
        },
    )
}

/// Bits of endpoint field `c` (`4 * channel + endpoint`) in mode `k`.
pub open spec fn bc6h_field_bits(k: int, c: int) -> int {
    if c % 4 == 0 {
        BC6H_BASE_BITS@[k] as int
    } else if c / 4 == 0 {
        BC6H_RED_BITS@[k] as int
    } else if c / 4 == 1 {
        BC6H_GREEN_BITS@[k] as int
    } else {
        BC6H_BLUE_BITS@[k] as int
    }
}

/// Where the indices start: after the mode, the endpoints and, in the two-subset
/// modes, the partition number.
pub open spec fn bc6h_index_start(k: int) -> int {
    if k < 10 {
        82
    } else {
        65
    }
}

/// The endpoint fields of a BC6H block of mode `k`, each the sum of its pieces at
/// their places (the pieces of a field never overlap): red, green and blue of the four
/// endpoints (`4 * channel + endpoint`), then the partition number. Fields that the
/// mode does not store are 0.
pub open spec fn bc6h_raw(v: int, k: int) -> Seq<int> {
    if k == 0 {
        seq![
            spec_bits(v, 5, 10),
            spec_bits(v, 35, 5),
            spec_bits(v, 65, 5),
            spec_bits(v, 71, 5),
            spec_bits(v, 15, 10),
            spec_bits(v, 45, 5),
            16 * spec_bits(v, 2, 1) + spec_bits(v, 41, 4),
            16 * spec_bits(v, 40, 1) + spec_bits(v, 51, 4),
            spec_bits(v, 25, 10),
            spec_bits(v, 55, 5),
            16 * spec_bits(v, 3, 1) + spec_bits(v, 61, 4),
            16 * spec_bits(v, 4, 1) + spec_bits(v, 50, 1) + 2 * spec_bits(v, 60, 1) + 4 * spec_bits(v, 70, 1) + 8 * spec_bits(v, 76, 1),
            spec_bits(v, 77, 5),
        ]
    } else if k == 1 {
        seq![
            spec_bits(v, 5, 7),
            spec_bits(v, 35, 6),
            spec_bits(v, 65, 6),
            spec_bits(v, 71, 6),
            spec_bits(v, 15, 7),
            spec_bits(v, 45, 6),
            32 * spec_bits(v, 2, 1) + 16 * spec_bits(v, 24, 1) + spec_bits(v, 41, 4),
            16 * spec_bits(v, 3, 1) + 32 * spec_bits(v, 4, 1) + spec_bits(v, 51, 4),
            spec_bits(v, 25, 7),
            spec_bits(v, 55, 6),
            16 * spec_bits(v, 14, 1) + 32 * spec_bits(v, 22, 1) + spec_bits(v, 61, 4),
            spec_bits(v, 12, 1) + 2 * spec_bits(v, 13, 1) + 4 * spec_bits(v, 23, 1) + 8 * spec_bits(v, 32, 1) + 32 * spec_bits(v, 33, 1) + 16 * spec_bits(v, 34, 1),
            spec_bits(v, 77, 5),
        ]
    } else if k == 2 {
        seq![
            spec_bits(v, 5, 10) + 1024 * spec_bits(v, 40, 1),
            spec_bits(v, 35, 5),
            spec_bits(v, 65, 5),
            spec_bits(v, 71, 5),
            spec_bits(v, 15, 10) + 1024 * spec_bits(v, 49, 1),
            spec_bits(v, 45, 4),
            spec_bits(v, 41, 4),
            spec_bits(v, 51, 4),
            spec_bits(v, 25, 10) + 1024 * spec_bits(v, 59, 1),
            spec_bits(v, 55, 4),
            spec_bits(v, 61, 4),
            spec_bits(v, 50, 1) + 2 * spec_bits(v, 60, 1) + 4 * spec_bits(v, 70, 1) + 8 * spec_bits(v, 76, 1),
            spec_bits(v, 77, 5),
        ]
    } else if k == 3 {
        seq![
            spec_bits(v, 5, 10) + 1024 * spec_bits(v, 39, 1),
            spec_bits(v, 35, 4),
            spec_bits(v, 65, 4),
            spec_bits(v, 71, 4),
            spec_bits(v, 15, 10) + 1024 * spec_bits(v, 50, 1),
            spec_bits(v, 45, 5),
            spec_bits(v, 41, 4) + 16 * spec_bits(v, 75, 1),
            16 * spec_bits(v, 40, 1) + spec_bits(v, 51, 4),
            spec_bits(v, 25, 10) + 1024 * spec_bits(v, 59, 1),
            spec_bits(v, 55, 4),
            spec_bits(v, 61, 4),
            2 * spec_bits(v, 60, 1) + spec_bits(v, 69, 1) + 4 * spec_bits(v, 70, 1) + 8 * spec_bits(v, 76, 1),
            spec_bits(v, 77, 5),
        ]
    } else if k == 4 {
        seq![
            spec_bits(v, 5, 10) + 1024 * spec_bits(v, 39, 1),
            spec_bits(v, 35, 4),
            spec_bits(v, 65, 4),
            spec_bits(v, 71, 4),
            spec_bits(v, 15, 10) + 1024 * spec_bits(v, 49, 1),
            spec_bits(v, 45, 4),
            spec_bits(v, 41, 4),
            spec_bits(v, 51, 4),
            spec_bits(v, 25, 10) + 1024 * spec_bits(v, 60, 1),
            spec_bits(v, 55, 5),
            16 * spec_bits(v, 40, 1) + spec_bits(v, 61, 4),
            spec_bits(v, 50, 1) + 2 * spec_bits(v, 69, 1) + 4 * spec_bits(v, 70, 1) + 16 * spec_bits(v, 75, 1) + 8 * spec_bits(v, 76, 1),
            spec_bits(v, 77, 5),
        ]
    } else if k == 5 {
        seq![
            spec_bits(v, 5, 9),
            spec_bits(v, 35, 5),
            spec_bits(v, 65, 5),
            spec_bits(v, 71, 5),
            spec_bits(v, 15, 9),
            spec_bits(v, 45, 5),
            16 * spec_bits(v, 24, 1) + spec_bits(v, 41, 4),
            16 * spec_bits(v, 40, 1) + spec_bits(v, 51, 4),
            spec_bits(v, 25, 9),
            spec_bits(v, 55, 5),
            16 * spec_bits(v, 14, 1) + spec_bits(v, 61, 4),
            16 * spec_bits(v, 34, 1) + spec_bits(v, 50, 1) + 2 * spec_bits(v, 60, 1) + 4 * spec_bits(v, 70, 1) + 8 * spec_bits(v, 76, 1),
            spec_bits(v, 77, 5),
        ]
    } else if k == 6 {
        seq![
            spec_bits(v, 5, 8),
            spec_bits(v, 35, 6),
            spec_bits(v, 65, 6),
            spec_bits(v, 71, 6),
            spec_bits(v, 15, 8),
            spec_bits(v, 45, 5),
            16 * spec_bits(v, 24, 1) + spec_bits(v, 41, 4),
            16 * spec_bits(v, 13, 1) + spec_bits(v, 51, 4),
            spec_bits(v, 25, 8),
            spec_bits(v, 55, 5),
            16 * spec_bits(v, 14, 1) + spec_bits(v, 61, 4),
            4 * spec_bits(v, 23, 1) + 8 * spec_bits(v, 33, 1) + 16 * spec_bits(v, 34, 1) + spec_bits(v, 50, 1) + 2 * spec_bits(v, 60, 1),
            spec_bits(v, 77, 5),
        ]
    } else if k == 7 {
        seq![
            spec_bits(v, 5, 8),
            spec_bits(v, 35, 5),
            spec_bits(v, 65, 5),
            spec_bits(v, 71, 5),
            spec_bits(v, 15, 8),
            spec_bits(v, 45, 6),
            32 * spec_bits(v, 23, 1) + 16 * spec_bits(v, 24, 1) + spec_bits(v, 41, 4),
            32 * spec_bits(v, 33, 1) + 16 * spec_bits(v, 40, 1) + spec_bits(v, 51, 4),
            spec_bits(v, 25, 8),
            spec_bits(v, 55, 5),
            16 * spec_bits(v, 14, 1) + spec_bits(v, 61, 4),
            spec_bits(v, 13, 1) + 16 * spec_bits(v, 34, 1) + 2 * spec_bits(v, 60, 1) + 4 * spec_bits(v, 70, 1) + 8 * spec_bits(v, 76, 1),
            spec_bits(v, 77, 5),
        ]
    } else if k == 8 {
        seq![
            spec_bits(v, 5, 8),
            spec_bits(v, 35, 5),
            spec_bits(v, 65, 5),
            spec_bits(v, 71, 5),
            spec_bits(v, 15, 8),
            spec_bits(v, 45, 5),
            16 * spec_bits(v, 24, 1) + spec_bits(v, 41, 4),
            16 * spec_bits(v, 40, 1) + spec_bits(v, 51, 4),
            spec_bits(v, 25, 8),
            spec_bits(v, 55, 6),
            16 * spec_bits(v, 14, 1) + 32 * spec_bits(v, 23, 1) + spec_bits(v, 61, 4),
            2 * spec_bits(v, 13, 1) + 32 * spec_bits(v, 33, 1) + 16 * spec_bits(v, 34, 1) + spec_bits(v, 50, 1) + 4 * spec_bits(v, 70, 1) + 8 * spec_bits(v, 76, 1),
            spec_bits(v, 77, 5),
        ]
    } else if k == 9 {
        seq![
            spec_bits(v, 5, 6),
            spec_bits(v, 35, 6),
            spec_bits(v, 65, 6),
            spec_bits(v, 71, 6),
            spec_bits(v, 15, 6),
            spec_bits(v, 45, 6),
            32 * spec_bits(v, 21, 1) + 16 * spec_bits(v, 24, 1) + spec_bits(v, 41, 4),
            16 * spec_bits(v, 11, 1) + 32 * spec_bits(v, 31, 1) + spec_bits(v, 51, 4),
            spec_bits(v, 25, 6),
            spec_bits(v, 55, 6),
            16 * spec_bits(v, 14, 1) + 32 * spec_bits(v, 22, 1) + spec_bits(v, 61, 4),
            spec_bits(v, 12, 1) + 2 * spec_bits(v, 13, 1) + 4 * spec_bits(v, 23, 1) + 8 * spec_bits(v, 32, 1) + 32 * spec_bits(v, 33, 1) + 16 * spec_bits(v, 34, 1),
            spec_bits(v, 77, 5),
        ]
    } else if k == 10 {
        seq![
            spec_bits(v, 5, 10),
            spec_bits(v, 35, 10),
            0,
            0,
            spec_bits(v, 15, 10),
            spec_bits(v, 45, 10),
            0,
            0,
            spec_bits(v, 25, 10),
            spec_bits(v, 55, 10),
            0,
            0,
            0,
        ]
    } else if k == 11 {
        seq![
            spec_bits(v, 5, 10) + 1024 * spec_bits(v, 44, 1),
            spec_bits(v, 35, 9),
            0,
            0,
            spec_bits(v, 15, 10) + 1024 * spec_bits(v, 54, 1),
            spec_bits(v, 45, 9),
            0,
            0,
            spec_bits(v, 25, 10) + 1024 * spec_bits(v, 64, 1),
            spec_bits(v, 55, 9),
            0,
            0,
            0,
        ]
    } else if k == 12 {
        seq![
            spec_bits(v, 5, 10) + 1024 * spec_reverse_bits(spec_bits(v, 43, 2), 2),
            spec_bits(v, 35, 8),
            0,
            0,
            spec_bits(v, 15, 10) + 1024 * spec_reverse_bits(spec_bits(v, 53, 2), 2),
            spec_bits(v, 45, 8),
            0,
            0,
            spec_bits(v, 25, 10) + 1024 * spec_reverse_bits(spec_bits(v, 63, 2), 2),
            spec_bits(v, 55, 8),
            0,
            0,
            0,
        ]
    } else if k == 13 {
        seq![
            spec_bits(v, 5, 10) + 1024 * spec_reverse_bits(spec_bits(v, 39, 6), 6),
            spec_bits(v, 35, 4),
            0,
            0,
            spec_bits(v, 15, 10) + 1024 * spec_reverse_bits(spec_bits(v, 49, 6), 6),
            spec_bits(v, 45, 4),
            0,
            0,
            spec_bits(v, 25, 10) + 1024 * spec_reverse_bits(spec_bits(v, 59, 6), 6),
            spec_bits(v, 55, 4),
            0,
            0,
            0,
        ]
    } else {
        Seq::new(13, |c: int| 0)
    }
}

proof fn lemma_bc6h_tables(k: int)
    requires
        0 <= k < 14,
    ensures
        6 <= BC6H_BASE_BITS@[k] <= 16,
        4 <= BC6H_RED_BITS@[k] <= 10,
        4 <= BC6H_GREEN_BITS@[k] <= 10,
        4 <= BC6H_BLUE_BITS@[k] <= 10,
        k == 9 || k == 10 ==> BC6H_RED_BITS@[k] == BC6H_BASE_BITS@[k] && BC6H_GREEN_BITS@[k]
            == BC6H_BASE_BITS@[k] && BC6H_BLUE_BITS@[k] == BC6H_BASE_BITS@[k],
        k < 10 ==> BC6H_BASE_BITS@[k] <= 11,
{
}

/// `val`'s `bits` lowest bits read as a two's complement number.
pub open spec fn spec_extend_sign(val: int, bits: int) -> int {
    let p = pow2(bits as nat) as int;
    let m = val % p;
    if m >= p / 2 {
        m - p
    } else {
        m
    }
}

/// A difference `val` added to the base `a0`, kept to `bits` bits, signed or not.
pub open spec fn spec_transform_inverse(val: int, a0: int, bits: int, is_signed: bool) -> int {
    let m = (val + a0) % (pow2(bits as nat) as int);
    if is_signed {
        spec_extend_sign(m, bits)
    } else {
        m
    }
}

/// An endpoint channel of `bits` bits scaled to the 16-bit (unsigned) or 15-bit and
/// sign (signed) range: both ends of the range map to its ends, values between to
/// the middle of their share.
pub open spec fn spec_unquantize(val: int, bits: int, is_signed: bool) -> int {
    if !is_signed {
        if bits >= 15 {
            val
        } else if val == 0 {
            0
        } else if val == pow2(bits as nat) - 1 {
            0xffff
        } else {
            (val * 65536 + 0x8000) / (pow2(bits as nat) as int)
        }
    } else if bits >= 16 {
        val
    } else {
        let a = if val < 0 {
            -val
        } else {
            val
        };
        let u = if a == 0 {
            0
        } else if a >= pow2((bits - 1) as nat) - 1 {
            0x7fff
        } else {
            (a * 32768 + 0x4000) / (pow2((bits - 1) as nat) as int)
        };
        if val < 0 {
            -u
        } else {
            u
        }
    }
}

/// Unquantizing a signed endpoint channel is odd (the negated value gives the
/// negated result), and a value that is not negative gives a result from 0 to
/// 0x7fff.
pub proof fn lemma_unquantize_signed_odd(v: int, bits: int)
    requires
        1 <= bits <= 16,
        0 <= v < pow2((bits - 1) as nat),
    ensures
        spec_unquantize(-v, bits, true) == -spec_unquantize(v, bits, true),
        0 <= spec_unquantize(v, bits, true) <= 0x7fff,
{
    lemma_pow2_pos((bits - 1) as nat);
    lemma_pow2_le((bits - 1) as nat, 15);
    lemma2_to64();
    let p = pow2((bits - 1) as nat) as int;
    if bits < 16 && 0 < v && v < p - 1 {
        assert(0 <= (v * 32768 + 0x4000) / p <= 32767) by (nonlinear_arith)
            requires
                1 <= v <= p - 2,
        ;
    }
}

/// A 16-bit half-float from an interpolated value: the unsigned value scaled by
/// 31/64; the signed value scaled by 31/32 (towards zero) into sign and magnitude.
pub open spec fn spec_finish_unquantize(val: int, is_signed: bool) -> int {
    if is_signed {
        let q = if val < 0 {
            -((-val * 31) / 32)
        } else {
            val * 31 / 32
        };
        if q < 0 {
            0x8000 - q
        } else {
            q
        }
    } else {
        val * 31 / 64
    }
}

/// Endpoint field `c` of a block of mode `k`, stored as `raw`, unquantized: sign-extended
/// where signed, and, outside modes 9 and 10, the other endpoints taken as differences
/// from the first (stored as `base_raw`).
pub open spec fn bc6h_endpoint_from(raw: int, base_raw: int, k: int, is_signed: bool, c: int) -> int {
    let b0 = BC6H_BASE_BITS@[k] as int;
    let transformed = k != 9 && k != 10;
    let base = if is_signed {
        spec_extend_sign(base_raw, b0)
    } else {
        base_raw
    };
    let e = if c % 4 == 0 {
        base
    } else {
        let x = if transformed || is_signed {
            spec_extend_sign(raw, bc6h_field_bits(k, c))
        } else {
            raw
        };
        if transformed {
            spec_transform_inverse(x, base, b0, is_signed)
        } else {
            x
        }
    };
    spec_unquantize(e, b0, is_signed)
}

pub open spec fn bc6h_endpoint(v: int, k: int, is_signed: bool, c: int) -> int {
    bc6h_endpoint_from(bc6h_raw(v, k)[c], bc6h_raw(v, k)[c - c % 4], k, is_signed, c)
}

pub open spec fn bc6h_subsets(k: int) -> int {
    if k < 10 {
        2
    } else {
        1
    }
}

pub open spec fn bc6h_index_bits(k: int) -> int {
    if k < 10 {
        3
    } else {
        4
    }
}

pub open spec fn bc6h_index_size(v: int, k: int, t: int) -> int {
    bc6h_index_bits(k) - if bptc_is_anchor(bc6h_subsets(k), bc6h_raw(v, k)[12], t) {
        1int
    } else {
        0int
    }
}

pub open spec fn bc6h_index_offset(v: int, k: int, t: int) -> int
    decreases t,
{
    if t <= 0 {
        0
    } else {
        bc6h_index_offset(v, k, t - 1) + bc6h_index_size(v, k, t - 1)
    }
}

pub open spec fn bc6h_index(v: int, k: int, t: int) -> int {
    spec_bits(v, bc6h_index_start(k) + bc6h_index_offset(v, k, t), bc6h_index_size(v, k, t))
}

/// Channel `ch` of texel `t`: the endpoints of the texel's subset interpolated by the
/// weight of its index.
pub open spec fn bc6h_texel_channel(v: int, is_signed: bool, k: int, t: int, ch: int) -> int {
    let s = bptc_subset(bc6h_subsets(k), bc6h_raw(v, k)[12], t);
    let w = bptc_weight(bc6h_index_bits(k), bc6h_index(v, k, t));
    spec_finish_unquantize(
        bptc_interpolate(
            bc6h_endpoint(v, k, is_signed, 4 * ch + 2 * s),
            bc6h_endpoint(v, k, is_signed, 4 * ch + 2 * s + 1),
            w,
        ),
        is_signed,
    )
}

/// The 16 RGB texels of the BC6H block of value `v`, 3 half-floats each; all zero when
/// the mode is reserved.
pub open spec fn spec_bc6h_texels(v: int, is_signed: bool) -> Seq<u16> {
    let k = bc6h_mode(v);
    Seq::new(
        48,
        |n: int|
            if k < 0 {
                0u16
            } else {
                bc6h_texel_channel(v, is_signed, k, n / 3, n % 3) as u16
            },
    )
}

proof fn lemma_i32_as_u32(x: i32, m: i32, b: u32)
    by (bit_vector)
    requires
        0 <= x,
        0 <= m,
        b < 32,
    ensures
        (x & m) as int == ((x as u32) & (m as u32)) as int,
        (x >> b) as int == ((x as u32) >> b) as int,
{
}

proof fn lemma_one_i32(b: u32)
    by (bit_vector)
    requires
        b <= 30,
    ensures
        (1i32 << b) as int == (1u32 << b) as int,
{
}

proof fn lemma_i32_shifts(x: i32)
    by (bit_vector)
    ensures
        x >> 5 == x / 32,
        x >> 6 == x / 64,
        0 <= x < 0x4000 ==> x << 16 == x * 65536,
        0 <= x < 0x4000 ==> x << 15 == x * 32768,
{
}

proof fn lemma_sign_or(s: i32, m: i32)
    by (bit_vector)
    requires
        s == 0 || s == 0x8000,
        0 <= m < 0x8000,
    ensures
        s | m == s + m,
{
}

/// `1 << b` and masking with `(1 << b) - 1` on a nonnegative `i32`.
proof fn lemma_i32_mask(x: i32, b: u32)
    requires
        0 <= x,
        b <= 30,
    ensures
        (1i32 << b) == pow2(b as nat),
        (x & (((1i32 << b) - 1) as i32)) as int == (x as int) % (pow2(b as nat) as int),
        (x >> b) as int == (x as int) / (pow2(b as nat) as int),
{
    lemma_one_i32(b);
    vstd::bits::lemma_u32_pow2_no_overflow(b as nat);
    vstd::bits::lemma_u32_shl_is_mul(1, b);
    let m: i32 = ((1i32 << b) - 1) as i32;
    lemma_i32_as_u32(x, m, b);
    assert(m as u32 == vstd::bits::low_bits_mask(b as nat) as u32);
    vstd::bits::lemma_u32_low_bits_mask_is_mod(x as u32, b as nat);
    vstd::bits::lemma_u32_shr_is_div(x as u32, b);
}

/// A mask of the `b` lowest bits of a word: its value and what masking does.
proof fn lemma_u32_mask(x: u32, b: u32)
    requires
        1 <= b <= 31,
    ensures
        (1u32 << b) as int == pow2(b as nat),
        ((1u32 << b) - 1) as u32 as int == pow2(b as nat) - 1,
        (x & (((1u32 << b) - 1) as u32)) as int == (x as int) % (pow2(b as nat) as int),
{
    vstd::bits::lemma_u32_pow2_no_overflow(b as nat);
    vstd::bits::lemma_u32_shl_is_mul(1, b);
    vstd::bits::lemma_u32_low_bits_mask_is_mod(x, b as nat);
}

proof fn lemma_sign_extend_u32(x: i32, b: u32, k: u32, p: u32, h: u32, m: u32)
    by (bit_vector)
    requires
        1 <= b <= 31,
        k == 32 - b,
        p == 1u32 << b,
        h == 1u32 << ((b - 1) as u32),
        m == (p - 1) as u32,
        0 <= x,
    ensures
        ((x << k) >> k) as int == if ((x as u32) & m) >= h {
            ((x as u32) & m) as int - p as int
        } else {
            ((x as u32) & m) as int
        },
{
}

proof fn lemma_i32_as_u32_value(x: i32)
    by (bit_vector)
    ensures
        x >= 0 ==> (x as u32) as int == x as int,
        x < 0 ==> (x as u32) as int == x as int + 0x1_0000_0000,
{
}

proof fn lemma_masked_fits(x: u32, m: u32)
    by (bit_vector)
    requires
        m <= 0x7fff_ffff,
    ensures
        (x & m) <= m,
        ((x & m) as i32) as int == (x & m) as int,
{
}

/// The `bits` lowest bits of `val` read as a two's complement number.
fn extend_sign(val: i32, bits: u32) -> (r: i32)
    requires
        0 <= val,
        1 <= bits <= 31,
    ensures
        r == spec_extend_sign(val as int, bits as int),
        -pow2((bits - 1) as nat) <= r < pow2((bits - 1) as nat),
{
    proof {
        let bm1 = (bits - 1) as u32;
        lemma_u32_mask(val as u32, bits);
        vstd::bits::lemma_u32_pow2_no_overflow(bm1 as nat);
        vstd::bits::lemma_u32_shl_is_mul(1, bm1);
        vstd::arithmetic::power2::lemma_pow2_unfold(bits as nat);
        lemma_i32_as_u32_value(val);
        lemma_sign_extend_u32(
            val,
            bits,
            (32 - bits) as u32,
            1u32 << bits,
            1u32 << bm1,
            ((1u32 << bits) - 1) as u32,
        );
        lemma_pow2_pos(bits as nat);
        vstd::arithmetic::div_mod::lemma_mod_bound(val as int, pow2(bits as nat) as int);
    }
    val << (32 - bits) >> (32 - bits)
}

/// The difference `val` added to the base `a0`, kept to `bits` bits.
fn transform_inverse(val: i32, a0: i32, bits: u32, is_signed: bool) -> (r: i32)
    requires
        i32::MIN <= val + a0 <= i32::MAX,
        1 <= bits <= 31,
    ensures
        r == spec_transform_inverse(val as int, a0 as int, bits as int, is_signed),
        is_signed ==> -pow2((bits - 1) as nat) <= r < pow2((bits - 1) as nat),
        !is_signed ==> 0 <= r < pow2(bits as nat),
{
    let x = val + a0;
    proof {
        lemma_u32_mask(x as u32, bits);
        lemma_i32_as_u32_value(x);
        lemma_pow2_pos(bits as nat);
        lemma_pow2_adds(bits as nat, (32 - bits) as nat);
        vstd::bits::lemma_u32_pow2_no_overflow(bits as nat);
        lemma2_to64();
        vstd::arithmetic::div_mod::lemma_mod_multiples_vanish(
            pow2((32 - bits) as nat) as int,
            x as int,
            pow2(bits as nat) as int,
        );
        vstd::arithmetic::div_mod::lemma_mod_bound(x as int, pow2(bits as nat) as int);
    }
    let mask: u32 = (1u32 << bits) - 1;
    proof {
        lemma_masked_fits(x as u32, mask);
    }
    let m = ((x as u32) & mask) as i32;
    if is_signed {
        extend_sign(m, bits)
    } else {
        m
    }
}

/// Scales an endpoint channel of `bits` bits to the half-float range (see
/// `spec_unquantize`).
fn unquantize(val: i32, bits: u32, is_signed: bool) -> (r: i32)
    requires
        1 <= bits <= 16,
        is_signed ==> -pow2((bits - 1) as nat) <= val < pow2((bits - 1) as nat),
        !is_signed ==> 0 <= val < pow2(bits as nat),
    ensures
        r == spec_unquantize(val as int, bits as int, is_signed),
        is_signed ==> -32768 <= r <= 32767,
        !is_signed ==> 0 <= r <= 65535,
{
    proof {
        lemma2_to64();
        lemma_pow2_le(bits as nat, 16);
        lemma_pow2_le((bits - 1) as nat, 15);
        lemma_i32_mask(0, bits);
        lemma_i32_mask(0, (bits - 1) as u32);
        lemma_pow2_pos((bits - 1) as nat);
        vstd::arithmetic::power2::lemma_pow2_unfold(bits as nat);
    }
    let mut unq: i32 = 0;
    if !is_signed {
        if bits >= 15 {
            unq = val;
        } else if val == 0 {
            unq = 0;
        } else if val == (1i32 << bits) - 1 {
            unq = 0xffff;
        } else {
            proof {
                lemma_pow2_le(bits as nat, 14);
                lemma_i32_shifts(val);
                assert(val * 65536 + 0x8000 < pow2(bits as nat) * 65536) by (nonlinear_arith)
                    requires
                        val + 2 <= pow2(bits as nat),
                ;
                assert((val * 65536 + 0x8000) / (pow2(bits as nat) as int) < 65536) by {
                    vstd::arithmetic::div_mod::lemma_multiply_divide_lt(
                        val * 65536 + 0x8000,
                        pow2(bits as nat) as int,
                        65536,
                    );
                }
                lemma_i32_mask((val * 65536 + 0x8000) as i32, bits);
            }
            unq = ((val << 16) + 0x8000) >> bits;
        }
    } else if bits >= 16 {
        unq = val;
    } else {
        let mut s: bool = false;
        let mut a: i32 = val;
        if val < 0 {
            s = true;
            a = -val;
        }
        if a == 0 {
            unq = 0;
        } else if a >= (1i32 << (bits - 1)) - 1 {
            unq = 0x7fff;
        } else {
            proof {
                lemma_pow2_le((bits - 1) as nat, 14);
                lemma_i32_shifts(a);
                assert(a * 32768 + 0x4000 < pow2((bits - 1) as nat) * 32768) by (nonlinear_arith)
                    requires
                        a + 2 <= pow2((bits - 1) as nat),
                ;
                assert((a * 32768 + 0x4000) / (pow2((bits - 1) as nat) as int) < 32768) by {
                    vstd::arithmetic::div_mod::lemma_multiply_divide_lt(
                        a * 32768 + 0x4000,
                        pow2((bits - 1) as nat) as int,
                        32768,
                    );
                }
                lemma_i32_mask((a * 32768 + 0x4000) as i32, (bits - 1) as u32);
            }
            unq = ((a << 15) + 0x4000) >> (bits - 1);
        }
        if s {
            unq = -unq;
        }
    }
    unq
}

/// The value `w`/64 of the way from `a` to `b`, rounded down.
fn interpolate_i32(a: i32, b: i32, w: u32) -> (r: i32)
    requires
        -32768 <= a <= 65535,
        -32768 <= b <= 65535,
        w <= 64,
    ensures
        r == bptc_interpolate(a as int, b as int, w as int),
        (a >= 0 && b >= 0) ==> 0 <= r <= if a > b { a } else { b },
        (a <= 32767 && b <= 32767) ==> -32768 <= r <= 32767,
{
    let wi = w as i32;
    proof {
        assert(-32768 * 64 <= a * (64 - wi) <= 65535 * 64 && -32768 * 64 <= b * wi <= 65535 * 64)
            by (nonlinear_arith)
            requires
                -32768 <= a <= 65535,
                -32768 <= b <= 65535,
                0 <= wi <= 64,
        ;
        assert(-32768 * 64 <= a * (64 - wi) + b * wi <= 65535 * 64) by (nonlinear_arith)
            requires
                -32768 <= a <= 65535,
                -32768 <= b <= 65535,
                0 <= wi <= 64,
        ;
        assert((a >= 0 && b >= 0) ==> 0 <= a * (64 - wi) + b * wi <= (if a > b { a } else { b }) * 64)
            by (nonlinear_arith)
            requires
                0 <= wi <= 64,
        ;
        assert((a <= 32767 && b <= 32767) ==> a * (64 - wi) + b * wi <= 32767 * 64) by (nonlinear_arith)
            requires
                -32768 <= a,
                -32768 <= b,
                0 <= wi <= 64,
        ;
        lemma_i32_shifts((a * (64 - wi) + b * wi + 32) as i32);
    }
    (a * (64 - wi) + b * wi + 32) >> 6
}

/// The half-float bits of an interpolated channel (see `spec_finish_unquantize`).
fn finish_unquantize(val: i32, is_signed: bool) -> (r: u16)
    requires
        is_signed ==> -32768 <= val <= 32767,
        !is_signed ==> 0 <= val <= 65535,
    ensures
        r == spec_finish_unquantize(val as int, is_signed),
{
    if is_signed {
        let q: i32 = if val < 0 {
            proof {
                lemma_i32_shifts((-val * 31) as i32);
            }
            -((-val * 31) >> 5)
        } else {
            proof {
                lemma_i32_shifts((val * 31) as i32);
            }
            (val * 31) >> 5
        };
        let mut s: i32 = 0;
        let mut m: i32 = q;
        if q < 0 {
            s = 0x8000;
            m = -q;
        }
        proof {
            lemma_sign_or(s, m);
        }
        (s | m) as u16
    } else {
        proof {
            lemma_i32_shifts((val * 31) as i32);
        }
        ((val * 31) >> 6) as u16
    }
}

/// The unquantized value of endpoint field `c` (see `bc6h_endpoint`), from its raw
/// value and the raw value of its channel's first endpoint.
fn bc6h_endpoint_value(raw: i32, base_raw: i32, k: u32, c: u32, is_signed: bool) -> (r: i32)
    requires
        k < 14,
        c < 12,
        0 <= raw < pow2(bc6h_field_bits(k as int, c as int) as nat),
        0 <= base_raw < pow2(BC6H_BASE_BITS@[k as int] as nat),
    ensures
        r == bc6h_endpoint_from(raw as int, base_raw as int, k as int, is_signed, c as int),
        is_signed ==> -32768 <= r <= 32767,
        !is_signed ==> 0 <= r <= 65535,
{
    proof {
        lemma_bc6h_tables(k as int);
        lemma2_to64();
        lemma_pow2_le(bc6h_field_bits(k as int, c as int) as nat, 16);
        lemma_pow2_le(BC6H_BASE_BITS@[k as int] as nat, 16);
        lemma_pow2_le((BC6H_BASE_BITS@[k as int] - 1) as nat, 15);
    }
    let b0 = BC6H_BASE_BITS[k as usize];
    let base = if is_signed {
        extend_sign(base_raw, b0)
    } else {
        base_raw
    };
    let transformed = k != 9 && k != 10;
    let e = if c % 4 == 0 {
        base
    } else {
        let bits = if c / 4 == 0 {
            BC6H_RED_BITS[k as usize]
        } else if c / 4 == 1 {
            BC6H_GREEN_BITS[k as usize]
        } else {
            BC6H_BLUE_BITS[k as usize]
        };
        let x = if transformed || is_signed {
            extend_sign(raw, bits)
        } else {
            raw
        };
        if transformed {
            proof {
                lemma_pow2_le((bits - 1) as nat, 15);
            }
            transform_inverse(x, base, b0, is_signed)
        } else {
            x
        }
    };
    unquantize(e, b0, is_signed)
}

/// Reads the endpoint fields of a block of mode `k` (see `bc6h_raw`).
#[verifier::rlimit(80)]
fn bc6h_read_fields(reader: &mut BitReader, k: u32) -> (raw: Vec<i32>)
    requires
        old(reader).wf(),
        k < 14,
        old(reader).pos@ == if k < 2 {
            2int
        } else {
            5int
        },
    ensures
        final(reader).wf(),
        final(reader).origin@ == old(reader).origin@,
        final(reader).pos@ == bc6h_index_start(k as int),
        raw@.len() == 13,
        forall|c: int| 0 <= c < 13 ==> #[trigger] raw@[c] == bc6h_raw(old(reader).origin@, k as int)[c],
        forall|c: int| 0 <= c < 12 ==> 0 <= #[trigger] raw@[c] < pow2(bc6h_field_bits(k as int, c) as nat),
        0 <= raw@[12] < 32,
{
    let ghost v = reader.origin@;
    let mut r0: i32 = 0;
    let mut r1: i32 = 0;
    let mut r2: i32 = 0;
    let mut r3: i32 = 0;
    let mut g0: i32 = 0;
    let mut g1: i32 = 0;
    let mut g2: i32 = 0;
    let mut g3: i32 = 0;
    let mut b0: i32 = 0;
    let mut b1: i32 = 0;
    let mut b2: i32 = 0;
    let mut b3: i32 = 0;
    let mut partition: i32 = 0;
    proof {
        lemma2_to64();
    }
    if k == 0 {
        g2 = g2 + reader.read_bit() * 16;
        b2 = b2 + reader.read_bit() * 16;
        b3 = b3 + reader.read_bit() * 16;
        r0 = r0 + reader.read(10);
        g0 = g0 + reader.read(10);
        b0 = b0 + reader.read(10);
        r1 = r1 + reader.read(5);
        g3 = g3 + reader.read_bit() * 16;
        g2 = g2 + reader.read(4);
        g1 = g1 + reader.read(5);
        b3 = b3 + reader.read_bit();
        g3 = g3 + reader.read(4);
        b1 = b1 + reader.read(5);
        b3 = b3 + reader.read_bit() * 2;
        b2 = b2 + reader.read(4);
        r2 = r2 + reader.read(5);
        b3 = b3 + reader.read_bit() * 4;
        r3 = r3 + reader.read(5);
        b3 = b3 + reader.read_bit() * 8;
        partition = partition + reader.read(5);
    } else if k == 1 {
        g2 = g2 + reader.read_bit() * 32;
        g3 = g3 + reader.read_bit() * 16;
        g3 = g3 + reader.read_bit() * 32;
        r0 = r0 + reader.read(7);
        b3 = b3 + reader.read_bit();
        b3 = b3 + reader.read_bit() * 2;
        b2 = b2 + reader.read_bit() * 16;
        g0 = g0 + reader.read(7);
        b2 = b2 + reader.read_bit() * 32;
        b3 = b3 + reader.read_bit() * 4;
        g2 = g2 + reader.read_bit() * 16;
        b0 = b0 + reader.read(7);
        b3 = b3 + reader.read_bit() * 8;
        b3 = b3 + reader.read_bit() * 32;
        b3 = b3 + reader.read_bit() * 16;
        r1 = r1 + reader.read(6);
        g2 = g2 + reader.read(4);
        g1 = g1 + reader.read(6);
        g3 = g3 + reader.read(4);
        b1 = b1 + reader.read(6);
        b2 = b2 + reader.read(4);
        r2 = r2 + reader.read(6);
        r3 = r3 + reader.read(6);
        partition = partition + reader.read(5);
    } else if k == 2 {
        r0 = r0 + reader.read(10);
        g0 = g0 + reader.read(10);
        b0 = b0 + reader.read(10);
        r1 = r1 + reader.read(5);
        r0 = r0 + reader.read_bit() * 1024;
        g2 = g2 + reader.read(4);
        g1 = g1 + reader.read(4);
        g0 = g0 + reader.read_bit() * 1024;
        b3 = b3 + reader.read_bit();
        g3 = g3 + reader.read(4);
        b1 = b1 + reader.read(4);
        b0 = b0 + reader.read_bit() * 1024;
        b3 = b3 + reader.read_bit() * 2;
        b2 = b2 + reader.read(4);
        r2 = r2 + reader.read(5);
        b3 = b3 + reader.read_bit() * 4;
        r3 = r3 + reader.read(5);
        b3 = b3 + reader.read_bit() * 8;
        partition = partition + reader.read(5);
    } else if k == 3 {
        r0 = r0 + reader.read(10);
        g0 = g0 + reader.read(10);
        b0 = b0 + reader.read(10);
        r1 = r1 + reader.read(4);
        r0 = r0 + reader.read_bit() * 1024;
        g3 = g3 + reader.read_bit() * 16;
        g2 = g2 + reader.read(4);
        g1 = g1 + reader.read(5);
        g0 = g0 + reader.read_bit() * 1024;
        g3 = g3 + reader.read(4);
        b1 = b1 + reader.read(4);
        b0 = b0 + reader.read_bit() * 1024;
        b3 = b3 + reader.read_bit() * 2;
        b2 = b2 + reader.read(4);
        r2 = r2 + reader.read(4);
        b3 = b3 + reader.read_bit();
        b3 = b3 + reader.read_bit() * 4;
        r3 = r3 + reader.read(4);
        g2 = g2 + reader.read_bit() * 16;
        b3 = b3 + reader.read_bit() * 8;
        partition = partition + reader.read(5);
    } else if k == 4 {
        r0 = r0 + reader.read(10);
        g0 = g0 + reader.read(10);
        b0 = b0 + reader.read(10);
        r1 = r1 + reader.read(4);
        r0 = r0 + reader.read_bit() * 1024;
        b2 = b2 + reader.read_bit() * 16;
        g2 = g2 + reader.read(4);
        g1 = g1 + reader.read(4);
        g0 = g0 + reader.read_bit() * 1024;
        b3 = b3 + reader.read_bit();
        g3 = g3 + reader.read(4);
        b1 = b1 + reader.read(5);
        b0 = b0 + reader.read_bit() * 1024;
        b2 = b2 + reader.read(4);
        r2 = r2 + reader.read(4);
        b3 = b3 + reader.read_bit() * 2;
        b3 = b3 + reader.read_bit() * 4;
        r3 = r3 + reader.read(4);
        b3 = b3 + reader.read_bit() * 16;
        b3 = b3 + reader.read_bit() * 8;
        partition = partition + reader.read(5);
    } else if k == 5 {
        r0 = r0 + reader.read(9);
        b2 = b2 + reader.read_bit() * 16;
        g0 = g0 + reader.read(9);
        g2 = g2 + reader.read_bit() * 16;
        b0 = b0 + reader.read(9);
        b3 = b3 + reader.read_bit() * 16;
        r1 = r1 + reader.read(5);
        g3 = g3 + reader.read_bit() * 16;
        g2 = g2 + reader.read(4);
        g1 = g1 + reader.read(5);
        b3 = b3 + reader.read_bit();
        g3 = g3 + reader.read(4);
        b1 = b1 + reader.read(5);
        b3 = b3 + reader.read_bit() * 2;
        b2 = b2 + reader.read(4);
        r2 = r2 + reader.read(5);
        b3 = b3 + reader.read_bit() * 4;
        r3 = r3 + reader.read(5);
        b3 = b3 + reader.read_bit() * 8;
        partition = partition + reader.read(5);
    } else if k == 6 {
        r0 = r0 + reader.read(8);
        g3 = g3 + reader.read_bit() * 16;
        b2 = b2 + reader.read_bit() * 16;
        g0 = g0 + reader.read(8);
        b3 = b3 + reader.read_bit() * 4;
        g2 = g2 + reader.read_bit() * 16;
        b0 = b0 + reader.read(8);
        b3 = b3 + reader.read_bit() * 8;
        b3 = b3 + reader.read_bit() * 16;
        r1 = r1 + reader.read(6);
        g2 = g2 + reader.read(4);
        g1 = g1 + reader.read(5);
        b3 = b3 + reader.read_bit();
        g3 = g3 + reader.read(4);
        b1 = b1 + reader.read(5);
        b3 = b3 + reader.read_bit() * 2;
        b2 = b2 + reader.read(4);
        r2 = r2 + reader.read(6);
        r3 = r3 + reader.read(6);
        partition = partition + reader.read(5);
    } else if k == 7 {
        r0 = r0 + reader.read(8);
        b3 = b3 + reader.read_bit();
        b2 = b2 + reader.read_bit() * 16;
        g0 = g0 + reader.read(8);
        g2 = g2 + reader.read_bit() * 32;
        g2 = g2 + reader.read_bit() * 16;
        b0 = b0 + reader.read(8);
        g3 = g3 + reader.read_bit() * 32;
        b3 = b3 + reader.read_bit() * 16;
        r1 = r1 + reader.read(5);
        g3 = g3 + reader.read_bit() * 16;
        g2 = g2 + reader.read(4);
        g1 = g1 + reader.read(6);
        g3 = g3 + reader.read(4);
        b1 = b1 + reader.read(5);
        b3 = b3 + reader.read_bit() * 2;
        b2 = b2 + reader.read(4);
        r2 = r2 + reader.read(5);
        b3 = b3 + reader.read_bit() * 4;
        r3 = r3 + reader.read(5);
        b3 = b3 + reader.read_bit() * 8;
        partition = partition + reader.read(5);
    } else if k == 8 {
        r0 = r0 + reader.read(8);
        b3 = b3 + reader.read_bit() * 2;
        b2 = b2 + reader.read_bit() * 16;
        g0 = g0 + reader.read(8);
        b2 = b2 + reader.read_bit() * 32;
        g2 = g2 + reader.read_bit() * 16;
        b0 = b0 + reader.read(8);
        b3 = b3 + reader.read_bit() * 32;
        b3 = b3 + reader.read_bit() * 16;
        r1 = r1 + reader.read(5);
        g3 = g3 + reader.read_bit() * 16;
        g2 = g2 + reader.read(4);
        g1 = g1 + reader.read(5);
        b3 = b3 + reader.read_bit();
        g3 = g3 + reader.read(4);
        b1 = b1 + reader.read(6);
        b2 = b2 + reader.read(4);
        r2 = r2 + reader.read(5);
        b3 = b3 + reader.read_bit() * 4;
        r3 = r3 + reader.read(5);
        b3 = b3 + reader.read_bit() * 8;
        partition = partition + reader.read(5);
    } else if k == 9 {
        r0 = r0 + reader.read(6);
        g3 = g3 + reader.read_bit() * 16;
        b3 = b3 + reader.read_bit();
        b3 = b3 + reader.read_bit() * 2;
        b2 = b2 + reader.read_bit() * 16;
        g0 = g0 + reader.read(6);
        g2 = g2 + reader.read_bit() * 32;
        b2 = b2 + reader.read_bit() * 32;
        b3 = b3 + reader.read_bit() * 4;
        g2 = g2 + reader.read_bit() * 16;
        b0 = b0 + reader.read(6);
        g3 = g3 + reader.read_bit() * 32;
        b3 = b3 + reader.read_bit() * 8;
        b3 = b3 + reader.read_bit() * 32;
        b3 = b3 + reader.read_bit() * 16;
        r1 = r1 + reader.read(6);
        g2 = g2 + reader.read(4);
        g1 = g1 + reader.read(6);
        g3 = g3 + reader.read(4);
        b1 = b1 + reader.read(6);
        b2 = b2 + reader.read(4);
        r2 = r2 + reader.read(6);
        r3 = r3 + reader.read(6);
        partition = partition + reader.read(5);
    } else if k == 10 {
        r0 = r0 + reader.read(10);
        g0 = g0 + reader.read(10);
        b0 = b0 + reader.read(10);
        r1 = r1 + reader.read(10);
        g1 = g1 + reader.read(10);
        b1 = b1 + reader.read(10);
    } else if k == 11 {
        r0 = r0 + reader.read(10);
        g0 = g0 + reader.read(10);
        b0 = b0 + reader.read(10);
        r1 = r1 + reader.read(9);
        r0 = r0 + reader.read_bit() * 1024;
        g1 = g1 + reader.read(9);
        g0 = g0 + reader.read_bit() * 1024;
        b1 = b1 + reader.read(9);
        b0 = b0 + reader.read_bit() * 1024;
    } else if k == 12 {
        r0 = r0 + reader.read(10);
        g0 = g0 + reader.read(10);
        b0 = b0 + reader.read(10);
        r1 = r1 + reader.read(8);
        r0 = r0 + reader.read_reversed(2) * 1024;
        g1 = g1 + reader.read(8);
        g0 = g0 + reader.read_reversed(2) * 1024;
        b1 = b1 + reader.read(8);
        b0 = b0 + reader.read_reversed(2) * 1024;
    } else if k == 13 {
        r0 = r0 + reader.read(10);
        g0 = g0 + reader.read(10);
        b0 = b0 + reader.read(10);
        r1 = r1 + reader.read(4);
        r0 = r0 + reader.read_reversed(6) * 1024;
        g1 = g1 + reader.read(4);
        g0 = g0 + reader.read_reversed(6) * 1024;
        b1 = b1 + reader.read(4);
        b0 = b0 + reader.read_reversed(6) * 1024;
    }
    let raw = vec![r0, r1, r2, r3, g0, g1, g2, g3, b0, b1, b2, b3, partition];
    assert(forall|c: int| 0 <= c < 13 ==> #[trigger] raw@[c] == bc6h_raw(v, k as int)[c]);
    raw
}

/// The mode number of a mode code (see `bc6h_mode_of_code`), 14 for a reserved code.
fn bc6h_mode_number(code: i32) -> (k: u32)
    ensures
        bc6h_mode_of_code(code as int) == -1 ==> k == 14,
        bc6h_mode_of_code(code as int) != -1 ==> k == bc6h_mode_of_code(code as int),
{
    match code {
        0 => 0,
        1 => 1,
        2 => 2,
        6 => 3,
        10 => 4,
        14 => 5,
        18 => 6,
        22 => 7,
        26 => 8,
        30 => 9,
        3 => 10,
        7 => 11,
        11 => 12,
        15 => 13,
        _ => 14,
    }
}

/// Decodes the 16 texels of a BC6H block, 3 half-floats each.
#[verifier::rlimit(40)]
fn bc6h_texels(block: &[u8], is_signed: bool) -> (texels: Vec<u16>)
    requires
        block@.len() >= 16,
    ensures
        texels@ == spec_bc6h_texels(spec_block_value(block@), is_signed),
{
    let mut reader = BitReader::new(block);
    let ghost v = reader.origin@;
    proof {
        lemma2_to64();
    }
    let mut code = reader.read(2);
    if code > 1 {
        code = code + reader.read(3) * 4;
    }
    let k = bc6h_mode_number(code);
    if k >= 14 {
        let texels: Vec<u16> = vec![0u16; 48];
        assert(texels@ =~= spec_bc6h_texels(v, is_signed));
        return texels;
    }
    assert(k as int == bc6h_mode(v));
    let raw = bc6h_read_fields(&mut reader, k);
    proof {
        lemma_bc6h_tables(k as int);
        lemma2_to64();
    }
    let mut ep: Vec<i32> = Vec::new();
    let mut c: u32 = 0;
    while c < 12
        invariant
            k < 14,
            c <= 12,
            raw@.len() == 13,
            forall|i: int| 0 <= i < 13 ==> #[trigger] raw@[i] == bc6h_raw(v, k as int)[i],
            forall|i: int| 0 <= i < 12 ==> 0 <= #[trigger] raw@[i] < pow2(bc6h_field_bits(k as int, i) as nat),
            ep@.len() == c,
            forall|i: int| 0 <= i < c ==> #[trigger] ep@[i] == bc6h_endpoint(v, k as int, is_signed, i),
            forall|i: int| 0 <= i < c ==> -32768 <= #[trigger] ep@[i] <= 65535,
            forall|i: int| 0 <= i < c ==> is_signed ==> #[trigger] ep@[i] <= 32767,
            forall|i: int| 0 <= i < c ==> !is_signed ==> 0 <= #[trigger] ep@[i],
        decreases 12 - c,
    {
        let base_index = (c - c % 4) as usize;
        proof {
            assert(bc6h_field_bits(k as int, base_index as int) == BC6H_BASE_BITS@[k as int]);
        }
        let x = bc6h_endpoint_value(raw[c as usize], raw[base_index], k, c, is_signed);
        ep.push(x);
        c = c + 1;
    }
    let subsets: u32 = if k < 10 {
        2
    } else {
        1
    };
    let ib: u32 = if k < 10 {
        3
    } else {
        4
    };
    let partition = raw[12] as u32;
    let mut texels: Vec<u16> = Vec::new();
    let mut t: u32 = 0;
    while t < 16
        invariant
            k < 14,
            t <= 16,
            subsets == bc6h_subsets(k as int),
            ib == bc6h_index_bits(k as int),
            partition == bc6h_raw(v, k as int)[12],
            partition < 32,
            reader.wf(),
            reader.origin@ == v,
            reader.pos@ == bc6h_index_start(k as int) + bc6h_index_offset(v, k as int, t as int),
            ep@.len() == 12,
            forall|i: int| 0 <= i < 12 ==> #[trigger] ep@[i] == bc6h_endpoint(v, k as int, is_signed, i),
            forall|i: int| 0 <= i < 12 ==> -32768 <= #[trigger] ep@[i] <= 65535,
            forall|i: int| 0 <= i < 12 ==> is_signed ==> #[trigger] ep@[i] <= 32767,
            forall|i: int| 0 <= i < 12 ==> !is_signed ==> 0 <= #[trigger] ep@[i],
            texels@.len() == 3 * t,
            forall|n: int|
                0 <= n < 3 * t ==> #[trigger] texels@[n] == bc6h_texel_channel(v, is_signed, k as int, n / 3, n % 3) as u16,
        decreases 16 - t,
    {
        let mut bits = ib;
        if is_anchor(subsets, partition, t) {
            bits = bits - 1;
        }
        assert(bits == bc6h_index_size(v, k as int, t as int));
        let index = reader.read(bits as i32);
        proof {
            lemma2_to64();
            lemma_pow2_le(bits as nat, ib as nat);
            assert(bc6h_index_offset(v, k as int, t + 1) == bc6h_index_offset(v, k as int, t as int) + bits);
        }
        let w = weight(ib, index as u32);
        let s = partition_subset(subsets, partition, t);
        let e0 = (2 * s) as usize;
        let e1 = (2 * s + 1) as usize;
        let ghost before = texels@;
        let mut ch: usize = 0;
        while ch < 3
            invariant
                ch <= 3,
                t < 16,
                k < 14,
                e1 == e0 + 1,
                e1 < 4,
                e0 == 2 * bptc_subset(bc6h_subsets(k as int), bc6h_raw(v, k as int)[12], t as int),
                w == bptc_weight(bc6h_index_bits(k as int), bc6h_index(v, k as int, t as int)),
                w <= 64,
                ep@.len() == 12,
                forall|i: int| 0 <= i < 12 ==> #[trigger] ep@[i] == bc6h_endpoint(v, k as int, is_signed, i),
                forall|i: int| 0 <= i < 12 ==> -32768 <= #[trigger] ep@[i] <= 65535,
                forall|i: int| 0 <= i < 12 ==> is_signed ==> #[trigger] ep@[i] <= 32767,
                forall|i: int| 0 <= i < 12 ==> !is_signed ==> 0 <= #[trigger] ep@[i],
                before.len() == 3 * t,
                texels@.len() == 3 * t + ch,
                forall|n: int| 0 <= n < 3 * t ==> #[trigger] texels@[n] == before[n],
                forall|j: int|
                    0 <= j < ch ==> #[trigger] texels@[3 * t + j] == bc6h_texel_channel(v, is_signed, k as int, t as int, j) as u16,
            decreases 3 - ch,
        {
            let a = ep[4 * ch + e0];
            let b = ep[4 * ch + e1];
            let x = interpolate_i32(a, b, w);
            let h = finish_unquantize(x, is_signed);
            texels.push(h);
            ch = ch + 1;
        }
        proof {
            assert forall|n: int| 0 <= n < 3 * t + 3 implies #[trigger] texels@[n] == bc6h_texel_channel(
                v,
                is_signed,
                k as int,
                n / 3,
                n % 3,
            ) as u16 by {
                if n >= 3 * t {
                    assert(n / 3 == t as int);
                    assert(texels@[3 * t + (n % 3)] == texels@[n]);
                }
            }
        }
        t = t + 1;
    }
    assert(texels@ =~= spec_bc6h_texels(v, is_signed));
    texels
}

/// Decodes a BC6H block (16 bytes) into 4x4 RGB texels of 3 half-floats, signed or not.
pub fn bcdec_bc6h_half(
    compressed_block: &[u8],
    decompressed_block: &mut [u16],
    destination_pitch: u32,
    is_signed: bool,
)
    requires
        compressed_block@.len() >= 16,
        block_fits(old(decompressed_block)@.len() as int, 0, destination_pitch as int, 3, 3),
    ensures
        final(decompressed_block)@ == block_image(
            old(decompressed_block)@,
            0,
            destination_pitch as int,
            3,
            3,
            spec_bc6h_texels(spec_block_value(compressed_block@), is_signed),
        ),
{
    let texels = bc6h_texels(compressed_block, is_signed);
    write_block(decompressed_block, 0, destination_pitch as usize, 3, 3, texels.as_slice());
}

} // verus!

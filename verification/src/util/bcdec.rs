//! Decoding of single BC1 to BC7 blocks (4x4 texels each) into a texel buffer.
//!
//! A decoder writes the 4x4 block at the start of the destination, row `i` at
//! `i * pitch` (in elements of the destination), texel `j` of a row `px` elements
//! after texel `j - 1`, and `ch` channels per texel; every other element keeps its
//! value.
use vstd::prelude::*;
use crate::util::read::{Endian, read_u16, read_u32, spec_u16, spec_u32};
pub use crate::util::bptc::{bcdec_bc6h_half, bcdec_bc7};

verus! {

/// Block sizes in bytes of the compressed formats.
pub const BC1_BLOCK_SIZE: usize = 8;

pub const BC2_BLOCK_SIZE: usize = 16;

pub const BC3_BLOCK_SIZE: usize = 16;

pub const BC4_BLOCK_SIZE: usize = 8;

pub const BC5_BLOCK_SIZE: usize = 16;

pub const BC6H_BLOCK_SIZE: usize = 16;

pub const BC7_BLOCK_SIZE: usize = 16;

/// Whether element `p` of a destination is written by a block stored from `base`
/// with the given layout, and if so which texel row, texel and channel it holds.
pub open spec fn spec_block_cell(p: int, base: int, pitch: int, px: int, ch: int) -> Option<
    (int, int, int),
> {
    let off = p - base;
    if off < 0 {
        None
    } else {
        let i = off / pitch;
        let q = off % pitch;
        let j = q / px;
        let c = q % px;
        if i < 4 && j < 4 && c < ch {
            Some((i, j, c))
        } else {
            None
        }
    }
}

/// `dst` after writing the block whose texel `4 * i + j` has its channel `c` at
/// `texels[(4 * i + j) * ch + c]`.
pub open spec fn block_image<T>(
    dst: Seq<T>,
    base: int,
    pitch: int,
    px: int,
    ch: int,
    texels: Seq<T>,
) -> Seq<T> {
    Seq::new(
        dst.len(),
        |p: int|
            match spec_block_cell(p, base, pitch, px, ch) {
                Some((i, j, c)) => texels[(4 * i + j) * ch + c],
                None => dst[p],
            },
    )
}

/// The layout fits: texels do not overlap and the block lies inside `len` elements.
pub open spec fn block_fits(len: int, base: int, pitch: int, px: int, ch: int) -> bool {
    &&& 0 < ch <= px
    &&& 4 * px <= pitch
    &&& 0 <= base
    &&& base + 3 * pitch + 3 * px + ch <= len
}

proof fn lemma_block_cell(p: int, base: int, pitch: int, px: int, ch: int, i: int, j: int, c: int)
    requires
        0 < ch <= px,
        4 * px <= pitch,
        0 <= i < 4,
        0 <= j < 4,
        0 <= c < ch,
        p == base + i * pitch + j * px + c,
    ensures
        spec_block_cell(p, base, pitch, px, ch) == Some((i, j, c)),
{
    let q = j * px + c;
    assert(0 <= q < pitch) by (nonlinear_arith)
        requires
            q == j * px + c,
            0 <= j < 4,
            0 <= c < px,
            4 * px <= pitch,
    ;
    assert(p - base == i * pitch + q);
    vstd::arithmetic::div_mod::lemma_fundamental_div_mod_converse(p - base, pitch, i, q);
    vstd::arithmetic::div_mod::lemma_fundamental_div_mod_converse(q, px, j, c);
}

proof fn lemma_block_cell_bound(p: int, base: int, pitch: int, px: int, ch: int)
    requires
        0 < ch <= px,
        4 * px <= pitch,
        spec_block_cell(p, base, pitch, px, ch) is Some,
    ensures
        ({
            let (i, j, c) = spec_block_cell(p, base, pitch, px, ch)->Some_0;
            &&& 0 <= i < 4
            &&& 0 <= j < 4
            &&& 0 <= c < ch
            &&& p == base + i * pitch + j * px + c
        }),
{
    let off = p - base;
    vstd::arithmetic::div_mod::lemma_fundamental_div_mod(off, pitch);
    vstd::arithmetic::div_mod::lemma_fundamental_div_mod(off % pitch, px);
    assert(pitch > 0);
    vstd::arithmetic::div_mod::lemma_div_pos_is_pos(off, pitch);
    vstd::arithmetic::div_mod::lemma_mod_pos_bound(off, pitch);
    vstd::arithmetic::div_mod::lemma_div_pos_is_pos(off % pitch, px);
    vstd::arithmetic::div_mod::lemma_mod_pos_bound(off % pitch, px);
    assert(pitch * (off / pitch) == (off / pitch) * pitch) by (nonlinear_arith);
    assert(px * ((off % pitch) / px) == ((off % pitch) / px) * px) by (nonlinear_arith);
}

/// Writes a decoded block into `dst` (see the module documentation).
pub fn write_block<T: Copy>(
    dst: &mut [T],
    base: usize,
    pitch: usize,
    px: usize,
    ch: usize,
    texels: &[T],
)
    requires
        block_fits(old(dst)@.len() as int, base as int, pitch as int, px as int, ch as int),
        texels@.len() == 16 * ch,
    ensures
        final(dst)@ == block_image(old(dst)@, base as int, pitch as int, px as int, ch as int, texels@),
{
    let len = dst.len();
    let ghost start = dst@;
    let ghost target = block_image(start, base as int, pitch as int, px as int, ch as int, texels@);
    let mut i: usize = 0;
    while i < 4
        invariant
            0 < ch <= px,
            4 * px <= pitch,
            base + 3 * pitch + 3 * px + ch <= dst@.len(),
            texels@.len() == 16 * ch,
            dst@.len() == start.len(),
            len == dst@.len(),
            i <= 4,
            forall|p: int|
                0 <= p < dst@.len() ==> #[trigger] dst@[p] == match spec_block_cell(
                    p,
                    base as int,
                    pitch as int,
                    px as int,
                    ch as int,
                ) {
                    Some((ii, jj, cc)) => if ii < i {
                        texels@[(4 * ii + jj) * ch + cc]
                    } else {
                        start[p]
                    },
                    None => start[p],
                },
        decreases 4 - i,
    {
        let mut j: usize = 0;
        while j < 4
            invariant
                0 < ch <= px,
                4 * px <= pitch,
                base + 3 * pitch + 3 * px + ch <= dst@.len(),
                texels@.len() == 16 * ch,
                dst@.len() == start.len(),
                len == dst@.len(),
            len == dst@.len(),
                i < 4,
                j <= 4,
                forall|p: int|
                    0 <= p < dst@.len() ==> #[trigger] dst@[p] == match spec_block_cell(
                        p,
                        base as int,
                        pitch as int,
                        px as int,
                        ch as int,
                    ) {
                        Some((ii, jj, cc)) => if ii < i || (ii == i && jj < j) {
                            texels@[(4 * ii + jj) * ch + cc]
                        } else {
                            start[p]
                        },
                        None => start[p],
                    },
            decreases 4 - j,
        {
            let mut c: usize = 0;
            while c < ch
                invariant
                    0 < ch <= px,
                    4 * px <= pitch,
                    base + 3 * pitch + 3 * px + ch <= dst@.len(),
                    texels@.len() == 16 * ch,
                    dst@.len() == start.len(),
                    len == dst@.len(),
                len == dst@.len(),
            len == dst@.len(),
                    i < 4,
                    j < 4,
                    c <= ch,
                    forall|p: int|
                        0 <= p < dst@.len() ==> #[trigger] dst@[p] == match spec_block_cell(
                            p,
                            base as int,
                            pitch as int,
                            px as int,
                            ch as int,
                        ) {
                            Some((ii, jj, cc)) => if ii < i || (ii == i && jj < j) || (ii == i
                                && jj == j && cc < c) {
                                texels@[(4 * ii + jj) * ch + cc]
                            } else {
                                start[p]
                            },
                            None => start[p],
                        },
                decreases ch - c,
            {
                proof {
                    assert(i * pitch <= 3 * pitch && j * px <= 3 * px) by (nonlinear_arith)
                        requires
                            i < 4,
                            j < 4,
                    ;
                    assert(i * pitch + j * px + c < 3 * pitch + 3 * px + ch) by (nonlinear_arith)
                        requires
                            i < 4,
                            j < 4,
                            c < ch,
                            ch <= px,
                            4 * px <= pitch,
                    ;
                    assert((4 * i + j) * ch + c < 16 * ch) by (nonlinear_arith)
                        requires
                            i < 4,
                            j < 4,
                            c < ch,
                    ;
                }
                let p = base + i * pitch + j * px + c;
                let v = texels[(4 * i + j) * ch + c];
                proof {
                    lemma_block_cell(
                        p as int,
                        base as int,
                        pitch as int,
                        px as int,
                        ch as int,
                        i as int,
                        j as int,
                        c as int,
                    );
                }
                dst[p] = v;
                proof {
                    assert forall|q: int| 0 <= q < dst@.len() implies #[trigger] dst@[q] == match spec_block_cell(
                        q,
                        base as int,
                        pitch as int,
                        px as int,
                        ch as int,
                    ) {
                        Some((ii, jj, cc)) => if ii < i || (ii == i && jj < j) || (ii == i && jj
                            == j && cc < c + 1) {
                            texels@[(4 * ii + jj) * ch + cc]
                        } else {
                            start[q]
                        },
                        None => start[q],
                    } by {
                        if q != p && spec_block_cell(
                            q,
                            base as int,
                            pitch as int,
                            px as int,
                            ch as int,
                        ) is Some {
                            lemma_block_cell_bound(q, base as int, pitch as int, px as int, ch as int);
                        }
                    }
                }
                c = c + 1;
            }
            j = j + 1;
        }
        i = i + 1;
    }
    assert(dst@ =~= target);
}

/// `x` divided `n` times by `b`: the digits of `x` in base `b` from digit `n` on.
pub open spec fn spec_shr(x: int, b: int, n: int) -> int
    decreases n,
{
    if n <= 0 {
        x
    } else {
        spec_shr(x, b, n - 1) / b
    }
}

/// Digit `n` of `x` in base `b`.
pub open spec fn spec_digit(x: int, b: int, n: int) -> int {
    spec_shr(x, b, n) % b
}

/// A 5-bit channel scaled to 8 bits.
pub open spec fn spec_expand5(v: int) -> int {
    (v * 527 + 23) / 64
}

/// A 6-bit channel scaled to 8 bits.
pub open spec fn spec_expand6(v: int) -> int {
    (v * 259 + 33) / 64
}

/// Entry `k` of the palette of a BC1 color block with end colors `c0` and `c1` (RGB
/// 5:6:5), as red, green, blue and alpha. In opaque mode, or when `c0 > c1`, the two
/// other entries are the colors one third and two thirds of the way; otherwise they
/// are the midpoint and transparent black.
pub open spec fn spec_color_palette(c0: int, c1: int, k: int, opaque: bool) -> Seq<u8> {
    let r0 = spec_expand5(c0 / 2048 % 32);
    let g0 = spec_expand6(c0 / 32 % 64);
    let b0 = spec_expand5(c0 % 32);
    let r1 = spec_expand5(c1 / 2048 % 32);
    let g1 = spec_expand6(c1 / 32 % 64);
    let b1 = spec_expand5(c1 % 32);
    if k == 0 {
        seq![r0 as u8, g0 as u8, b0 as u8, 255u8]
    } else if k == 1 {
        seq![r1 as u8, g1 as u8, b1 as u8, 255u8]
    } else if c0 > c1 || opaque {
        if k == 2 {
            seq![
                ((2 * r0 + r1 + 1) / 3) as u8,
                ((2 * g0 + g1 + 1) / 3) as u8,
                ((2 * b0 + b1 + 1) / 3) as u8,
                255u8,
            ]
        } else {
            seq![
                ((r0 + 2 * r1 + 1) / 3) as u8,
                ((g0 + 2 * g1 + 1) / 3) as u8,
                ((b0 + 2 * b1 + 1) / 3) as u8,
                255u8,
            ]
        }
    } else if k == 2 {
        seq![((r0 + r1 + 1) / 2) as u8, ((g0 + g1 + 1) / 2) as u8, ((b0 + b1 + 1) / 2) as u8, 255u8]
    } else {
        seq![0u8, 0u8, 0u8, 0u8]
    }
}

/// The 16 RGBA texels of the BC1 color block stored at `at` in `s`: texel `t` takes
/// the palette entry named by the `t`-th 2-bit index.
pub open spec fn spec_color_texels(s: Seq<u8>, at: int, opaque: bool) -> Seq<u8> {
    let c0 = spec_u16(s, at, Endian::Little);
    let c1 = spec_u16(s, at + 2, Endian::Little);
    let indices = spec_u32(s, at + 4, Endian::Little);
    Seq::new(
        64,
        |n: int| spec_color_palette(c0, c1, spec_digit(indices, 4, n / 4), opaque)[n % 4],
    )
}

/// Entry `k` of the palette of an interpolated alpha block with end values `a0` and `a1`:
/// six values evenly between them when `a0 > a1`, otherwise four values between them,
/// then 0 and 255.
pub open spec fn spec_alpha_palette(a0: int, a1: int, k: int) -> int {
    if k == 0 {
        a0
    } else if k == 1 {
        a1
    } else if a0 > a1 {
        if k == 2 {
            (6 * a0 + a1 + 1) / 7
        } else if k == 3 {
            (5 * a0 + 2 * a1 + 1) / 7
        } else if k == 4 {
            (4 * a0 + 3 * a1 + 1) / 7
        } else if k == 5 {
            (3 * a0 + 4 * a1 + 1) / 7
        } else if k == 6 {
            (2 * a0 + 5 * a1 + 1) / 7
        } else {
            (a0 + 6 * a1 + 1) / 7
        }
    } else if k == 2 {
        (4 * a0 + a1 + 1) / 5
    } else if k == 3 {
        (3 * a0 + 2 * a1 + 1) / 5
    } else if k == 4 {
        (2 * a0 + 3 * a1 + 1) / 5
    } else if k == 5 {
        (a0 + 4 * a1 + 1) / 5
    } else if k == 6 {
        0
    } else {
        255
    }
}

/// The 16 alpha values of the interpolated alpha block stored at `at` in `s`: two end
/// values, then 3-bit indices in a 48-bit little-endian field.
pub open spec fn spec_smooth_alpha_texels(s: Seq<u8>, at: int) -> Seq<u8> {
    let indices = spec_u32(s, at + 2, Endian::Little) + 4294967296 * spec_u16(
        s,
        at + 6,
        Endian::Little,
    );
    Seq::new(16, |n: int| spec_alpha_palette(s[at] as int, s[at + 1] as int, spec_digit(indices, 8, n)) as u8)
}

/// The 16 alpha values of the explicit alpha block stored at `at` in `s`: one 16-bit
/// row per texel row, 4 bits per texel, scaled to 8 bits.
pub open spec fn spec_sharp_alpha_texels(s: Seq<u8>, at: int) -> Seq<u8> {
    Seq::new(
        16,
        |n: int| (spec_digit(spec_u16(s, at + 2 * (n / 4), Endian::Little), 16, n % 4) * 17) as u8,
    )
}

/// The texels of a BC1 color block.
fn color_texels(block: &[u8], at: usize, opaque: bool) -> (r: Vec<u8>)
    requires
        at + 8 <= block@.len(),
    ensures
        r@ == spec_color_texels(block@, at as int, opaque),
{
    let _len = block.len();
    let c0 = read_u16(block, at, Endian::Little).unwrap() as u32;
    let c1 = read_u16(block, at + 2, Endian::Little).unwrap() as u32;
    let r0 = (c0 / 2048 % 32 * 527 + 23) / 64;
    let g0 = (c0 / 32 % 64 * 259 + 33) / 64;
    let b0 = (c0 % 32 * 527 + 23) / 64;
    let r1 = (c1 / 2048 % 32 * 527 + 23) / 64;
    let g1 = (c1 / 32 % 64 * 259 + 33) / 64;
    let b1 = (c1 % 32 * 527 + 23) / 64;
    let mut palette: Vec<Vec<u8>> = Vec::new();
    palette.push(vec![r0 as u8, g0 as u8, b0 as u8, 255u8]);
    palette.push(vec![r1 as u8, g1 as u8, b1 as u8, 255u8]);
    if c0 > c1 || opaque {
        palette.push(
            vec![
                ((2 * r0 + r1 + 1) / 3) as u8,
                ((2 * g0 + g1 + 1) / 3) as u8,
                ((2 * b0 + b1 + 1) / 3) as u8,
                255u8,
            ],
        );
        palette.push(
            vec![
                ((r0 + 2 * r1 + 1) / 3) as u8,
                ((g0 + 2 * g1 + 1) / 3) as u8,
                ((b0 + 2 * b1 + 1) / 3) as u8,
                255u8,
            ],
        );
    } else {
        palette.push(
            vec![((r0 + r1 + 1) / 2) as u8, ((g0 + g1 + 1) / 2) as u8, ((b0 + b1 + 1) / 2) as u8, 255u8],
        );
        palette.push(vec![0u8, 0u8, 0u8, 0u8]);
    }
    let ghost c0s = spec_u16(block@, at as int, Endian::Little);
    let ghost c1s = spec_u16(block@, at as int + 2, Endian::Little);
    proof {
        assert forall|k: int| 0 <= k < 4 implies #[trigger] palette@[k]@ =~= spec_color_palette(
            c0s,
            c1s,
            k,
            opaque,
        ) by {}
    }
    let indices = read_u32(block, at + 4, Endian::Little).unwrap();
    let ghost ind = spec_u32(block@, at as int + 4, Endian::Little);
    let mut rem = indices;
    let mut out: Vec<u8> = Vec::new();
    let mut n: usize = 0;
    while n < 16
        invariant
            n <= 16,
            palette@.len() == 4,
            forall|k: int| 0 <= k < 4 ==> #[trigger] palette@[k]@ == spec_color_palette(c0s, c1s, k, opaque),
            rem == spec_shr(ind, 4, n as int),
            out@.len() == 4 * n,
            forall|m: int|
                0 <= m < 4 * n ==> #[trigger] out@[m] == spec_color_palette(
                    c0s,
                    c1s,
                    spec_digit(ind, 4, m / 4),
                    opaque,
                )[m % 4],
        decreases 16 - n,
    {
        let k = (rem % 4) as usize;
        let entry = &palette[k];
        out.push(entry[0]);
        out.push(entry[1]);
        out.push(entry[2]);
        out.push(entry[3]);
        proof {
            assert forall|m: int| 0 <= m < 4 * n + 4 implies #[trigger] out@[m] == spec_color_palette(
                c0s,
                c1s,
                spec_digit(ind, 4, m / 4),
                opaque,
            )[m % 4] by {
                if m >= 4 * n {
                    assert(m / 4 == n as int);
                }
            }
        }
        rem = rem / 4;
        n = n + 1;
    }
    assert(out@ =~= spec_color_texels(block@, at as int, opaque));
    out
}

/// The palette of an interpolated alpha block with end values `a0` and `a1`.
#[verifier::rlimit(40)]
fn alpha_palette(a0: u32, a1: u32) -> (r: Vec<u8>)
    requires
        a0 < 256,
        a1 < 256,
    ensures
        r@.len() == 8,
        forall|k: int| 0 <= k < 8 ==> #[trigger] r@[k] == spec_alpha_palette(a0 as int, a1 as int, k) as u8,
{
    let mut alpha: Vec<u8> = Vec::new();
    alpha.push(a0 as u8);
    alpha.push(a1 as u8);
    if a0 > a1 {
        alpha.push(((6 * a0 + a1 + 1) / 7) as u8);
        alpha.push(((5 * a0 + 2 * a1 + 1) / 7) as u8);
        alpha.push(((4 * a0 + 3 * a1 + 1) / 7) as u8);
        alpha.push(((3 * a0 + 4 * a1 + 1) / 7) as u8);
        alpha.push(((2 * a0 + 5 * a1 + 1) / 7) as u8);
        alpha.push(((a0 + 6 * a1 + 1) / 7) as u8);
    } else {
        alpha.push(((4 * a0 + a1 + 1) / 5) as u8);
        alpha.push(((3 * a0 + 2 * a1 + 1) / 5) as u8);
        alpha.push(((2 * a0 + 3 * a1 + 1) / 5) as u8);
        alpha.push(((a0 + 4 * a1 + 1) / 5) as u8);
        alpha.push(0u8);
        alpha.push(0xffu8);
    }
    proof {
        assert(alpha@[0] == spec_alpha_palette(a0 as int, a1 as int, 0) as u8);
        assert(alpha@[1] == spec_alpha_palette(a0 as int, a1 as int, 1) as u8);
        assert(alpha@[2] == spec_alpha_palette(a0 as int, a1 as int, 2) as u8);
        assert(alpha@[3] == spec_alpha_palette(a0 as int, a1 as int, 3) as u8);
        assert(alpha@[4] == spec_alpha_palette(a0 as int, a1 as int, 4) as u8);
        assert(alpha@[5] == spec_alpha_palette(a0 as int, a1 as int, 5) as u8);
        assert(alpha@[6] == spec_alpha_palette(a0 as int, a1 as int, 6) as u8);
        assert(alpha@[7] == spec_alpha_palette(a0 as int, a1 as int, 7) as u8);
        assert forall|k: int| 0 <= k < 8 implies #[trigger] alpha@[k] == spec_alpha_palette(
            a0 as int,
            a1 as int,
            k,
        ) as u8 by {
            if k == 0 {
            } else if k == 1 {
            } else if k == 2 {
            } else if k == 3 {
            } else if k == 4 {
            } else if k == 5 {
            } else if k == 6 {
            } else {
            }
        }
    }
    alpha
}

/// The values of an interpolated alpha block.
fn smooth_alpha_texels(block: &[u8], at: usize) -> (r: Vec<u8>)
    requires
        at + 8 <= block@.len(),
    ensures
        r@ == spec_smooth_alpha_texels(block@, at as int),
{
    let _len = block.len();
    let a0 = block[at] as u32;
    let a1 = block[at + 1] as u32;
    let alpha = alpha_palette(a0, a1);
    let lo = read_u32(block, at + 2, Endian::Little).unwrap() as u64;
    let hi = read_u16(block, at + 6, Endian::Little).unwrap() as u64;
    let indices = lo + 4294967296 * hi;
    let ghost ind = indices as int;
    let mut rem = indices;
    let mut out: Vec<u8> = Vec::new();
    let mut n: usize = 0;
    while n < 16
        invariant
            n <= 16,
            alpha@.len() == 8,
            forall|k: int| 0 <= k < 8 ==> #[trigger] alpha@[k] == spec_alpha_palette(a0 as int, a1 as int, k) as u8,
            rem == spec_shr(ind, 8, n as int),
            out@.len() == n,
            forall|m: int|
                0 <= m < n ==> #[trigger] out@[m] == spec_alpha_palette(
                    a0 as int,
                    a1 as int,
                    spec_digit(ind, 8, m),
                ) as u8,
        decreases 16 - n,
    {
        out.push(alpha[(rem % 8) as usize]);
        rem = rem / 8;
        n = n + 1;
    }
    assert(out@ =~= spec_smooth_alpha_texels(block@, at as int));
    out
}

/// The values of an explicit alpha block.
fn sharp_alpha_texels(block: &[u8], at: usize) -> (r: Vec<u8>)
    requires
        at + 8 <= block@.len(),
    ensures
        r@ == spec_sharp_alpha_texels(block@, at as int),
{
    let len = block.len();
    let mut out: Vec<u8> = Vec::new();
    let mut i: usize = 0;
    while i < 4
        invariant
            i <= 4,
            at + 8 <= block@.len(),
            len == block@.len(),
            out@.len() == 4 * i,
            forall|m: int|
                0 <= m < 4 * i ==> #[trigger] out@[m] == (spec_digit(
                    spec_u16(block@, at + 2 * (m / 4), Endian::Little),
                    16,
                    m % 4,
                ) * 17) as u8,
        decreases 4 - i,
    {
        let row = read_u16(block, at + 2 * i, Endian::Little).unwrap();
        let ghost rv = row as int;
        let mut rem = row;
        let mut j: usize = 0;
        while j < 4
            invariant
                i < 4,
                j <= 4,
                rv == spec_u16(block@, at + 2 * i, Endian::Little),
                rem == spec_shr(rv, 16, j as int),
                out@.len() == 4 * i + j,
                forall|m: int|
                    0 <= m < 4 * i + j ==> #[trigger] out@[m] == (spec_digit(
                        spec_u16(block@, at + 2 * (m / 4), Endian::Little),
                        16,
                        m % 4,
                    ) * 17) as u8,
            decreases 4 - j,
        {
            out.push(((rem % 16) * 17) as u8);
            proof {
                let m = 4 * i + j;
                assert(m / 4 == i as int && m % 4 == j as int);
            }
            rem = rem / 16;
            j = j + 1;
        }
        i = i + 1;
    }
    assert(out@ =~= spec_sharp_alpha_texels(block@, at as int));
    out
}

/// Decodes a BC1 block (8 bytes) into 4x4 RGBA texels of 4 bytes.
pub fn bcdec_bc1(compressed_block: &[u8], decompressed_block: &mut [u8], destination_pitch: u32)
    requires
        compressed_block@.len() >= BC1_BLOCK_SIZE,
        block_fits(old(decompressed_block)@.len() as int, 0, destination_pitch as int, 4, 4),
    ensures
        final(decompressed_block)@ == block_image(
            old(decompressed_block)@,
            0,
            destination_pitch as int,
            4,
            4,
            spec_color_texels(compressed_block@, 0, false),
        ),
{
    let texels = color_texels(compressed_block, 0, false);
    write_block(decompressed_block, 0, destination_pitch as usize, 4, 4, texels.as_slice());
}

/// Decodes a BC2 block (16 bytes: explicit alpha, then an opaque-mode color block)
/// into 4x4 RGBA texels of 4 bytes.
pub fn bcdec_bc2(compressed_block: &[u8], decompressed_block: &mut [u8], destination_pitch: u32)
    requires
        compressed_block@.len() >= BC2_BLOCK_SIZE,
        block_fits(old(decompressed_block)@.len() as int, 0, destination_pitch as int, 4, 4),
    ensures
        final(decompressed_block)@ == block_image(
            block_image(
                old(decompressed_block)@,
                0,
                destination_pitch as int,
                4,
                4,
                spec_color_texels(compressed_block@, 8, true),
            ),
            3,
            destination_pitch as int,
            4,
            1,
            spec_sharp_alpha_texels(compressed_block@, 0),
        ),
{
    let texels = color_texels(compressed_block, 8, true);
    write_block(decompressed_block, 0, destination_pitch as usize, 4, 4, texels.as_slice());
    let alpha = sharp_alpha_texels(compressed_block, 0);
    write_block(decompressed_block, 3, destination_pitch as usize, 4, 1, alpha.as_slice());
}

/// Decodes a BC3 block (16 bytes: interpolated alpha, then an opaque-mode color block)
/// into 4x4 RGBA texels of 4 bytes.
pub fn bcdec_bc3(compressed_block: &[u8], decompressed_block: &mut [u8], destination_pitch: u32)
    requires
        compressed_block@.len() >= BC3_BLOCK_SIZE,
        block_fits(old(decompressed_block)@.len() as int, 0, destination_pitch as int, 4, 4),
    ensures
        final(decompressed_block)@ == block_image(
            block_image(
                old(decompressed_block)@,
                0,
                destination_pitch as int,
                4,
                4,
                spec_color_texels(compressed_block@, 8, true),
            ),
            3,
            destination_pitch as int,
            4,
            1,
            spec_smooth_alpha_texels(compressed_block@, 0),
        ),
{
    let texels = color_texels(compressed_block, 8, true);
    write_block(decompressed_block, 0, destination_pitch as usize, 4, 4, texels.as_slice());
    let alpha = smooth_alpha_texels(compressed_block, 0);
    write_block(decompressed_block, 3, destination_pitch as usize, 4, 1, alpha.as_slice());
}

/// Decodes a BC4 block (8 bytes) into 4x4 single-channel texels of 1 byte.
pub fn bcdec_bc4(compressed_block: &[u8], decompressed_block: &mut [u8], destination_pitch: u32)
    requires
        compressed_block@.len() >= BC4_BLOCK_SIZE,
        block_fits(old(decompressed_block)@.len() as int, 0, destination_pitch as int, 1, 1),
    ensures
        final(decompressed_block)@ == block_image(
            old(decompressed_block)@,
            0,
            destination_pitch as int,
            1,
            1,
            spec_smooth_alpha_texels(compressed_block@, 0),
        ),
{
    let texels = smooth_alpha_texels(compressed_block, 0);
    write_block(decompressed_block, 0, destination_pitch as usize, 1, 1, texels.as_slice());
}

/// Decodes a BC5 block (16 bytes: two interpolated channels) into 4x4 two-channel
/// texels of 2 bytes.
pub fn bcdec_bc5(compressed_block: &[u8], decompressed_block: &mut [u8], destination_pitch: u32)
    requires
        compressed_block@.len() >= BC5_BLOCK_SIZE,
        block_fits(old(decompressed_block)@.len() as int, 0, destination_pitch as int, 2, 2),
    ensures
        final(decompressed_block)@ == block_image(
            block_image(
                old(decompressed_block)@,
                0,
                destination_pitch as int,
                2,
                1,
                spec_smooth_alpha_texels(compressed_block@, 0),
            ),
            1,
            destination_pitch as int,
            2,
            1,
            spec_smooth_alpha_texels(compressed_block@, 8),
        ),
{
    let red = smooth_alpha_texels(compressed_block, 0);
    write_block(decompressed_block, 0, destination_pitch as usize, 2, 1, red.as_slice());
    let green = smooth_alpha_texels(compressed_block, 8);
    write_block(decompressed_block, 1, destination_pitch as usize, 2, 1, green.as_slice());
}

/// The palette of an interpolated alpha block runs evenly from the first end value to
/// the second: when `a0 > a1`, entry `k` (2 to 7) is `((8 - k) * a0 + (k - 1) * a1 + 1) / 7`,
/// so the entries fall step by step from `a0` towards `a1`; otherwise entry `k` (2 to
/// 5) is `((6 - k) * a0 + (k - 1) * a1 + 1) / 5`, entry 6 is 0 and entry 7 is 255.
pub proof fn lemma_alpha_palette_interpolates(a0: int, a1: int, k: int)
    requires
        0 <= a0 <= 255,
        0 <= a1 <= 255,
        0 <= k < 8,
    ensures
        k == 0 ==> spec_alpha_palette(a0, a1, k) == a0,
        k == 1 ==> spec_alpha_palette(a0, a1, k) == a1,
        a0 > a1 && k >= 2 ==> spec_alpha_palette(a0, a1, k) == ((8 - k) * a0 + (k - 1) * a1 + 1) / 7,
        a0 > a1 && 2 <= k < 7 ==> spec_alpha_palette(a0, a1, k) >= spec_alpha_palette(a0, a1, k + 1),
        a0 > a1 && k >= 2 ==> a1 <= spec_alpha_palette(a0, a1, k) <= a0,
        a0 <= a1 && 2 <= k <= 5 ==> spec_alpha_palette(a0, a1, k) == ((6 - k) * a0 + (k - 1) * a1 + 1) / 5,
        a0 <= a1 && k == 6 ==> spec_alpha_palette(a0, a1, k) == 0,
        a0 <= a1 && k == 7 ==> spec_alpha_palette(a0, a1, k) == 255,
{
    if k == 2 {
    } else if k == 3 {
    } else if k == 4 {
    } else if k == 5 {
    } else if k == 6 {
    } else if k == 7 {
    }
    if a0 > a1 && 2 <= k < 7 {
        assert(((8 - k) * a0 + (k - 1) * a1 + 1) / 7 >= ((7 - k) * a0 + k * a1 + 1) / 7) by (nonlinear_arith)
            requires
                a0 > a1,
                2 <= k < 7,
        ;
    }
    if a0 > a1 && k >= 2 {
        assert(a1 <= ((8 - k) * a0 + (k - 1) * a1 + 1) / 7 <= a0) by (nonlinear_arith)
            requires
                a0 > a1,
                2 <= k <= 7,
                0 <= a1,
        ;
    }
}

/// Each texel of an interpolated alpha block (BC3 alpha, BC4, BC5 channels) is the
/// palette entry that its 3-bit index names: with end values `a0 > a1`, index `k >= 2`
/// gives `((8 - k) * a0 + (k - 1) * a1 + 1) / 7`, so index 2 is the value nearest `a0`.
pub proof fn lemma_smooth_alpha_texel(s: Seq<u8>, at: int, n: int)
    requires
        0 <= at,
        at + 8 <= s.len(),
        0 <= n < 16,
    ensures
        ({
            let a0 = s[at] as int;
            let a1 = s[at + 1] as int;
            let indices = spec_u32(s, at + 2, Endian::Little) + 4294967296 * spec_u16(s, at + 6, Endian::Little);
            let k = spec_digit(indices, 8, n);
            &&& 0 <= k < 8
            &&& (a0 > a1 && k >= 2 ==> spec_smooth_alpha_texels(s, at)[n] == ((8 - k) * a0 + (k - 1) * a1 + 1) / 7)
            &&& (k == 0 ==> spec_smooth_alpha_texels(s, at)[n] == a0)
            &&& (k == 1 ==> spec_smooth_alpha_texels(s, at)[n] == a1)
        }),
{
    let a0 = s[at] as int;
    let a1 = s[at + 1] as int;
    let indices = spec_u32(s, at + 2, Endian::Little) + 4294967296 * spec_u16(s, at + 6, Endian::Little);
    let k = spec_digit(indices, 8, n);
    lemma_alpha_palette_interpolates(a0, a1, k);
    if a0 > a1 && k >= 2 {
        assert(0 <= ((8 - k) * a0 + (k - 1) * a1 + 1) / 7 <= 255) by (nonlinear_arith)
            requires
                a0 > a1,
                2 <= k <= 7,
                0 <= a1,
                a0 <= 255,
        ;
    }
}

/// A 5-bit channel widens to the nearest 8-bit value, `v * 255 / 31` rounded; a
/// 6-bit channel to `v * 255 / 63` rounded.
pub proof fn lemma_expand_rounds(v5: u32, v6: u32)
    requires
        v5 < 32,
        v6 < 64,
    ensures
        spec_expand5(v5 as int) == (v5 * 255 + 15) / 31,
        spec_expand6(v6 as int) == (v6 * 255 + 31) / 63,
{
    assert((v5 * 527 + 23) / 64 == (v5 * 255 + 15) / 31) by (bit_vector)
        requires
            v5 < 32,
    ;
    assert((v6 * 259 + 33) / 64 == (v6 * 255 + 31) / 63) by (bit_vector)
        requires
            v6 < 64,
    ;
}

/// The palette of a BC1 colour block: entries 0 and 1 are the end colours (red in
/// the top 5 bits, green in the middle 6, blue in the low 5, each widened to 8 bits,
/// opaque); in four-colour mode (`c0 > c1`, or an opaque block) entry 2 lies a third
/// of the way from colour 0 to colour 1 and entry 3 two thirds; otherwise entry 2 is
/// their midpoint and entry 3 transparent black.
pub proof fn lemma_color_palette_interpolates(c0: int, c1: int, k: int, opaque: bool, ch: int)
    requires
        0 <= c0 < 65536,
        0 <= c1 < 65536,
        0 <= k < 4,
        0 <= ch < 3,
    ensures
        ({
            let e0 = if ch == 0 {
                spec_expand5(c0 / 2048 % 32)
            } else if ch == 1 {
                spec_expand6(c0 / 32 % 64)
            } else {
                spec_expand5(c0 % 32)
            };
            let e1 = if ch == 0 {
                spec_expand5(c1 / 2048 % 32)
            } else if ch == 1 {
                spec_expand6(c1 / 32 % 64)
            } else {
                spec_expand5(c1 % 32)
            };
            let p = spec_color_palette(c0, c1, k, opaque);
            &&& p.len() == 4
            &&& k == 0 ==> p[ch] == e0 as u8 && p[3] == 255
            &&& k == 1 ==> p[ch] == e1 as u8 && p[3] == 255
            &&& (c0 > c1 || opaque) && k == 2 ==> p[ch] == ((2 * e0 + e1 + 1) / 3) as u8 && p[3] == 255
            &&& (c0 > c1 || opaque) && k == 3 ==> p[ch] == ((e0 + 2 * e1 + 1) / 3) as u8 && p[3] == 255
            &&& !(c0 > c1 || opaque) && k == 2 ==> p[ch] == ((e0 + e1 + 1) / 2) as u8 && p[3] == 255
            &&& !(c0 > c1 || opaque) && k == 3 ==> p[ch] == 0 && p[3] == 0
        }),
{
}

} // verus!

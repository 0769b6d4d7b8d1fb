//! Decoding a mip level's texel bytes into an uncompressed image: raw formats are
//! taken as they are, block-compressed ones are decoded block by block into a grid.
use vstd::prelude::*;
use vstd::arithmetic::div_mod::{lemma_fundamental_div_mod, lemma_fundamental_div_mod_converse};
use crate::format::FormatError;
use crate::format::txtr::{ETextureFormat, spec_block_size, spec_is_astc};
use crate::util::bcdec::{block_image, block_fits};

verus! {

/// The 4x4 RGBA texels (row by row, four bytes each) that `bcdec_rs::bc1` decodes
/// from an 8-byte block.
pub uninterp spec fn bcdec_rs_bc1(block: Seq<u8>) -> Seq<u8>;

/// The 4x4 RGBA texels that `bcdec_rs::bc2` decodes from a 16-byte block.
pub uninterp spec fn bcdec_rs_bc2(block: Seq<u8>) -> Seq<u8>;

/// The 4x4 RGBA texels that `bcdec_rs::bc3` decodes from a 16-byte block.
pub uninterp spec fn bcdec_rs_bc3(block: Seq<u8>) -> Seq<u8>;

/// The 4x4 single-byte texels that `bcdec_rs::bc4` decodes from an 8-byte block.
pub uninterp spec fn bcdec_rs_bc4(block: Seq<u8>, signed: bool) -> Seq<u8>;

/// The 4x4 two-byte texels that `bcdec_rs::bc5` decodes from a 16-byte block.
pub uninterp spec fn bcdec_rs_bc5(block: Seq<u8>, signed: bool) -> Seq<u8>;

/// The 4x4 RGB texels (three half-precision floats each) that `bcdec_rs::bc6h_half`
/// decodes from a 16-byte block.
pub uninterp spec fn bcdec_rs_bc6h_half(block: Seq<u8>, signed: bool) -> Seq<u16>;

/// The 4x4 RGBA texels that `bcdec_rs::bc7` decodes from a 16-byte block.
pub uninterp spec fn bcdec_rs_bc7(block: Seq<u8>) -> Seq<u8>;

/// Calls `bcdec_rs::bc1` on the part of `image` from `base` on. The crate writes the
/// four bytes of each texel `j` of row `i` at `base + i * pitch + 4 * j` and nothing
/// else; the values written are named by `bcdec_rs_bc1`.
#[verifier::external_body]
fn bc1_block(block: &[u8], image: &mut Vec<u8>, base: usize, pitch: usize)
    requires
        block@.len() == 8,
        block_fits(old(image)@.len() as int, base as int, pitch as int, 4, 4),
    ensures
        final(image)@ == block_image(old(image)@, base as int, pitch as int, 4, 4, bcdec_rs_bc1(block@)),
{
    bcdec_rs::bc1(block, &mut image[base..], pitch)
}

/// Calls `bcdec_rs::bc2`; it writes the same bytes as `bcdec_rs::bc1` does.
#[verifier::external_body]
fn bc2_block(block: &[u8], image: &mut Vec<u8>, base: usize, pitch: usize)
    requires
        block@.len() == 16,
        block_fits(old(image)@.len() as int, base as int, pitch as int, 4, 4),
    ensures
        final(image)@ == block_image(old(image)@, base as int, pitch as int, 4, 4, bcdec_rs_bc2(block@)),
{
    bcdec_rs::bc2(block, &mut image[base..], pitch)
}

/// Calls `bcdec_rs::bc3`; it writes the same bytes as `bcdec_rs::bc1` does.
#[verifier::external_body]
fn bc3_block(block: &[u8], image: &mut Vec<u8>, base: usize, pitch: usize)
    requires
        block@.len() == 16,
        block_fits(old(image)@.len() as int, base as int, pitch as int, 4, 4),
    ensures
        final(image)@ == block_image(old(image)@, base as int, pitch as int, 4, 4, bcdec_rs_bc3(block@)),
{
    bcdec_rs::bc3(block, &mut image[base..], pitch)
}

/// Calls `bcdec_rs::bc4`, which writes one byte per texel, at `base + i * pitch + j`.
#[verifier::external_body]
fn bc4_block(block: &[u8], image: &mut Vec<u8>, base: usize, pitch: usize, signed: bool)
    requires
        block@.len() == 8,
        block_fits(old(image)@.len() as int, base as int, pitch as int, 1, 1),
    ensures
        final(image)@ == block_image(
            old(image)@,
            base as int,
            pitch as int,
            1,
            1,
            bcdec_rs_bc4(block@, signed),
        ),
{
    bcdec_rs::bc4(block, &mut image[base..], pitch, signed)
}

/// Calls `bcdec_rs::bc5`, which writes two bytes per texel, at `base + i * pitch + 2 * j`.
#[verifier::external_body]
fn bc5_block(block: &[u8], image: &mut Vec<u8>, base: usize, pitch: usize, signed: bool)
    requires
        block@.len() == 16,
        block_fits(old(image)@.len() as int, base as int, pitch as int, 2, 2),
    ensures
        final(image)@ == block_image(
            old(image)@,
            base as int,
            pitch as int,
            2,
            2,
            bcdec_rs_bc5(block@, signed),
        ),
{
    bcdec_rs::bc5(block, &mut image[base..], pitch, signed)
}

/// Calls `bcdec_rs::bc6h_half`, which writes three halves per texel, at
/// `base + i * pitch + 3 * j` (reserved modes write zeros there).
#[verifier::external_body]
fn bc6h_half_block(block: &[u8], image: &mut Vec<u16>, base: usize, pitch: usize, signed: bool)
    requires
        block@.len() == 16,
        block_fits(old(image)@.len() as int, base as int, pitch as int, 3, 3),
    ensures
        final(image)@ == block_image(
            old(image)@,
            base as int,
            pitch as int,
            3,
            3,
            bcdec_rs_bc6h_half(block@, signed),
        ),
{
    bcdec_rs::bc6h_half(block, &mut image[base..], pitch, signed)
}

/// Calls `bcdec_rs::bc7`; it writes the same bytes as `bcdec_rs::bc1` does (reserved
/// modes write zeros there).
#[verifier::external_body]
fn bc7_block(block: &[u8], image: &mut Vec<u8>, base: usize, pitch: usize)
    requires
        block@.len() == 16,
        block_fits(old(image)@.len() as int, base as int, pitch as int, 4, 4),
    ensures
        final(image)@ == block_image(old(image)@, base as int, pitch as int, 4, 4, bcdec_rs_bc7(block@)),
{
    bcdec_rs::bc7(block, &mut image[base..], pitch)
}

/// A block-compressed format whose texels are bytes.
#[derive(Copy, Clone, Debug, PartialEq, Eq, Structural)]
pub enum BlockCodec {
    Bc1,
    Bc2,
    Bc3,
    Bc4,
    Bc5,
    Bc7,
}

impl BlockCodec {
    /// Bytes per compressed block.
    pub open spec fn spec_block_size(self) -> int {
        match self {
            BlockCodec::Bc1 | BlockCodec::Bc4 => 8,
            _ => 16,
        }
    }

    /// Bytes per decoded texel.
    pub open spec fn spec_channels(self) -> int {
        match self {
            BlockCodec::Bc4 => 1,
            BlockCodec::Bc5 => 2,
            _ => 4,
        }
    }

    /// The texels decoded from one block.
    pub open spec fn spec_texels(self, block: Seq<u8>) -> Seq<u8> {
        match self {
            BlockCodec::Bc1 => bcdec_rs_bc1(block),
            BlockCodec::Bc2 => bcdec_rs_bc2(block),
            BlockCodec::Bc3 => bcdec_rs_bc3(block),
            BlockCodec::Bc4 => bcdec_rs_bc4(block, false),
            BlockCodec::Bc5 => bcdec_rs_bc5(block, false),
            BlockCodec::Bc7 => bcdec_rs_bc7(block),
        }
    }

    fn block_size(self) -> (r: usize)
        ensures
            r == self.spec_block_size(),
    {
        match self {
            BlockCodec::Bc1 | BlockCodec::Bc4 => 8,
            _ => 16,
        }
    }

    fn channels(self) -> (r: usize)
        ensures
            r == self.spec_channels(),
    {
        match self {
            BlockCodec::Bc4 => 1,
            BlockCodec::Bc5 => 2,
            _ => 4,
        }
    }

    fn decode(self, block: &[u8], image: &mut Vec<u8>, base: usize, pitch: usize)
        requires
            block@.len() == self.spec_block_size(),
            block_fits(
                old(image)@.len() as int,
                base as int,
                pitch as int,
                self.spec_channels(),
                self.spec_channels(),
            ),
        ensures
            final(image)@ == block_image(
                old(image)@,
                base as int,
                pitch as int,
                self.spec_channels(),
                self.spec_channels(),
                self.spec_texels(block@),
            ),
    {
        match self {
            BlockCodec::Bc1 => bc1_block(block, image, base, pitch),
            BlockCodec::Bc2 => bc2_block(block, image, base, pitch),
            BlockCodec::Bc3 => bc3_block(block, image, base, pitch),
            BlockCodec::Bc4 => bc4_block(block, image, base, pitch, false),
            BlockCodec::Bc5 => bc5_block(block, image, base, pitch, false),
            BlockCodec::Bc7 => bc7_block(block, image, base, pitch),
        }
    }
}

/// The blocks of `data` in order, each decoded by `codec`.
pub open spec fn spec_codec_blocks(codec: BlockCodec, data: Seq<u8>) -> Seq<Seq<u8>> {
    let size = codec.spec_block_size();
    Seq::new(
        (data.len() as int / size) as nat,
        |b: int| codec.spec_texels(data.subrange(b * size, b * size + size)),
    )
}

/// The BC6H blocks of `data` in order, each decoded to half floats.
pub open spec fn spec_bc6h_blocks(data: Seq<u8>, signed: bool) -> Seq<Seq<u16>> {
    Seq::new(
        (data.len() as int / 16) as nat,
        |b: int| bcdec_rs_bc6h_half(data.subrange(b * 16, b * 16 + 16), signed),
    )
}

/// The block that element `k` of a grid image belongs to: the image is `w` texels
/// wide with `px` elements per texel, and its blocks of 4x4 texels are numbered row
/// by row, `w / 4` to a row.
pub open spec fn grid_block(k: int, w: int, px: int) -> int {
    let q = k / px;
    ((q / w) / 4) * (w / 4) + (q % w) / 4
}

/// The texel of its block (row by row) that element `k` of a grid image belongs to.
pub open spec fn grid_texel(k: int, w: int, px: int) -> int {
    let q = k / px;
    ((q / w) % 4) * 4 + (q % w) % 4
}

/// The `w` x `h` image, `px` elements per texel, whose 4x4 blocks hold `blocks` in order.
pub open spec fn spec_block_grid<T>(blocks: Seq<Seq<T>>, w: int, h: int, px: int) -> Seq<T> {
    Seq::new(
        (w * h * px) as nat,
        |k: int| blocks[grid_block(k, w, px)][grid_texel(k, w, px) * px + k % px],
    )
}

proof fn lemma_row_major(a: int, b: int, n: int)
    requires
        0 < n,
        0 <= b < n,
    ensures
        (a * n + b) / n == a,
        (a * n + b) % n == b,
{
    lemma_fundamental_div_mod_converse(a * n + b, n, a, b);
}

/// Writing block `(bx, by)` of a grid with `block_image` reaches exactly the elements of
/// that block, each at its texel and channel.
proof fn lemma_grid_cell(k: int, w: int, h: int, px: int, bx: int, by: int)
    requires
        0 < px,
        4 <= w,
        w % 4 == 0,
        h % 4 == 0,
        0 <= k < w * h * px,
        0 <= bx,
        4 * bx + 4 <= w,
        0 <= by,
        4 * by + 4 <= h,
    ensures
        0 <= grid_block(k, w, px) < (w / 4) * (h / 4),
        0 <= grid_texel(k, w, px) < 16,
        0 <= k % px < px,
        match spec_block_cell_at(k, w, px, bx, by) {
            Some((i, j, c)) => grid_block(k, w, px) == by * (w / 4) + bx && 4 * i + j == grid_texel(
                k,
                w,
                px,
            ) && c == k % px,
            None => grid_block(k, w, px) != by * (w / 4) + bx,
        },
{
    let pitch = w * px;
    let q = k / px;
    let c = k % px;
    lemma_fundamental_div_mod(k, px);
    assert(0 <= c < px);
    assert(q >= 0) by (nonlinear_arith)
        requires
            k == px * q + c,
            0 <= k,
            0 <= c < px,
    ;
    assert(q < w * h) by (nonlinear_arith)
        requires
            k == px * q + c,
            k < w * h * px,
            0 <= c,
            0 < px,
    ;
    let x = q % w;
    let y = q / w;
    lemma_fundamental_div_mod(q, w);
    assert(0 <= x < w);
    assert(0 <= y < h) by (nonlinear_arith)
        requires
            q == w * y + x,
            0 <= q < w * h,
            0 <= x < w,
    ;
    assert(k == y * pitch + x * px + c) by (nonlinear_arith)
        requires
            k == px * q + c,
            q == w * y + x,
            pitch == w * px,
    ;
    let nw = w / 4;
    assert(w == 4 * nw);
    assert(h == 4 * (h / 4));
    // Block index and texel of `k`.
    assert(x / 4 < nw);
    assert(y / 4 < h / 4);
    lemma_row_major(y / 4, x / 4, nw);
    lemma_row_major(by, bx, nw);
    assert(0 <= (y / 4) * nw + x / 4 < nw * (h / 4)) by (nonlinear_arith)
        requires
            0 <= y / 4 < h / 4,
            0 <= x / 4 < nw,
    ;
    assert(nw * (h / 4) == (w / 4) * (h / 4));
    assert(grid_block(k, w, px) == (y / 4) * nw + x / 4);
    assert(grid_texel(k, w, px) == (y % 4) * 4 + x % 4);
    let base = 4 * by * pitch + 4 * bx * px;
    let yy = y - 4 * by;
    let xx = x - 4 * bx;
    let off = k - base;
    assert(off == yy * pitch + xx * px + c) by (nonlinear_arith)
        requires
            k == y * pitch + x * px + c,
            base == 4 * by * pitch + 4 * bx * px,
            off == k - base,
            yy == y - 4 * by,
            xx == x - 4 * bx,
    ;
    assert(spec_block_cell_at(k, w, px, bx, by) == crate::util::bcdec::spec_block_cell(
        k,
        base,
        pitch,
        px,
        px,
    ));
    if xx >= 0 {
        let r = xx * px + c;
        assert(0 <= r < pitch) by (nonlinear_arith)
            requires
                r == xx * px + c,
                0 <= xx,
                xx < w,
                0 <= c < px,
                pitch == w * px,
        ;
        assert(off == yy * pitch + r);
        lemma_fundamental_div_mod_converse(off, pitch, yy, r);
        lemma_fundamental_div_mod_converse(r, px, xx, c);
        if 0 <= yy < 4 && xx < 4 {
            assert(y / 4 == by && x / 4 == bx);
            assert(y % 4 == yy && x % 4 == xx);
        } else {
            assert(y / 4 != by || x / 4 != bx);
        }
    } else {
        let r = (w + xx) * px + c;
        assert(4 <= w + xx < w);
        assert(0 <= r < pitch) by (nonlinear_arith)
            requires
                r == (w + xx) * px + c,
                0 <= w + xx < w,
                0 <= c < px,
                pitch == w * px,
        ;
        assert(off == (yy - 1) * pitch + r) by (nonlinear_arith)
            requires
                off == yy * pitch + xx * px + c,
                r == (w + xx) * px + c,
                pitch == w * px,
        ;
        lemma_fundamental_div_mod_converse(off, pitch, yy - 1, r);
        lemma_fundamental_div_mod_converse(r, px, w + xx, c);
        assert(x / 4 != bx);
    }
}

/// The cell of the block stored at `(bx, by)` of a grid `w` texels wide that element
/// `k` is, if any.
pub open spec fn spec_block_cell_at(k: int, w: int, px: int, bx: int, by: int) -> Option<
    (int, int, int),
> {
    crate::util::bcdec::spec_block_cell(k, 4 * by * (w * px) + 4 * bx * px, w * px, px, px)
}

/// `img` holds the first `n` blocks of the grid image of `blocks`, and `zero` elsewhere.
pub open spec fn grid_prefix<T>(
    img: Seq<T>,
    blocks: Seq<Seq<T>>,
    w: int,
    h: int,
    px: int,
    n: int,
    zero: T,
) -> bool {
    &&& img.len() == w * h * px
    &&& forall|k: int|
        0 <= k < img.len() ==> #[trigger] img[k] == if grid_block(k, w, px) < n {
            blocks[grid_block(k, w, px)][grid_texel(k, w, px) * px + k % px]
        } else {
            zero
        }
}

/// Writing the next block of a grid extends the prefix that an image holds by one block.
proof fn lemma_grid_step<T>(
    old: Seq<T>,
    new: Seq<T>,
    blocks: Seq<Seq<T>>,
    w: int,
    h: int,
    px: int,
    bx: int,
    by: int,
    zero: T,
)
    requires
        0 < px,
        4 <= w,
        w % 4 == 0,
        h % 4 == 0,
        0 <= bx,
        4 * bx + 4 <= w,
        0 <= by,
        4 * by + 4 <= h,
        grid_prefix(old, blocks, w, h, px, by * (w / 4) + bx, zero),
        new == block_image(
            old,
            4 * by * (w * px) + 4 * bx * px,
            w * px,
            px,
            px,
            blocks[by * (w / 4) + bx],
        ),
    ensures
        grid_prefix(new, blocks, w, h, px, by * (w / 4) + bx + 1, zero),
{
    let n = by * (w / 4) + bx;
    assert forall|k: int| 0 <= k < new.len() implies #[trigger] new[k] == if grid_block(k, w, px)
        < n + 1 {
        blocks[grid_block(k, w, px)][grid_texel(k, w, px) * px + k % px]
    } else {
        zero
    } by {
        lemma_grid_cell(k, w, h, px, bx, by);
        assert(old[k] == if grid_block(k, w, px) < n {
            blocks[grid_block(k, w, px)][grid_texel(k, w, px) * px + k % px]
        } else {
            zero
        });
    }
}

/// An image of zeros holds no block of a grid yet.
proof fn lemma_grid_start<T>(img: Seq<T>, blocks: Seq<Seq<T>>, w: int, h: int, px: int, zero: T)
    requires
        0 < px,
        4 <= w,
        w % 4 == 0,
        h % 4 == 0,
        4 <= h,
        img.len() == w * h * px,
        forall|k: int| 0 <= k < img.len() ==> img[k] == zero,
    ensures
        grid_prefix(img, blocks, w, h, px, 0, zero),
{
    assert forall|k: int| 0 <= k < img.len() implies #[trigger] img[k] == if grid_block(k, w, px)
        < 0 {
        blocks[grid_block(k, w, px)][grid_texel(k, w, px) * px + k % px]
    } else {
        zero
    } by {
        lemma_grid_cell(k, w, h, px, 0, 0);
    }
}

/// An image that holds all blocks of a grid is the grid image.
proof fn lemma_grid_done<T>(img: Seq<T>, blocks: Seq<Seq<T>>, w: int, h: int, px: int, zero: T)
    requires
        0 < px,
        4 <= w,
        w % 4 == 0,
        h % 4 == 0,
        4 <= h,
        grid_prefix(img, blocks, w, h, px, (w / 4) * (h / 4), zero),
    ensures
        img == spec_block_grid(blocks, w, h, px),
{
    let g = spec_block_grid(blocks, w, h, px);
    assert(0 <= w * h * px) by (nonlinear_arith)
        requires
            0 < px,
            4 <= w,
            4 <= h,
    ;
    assert forall|k: int| 0 <= k < img.len() implies #[trigger] img[k] == g[k] by {
        lemma_grid_cell(k, w, h, px, 0, 0);
    }
    assert(img =~= g);
}

/// Texels along one side of a block-compressed image: the texture's, but at least a block.
pub open spec fn bcn_side(v: u32) -> int {
    if v < 4 {
        4
    } else {
        v as int
    }
}

/// Number of blocks of a block-compressed `w` x `h` image.
pub open spec fn bcn_blocks(w: u32, h: u32) -> int {
    (bcn_side(w) / 4) * (bcn_side(h) / 4)
}

/// Decoding `len` bytes of `bs`-byte blocks into texels of `px` bytes for a `w` x `h`
/// texture counts its blocks and bytes within the machine's integers, and when the
/// length is right, the image is whole blocks and fits in memory.
pub open spec fn bcn_fits(w: u32, h: u32, len: int, bs: int, px: int) -> bool {
    &&& bcn_blocks(w, h) <= u32::MAX
    &&& bcn_blocks(w, h) * bs <= usize::MAX
    &&& len == bcn_blocks(w, h) * bs ==> {
        &&& bcn_side(w) % 4 == 0
        &&& bcn_side(h) % 4 == 0
        &&& bcn_side(w) * bcn_side(h) * px <= usize::MAX
    }
}

proof fn lemma_block_span(b: int, n: int, bs: int)
    requires
        0 <= b < n,
        0 < bs,
    ensures
        0 <= b * bs,
        b * bs + bs <= n * bs,
{
    assert(0 <= b * bs + bs <= n * bs) by (nonlinear_arith)
        requires
            0 <= b < n,
            0 < bs,
    ;
}

proof fn lemma_block_base(bx: int, by: int, bw: int, bh: int, px: int)
    requires
        0 <= bx < bw,
        0 <= by < bh,
        0 < px,
    ensures
        4 * by * (4 * bw * px) + 4 * bx * px + 3 * (4 * bw * px) + 4 * px <= 4 * bw * 4 * bh * px,
        0 <= 4 * by * (4 * bw * px) + 4 * bx * px,
        4 * px <= 4 * bw * px,
{
    assert(4 * by * (4 * bw * px) + 4 * bx * px + 3 * (4 * bw * px) + 4 * px <= 4 * bw * 4 * bh
        * px) by (nonlinear_arith)
        requires
            0 <= bx < bw,
            0 <= by < bh,
            0 < px,
    ;
    assert(0 <= 4 * by * (4 * bw * px) + 4 * bx * px) by (nonlinear_arith)
        requires
            0 <= bx,
            0 <= by,
            0 < px,
            0 < bw,
    ;
    assert(4 * px <= 4 * bw * px) by (nonlinear_arith)
        requires
            0 < bw,
            0 < px,
    ;
}

/// Decodes the grid of `codec` blocks in `data` into an image at least a block wide
/// and high; gives its width, height and bytes.
fn decompress_bcn(data: &[u8], w: u32, h: u32, codec: BlockCodec) -> (r: Result<
    (u32, u32, Vec<u8>),
    FormatError,
>)
    requires
        bcn_fits(w, h, data@.len() as int, codec.spec_block_size(), codec.spec_channels()),
    ensures
        match r {
            Ok((ww, hh, img)) => {
                &&& data@.len() == bcn_blocks(w, h) * codec.spec_block_size()
                &&& ww == bcn_side(w)
                &&& hh == bcn_side(h)
                &&& img@ == spec_block_grid(
                    spec_codec_blocks(codec, data@),
                    ww as int,
                    hh as int,
                    codec.spec_channels(),
                )
            },
            Err(e) => data@.len() != bcn_blocks(w, h) * codec.spec_block_size() && e
                == FormatError::ImageSize,
        },
{
    let ww: u32 = if w < 4 {
        4
    } else {
        w
    };
    let hh: u32 = if h < 4 {
        4
    } else {
        h
    };
    let bs = codec.block_size();
    let px = codec.channels();
    let bw: u32 = ww / 4;
    let bh: u32 = hh / 4;
    let nblocks: u32 = bw * bh;
    let expected: usize = nblocks as usize * bs;
    if data.len() != expected {
        return Err(FormatError::ImageSize);
    }
    assert(ww * px <= ww * hh * px) by (nonlinear_arith)
        requires
            4 <= hh,
            0 < px,
            0 < ww,
    ;
    let pitch: usize = ww as usize * px;
    assert(pitch * hh == ww * hh * px) by (nonlinear_arith)
        requires
            pitch == ww * px,
    ;
    let total: usize = pitch * hh as usize;
    assert(total == ww * hh * px) by (nonlinear_arith)
        requires
            pitch == ww * px,
            total == pitch * hh,
    ;
    let mut image: Vec<u8> = vec![0u8; total];
    let ghost blocks = spec_codec_blocks(codec, data@);
    proof {
        lemma_row_major(nblocks as int, 0, bs as int);
        assert(blocks.len() == nblocks);
        lemma_grid_start(image@, blocks, ww as int, hh as int, px as int, 0u8);
    }
    let mut by: usize = 0;
    while by < bh as usize
        invariant
            ww as int == bcn_side(w),
            hh as int == bcn_side(h),
            ww % 4 == 0,
            hh % 4 == 0,
            bw == ww / 4,
            bh == hh / 4,
            nblocks == bw * bh,
            bs == codec.spec_block_size(),
            px == codec.spec_channels(),
            pitch == ww * px,
            total == ww * hh * px,
            data@.len() == nblocks * bs,
            data@.len() == expected,
            blocks == spec_codec_blocks(codec, data@),
            blocks.len() == nblocks,
            by <= bh,
            grid_prefix(image@, blocks, ww as int, hh as int, px as int, by * bw, 0u8),
        decreases bh - by,
    {
        let mut bx: usize = 0;
        while bx < bw as usize
            invariant
                ww as int == bcn_side(w),
                hh as int == bcn_side(h),
                ww % 4 == 0,
                hh % 4 == 0,
                bw == ww / 4,
                bh == hh / 4,
                nblocks == bw * bh,
                bs == codec.spec_block_size(),
                px == codec.spec_channels(),
                pitch == ww * px,
                total == ww * hh * px,
                data@.len() == nblocks * bs,
                data@.len() == expected,
                blocks == spec_codec_blocks(codec, data@),
                blocks.len() == nblocks,
                by < bh,
                bx <= bw,
                grid_prefix(image@, blocks, ww as int, hh as int, px as int, by * bw + bx, 0u8),
            decreases bw - bx,
        {
            proof {
                lemma_block_span(by as int, bh as int, bw as int);
                assert(bh * bw == nblocks) by (nonlinear_arith)
                    requires
                        nblocks == bw * bh,
                ;
                assert(by * bw + bx < nblocks);
                lemma_block_span((by * bw + bx) as int, nblocks as int, bs as int);
                lemma_block_base(bx as int, by as int, bw as int, bh as int, px as int);
                assert(pitch == 4 * bw * px) by (nonlinear_arith)
                    requires
                        pitch == ww * px,
                        ww == 4 * bw,
                ;
                assert(total == 4 * bw * 4 * bh * px) by (nonlinear_arith)
                    requires
                        total == ww * hh * px,
                        ww == 4 * bw,
                        hh == 4 * bh,
                ;
            }
            let b: usize = by * (bw as usize) + bx;
            assert(b * bs + bs <= data@.len());
            let start: usize = b * bs;
            let block = &data[start..start + bs];
            let base: usize = 4 * by * pitch + 4 * bx * px;
            let ghost before = image@;
            codec.decode(block, &mut image, base, pitch);
            proof {
                assert(block@ == data@.subrange(b * bs, b * bs + bs));
                assert(blocks[b as int] == codec.spec_texels(block@));
                lemma_grid_step(
                    before,
                    image@,
                    blocks,
                    ww as int,
                    hh as int,
                    px as int,
                    bx as int,
                    by as int,
                    0u8,
                );
            }
            bx = bx + 1;
        }
        assert(by * bw + bw == (by + 1) * bw) by (nonlinear_arith);
        by = by + 1;
    }
    assert(bh * bw == bw * bh) by (nonlinear_arith);
    proof {
        lemma_grid_done(image@, blocks, ww as int, hh as int, px as int, 0u8);
    }
    Ok((ww, hh, image))
}

/// Decodes the grid of BC6H blocks in `data` into an image of half floats (three per
/// texel) at least a block wide and high; gives its width, height and halves.
fn decompress_bc6h(data: &[u8], w: u32, h: u32, signed: bool) -> (r: Result<
    (u32, u32, Vec<u16>),
    FormatError,
>)
    requires
        bcn_fits(w, h, data@.len() as int, 16, 3),
    ensures
        match r {
            Ok((ww, hh, img)) => {
                &&& data@.len() == bcn_blocks(w, h) * 16
                &&& ww == bcn_side(w)
                &&& hh == bcn_side(h)
                &&& img@ == spec_block_grid(
                    spec_bc6h_blocks(data@, signed),
                    ww as int,
                    hh as int,
                    3,
                )
            },
            Err(e) => data@.len() != bcn_blocks(w, h) * 16 && e
                == FormatError::ImageSize,
        },
{
    let ww: u32 = if w < 4 {
        4
    } else {
        w
    };
    let hh: u32 = if h < 4 {
        4
    } else {
        h
    };
    let bs: usize = 16;
    let px: usize = 3;
    let bw: u32 = ww / 4;
    let bh: u32 = hh / 4;
    let nblocks: u32 = bw * bh;
    let expected: usize = nblocks as usize * bs;
    if data.len() != expected {
        return Err(FormatError::ImageSize);
    }
    assert(ww * px <= ww * hh * px) by (nonlinear_arith)
        requires
            4 <= hh,
            0 < px,
            0 < ww,
    ;
    let pitch: usize = ww as usize * px;
    assert(pitch * hh == ww * hh * px) by (nonlinear_arith)
        requires
            pitch == ww * px,
    ;
    let total: usize = pitch * hh as usize;
    assert(total == ww * hh * px) by (nonlinear_arith)
        requires
            pitch == ww * px,
            total == pitch * hh,
    ;
    let mut image: Vec<u16> = vec![0u16; total];
    let ghost blocks = spec_bc6h_blocks(data@, signed);
    proof {
        lemma_row_major(nblocks as int, 0, bs as int);
        assert(blocks.len() == nblocks);
        lemma_grid_start(image@, blocks, ww as int, hh as int, px as int, 0u16);
    }
    let mut by: usize = 0;
    while by < bh as usize
        invariant
            ww as int == bcn_side(w),
            hh as int == bcn_side(h),
            ww % 4 == 0,
            hh % 4 == 0,
            bw == ww / 4,
            bh == hh / 4,
            nblocks == bw * bh,
            bs == 16,
            px == 3,
            pitch == ww * px,
            total == ww * hh * px,
            data@.len() == nblocks * bs,
            data@.len() == expected,
            blocks == spec_bc6h_blocks(data@, signed),
            blocks.len() == nblocks,
            by <= bh,
            grid_prefix(image@, blocks, ww as int, hh as int, px as int, by * bw, 0u16),
        decreases bh - by,
    {
        let mut bx: usize = 0;
        while bx < bw as usize
            invariant
                ww as int == bcn_side(w),
                hh as int == bcn_side(h),
                ww % 4 == 0,
                hh % 4 == 0,
                bw == ww / 4,
                bh == hh / 4,
                nblocks == bw * bh,
                bs == 16,
                px == 3,
                pitch == ww * px,
                total == ww * hh * px,
                data@.len() == nblocks * bs,
                data@.len() == expected,
                blocks == spec_bc6h_blocks(data@, signed),
                blocks.len() == nblocks,
                by < bh,
                bx <= bw,
                grid_prefix(image@, blocks, ww as int, hh as int, px as int, by * bw + bx, 0u16),
            decreases bw - bx,
        {
            proof {
                lemma_block_span(by as int, bh as int, bw as int);
                assert(bh * bw == nblocks) by (nonlinear_arith)
                    requires
                        nblocks == bw * bh,
                ;
                assert(by * bw + bx < nblocks);
                lemma_block_span((by * bw + bx) as int, nblocks as int, bs as int);
                lemma_block_base(bx as int, by as int, bw as int, bh as int, px as int);
                assert(pitch == 4 * bw * px) by (nonlinear_arith)
                    requires
                        pitch == ww * px,
                        ww == 4 * bw,
                ;
                assert(total == 4 * bw * 4 * bh * px) by (nonlinear_arith)
                    requires
                        total == ww * hh * px,
                        ww == 4 * bw,
                        hh == 4 * bh,
                ;
            }
            let b: usize = by * (bw as usize) + bx;
            assert(b * bs + bs <= data@.len());
            let start: usize = b * bs;
            let block = &data[start..start + bs];
            let base: usize = 4 * by * pitch + 4 * bx * px;
            let ghost before = image@;
            bc6h_half_block(block, &mut image, base, pitch, signed);
            proof {
                assert(block@ == data@.subrange(b * bs, b * bs + bs));
                assert(blocks[b as int] == bcdec_rs_bc6h_half(block@, signed));
                lemma_grid_step(
                    before,
                    image@,
                    blocks,
                    ww as int,
                    hh as int,
                    px as int,
                    bx as int,
                    by as int,
                    0u16,
                );
            }
            bx = bx + 1;
        }
        assert(by * bw + bw == (by + 1) * bw) by (nonlinear_arith);
        by = by + 1;
    }
    assert(bh * bw == bw * bh) by (nonlinear_arith);
    proof {
        lemma_grid_done(image@, blocks, ww as int, hh as int, px as int, 0u16);
    }
    Ok((ww, hh, image))
}

/// Blocks of `b` texels that cover `v` texels.
pub open spec fn astc_blocks(v: u32, b: u32) -> int {
    v / b + if v % b == 0 {
        0int
    } else {
        1int
    }
}

proof fn lemma_blocks_bound(v: u32, b: u32)
    requires
        0 < b,
    ensures
        astc_blocks(v, b) <= u32::MAX,
{
    lemma_fundamental_div_mod(v as int, b as int);
    if v % b != 0 {
        let q = v / b;
        assert(2 * q <= b * q) by (nonlinear_arith)
            requires
                2 <= b,
                0 <= q,
        ;
    }
}

/// The RGBA bytes (four per texel, row by row) of the `width` x `height` image that
/// `astc_decode::astc_decode` decodes from `data` with blocks of `bw` x `bh` texels.
pub uninterp spec fn astc_decoded(data: Seq<u8>, width: u32, height: u32, bw: u32, bh: u32) -> Seq<u8>;

/// Stores the RGBA `texel` at column `x` of row `y` of an image `width` texels wide.
fn store_texel(image: &mut Vec<u8>, width: u32, x: u32, y: u32, texel: [u8; 4])
    requires
        x < width,
        (y * width + x) * 4 + 4 <= old(image)@.len(),
    ensures
        final(image)@.len() == old(image)@.len(),
        forall|k: int|
            0 <= k < final(image)@.len() ==> final(image)@[k] == if (y * width + x) * 4 <= k < (y
                * width + x) * 4 + 4 {
                texel[k - (y * width + x) * 4]
            } else {
                old(image)@[k]
            },
{
    let len = image.len();
    let at: usize = (y as usize * width as usize + x as usize) * 4;
    image.set(at, texel[0]);
    image.set(at + 1, texel[1]);
    image.set(at + 2, texel[2]);
    image.set(at + 3, texel[3]);
}

/// Calls `astc_decode::astc_decode` on `data` for a `width` x `height` image of
/// `bw` x `bh` blocks, storing each texel that it hands out into `image` with
/// `store_texel`. The crate hands out every texel of the image and fails only when
/// `data` holds fewer than 16 bytes per block; the texels are named by `astc_decoded`.
/// When it fails, what it stored before is left unsaid. Its weight table holds the
/// 144 texels of a 12 x 12 block, so blocks are limited to the ASTC footprints,
/// 4 to 12 texels on a side.
#[verifier::external_body]
fn astc_decode_image(data: &[u8], width: u32, height: u32, bw: u32, bh: u32, image: &mut Vec<u8>) -> (r:
    bool)
    requires
        4 <= bw <= 12,
        4 <= bh <= 12,
        width + bw <= u32::MAX,
        height + bh <= u32::MAX,
        old(image)@.len() == width * height * 4,
    ensures
        final(image)@.len() == old(image)@.len(),
        r <==> data@.len() >= 16 * astc_blocks(width, bw) * astc_blocks(height, bh),
        r ==> final(image)@ == astc_decoded(data@, width, height, bw, bh),
{
    let footprint = astc_decode::Footprint::new(bw, bh);
    astc_decode::astc_decode(data, width, height, footprint, |x, y, texel| store_texel(image, width, x, y, texel)).is_ok()
}

/// How the bytes of a decoded texel are laid out.
#[derive(Copy, Clone, Debug, PartialEq, Eq, Structural)]
pub enum PixelLayout {
    /// One gray byte.
    Luma8,
    /// A gray byte and an alpha byte.
    LumaA8,
    /// Red, green and blue bytes.
    Rgb8,
    /// Red, green, blue and alpha bytes.
    Rgba8,
}

impl PixelLayout {
    /// Bytes per texel.
    pub open spec fn spec_channels(self) -> int {
        match self {
            PixelLayout::Luma8 => 1,
            PixelLayout::LumaA8 => 2,
            PixelLayout::Rgb8 => 3,
            PixelLayout::Rgba8 => 4,
        }
    }

    /// Bytes per texel.
    pub fn channels(self) -> (r: usize)
        ensures
            r == self.spec_channels(),
    {
        match self {
            PixelLayout::Luma8 => 1,
            PixelLayout::LumaA8 => 2,
            PixelLayout::Rgb8 => 3,
            PixelLayout::Rgba8 => 4,
        }
    }
}

/// An uncompressed image, texels row by row.
#[derive(Clone, Debug)]
pub enum DecodedImage {
    /// Texels of bytes laid out as `layout`.
    Bytes { layout: PixelLayout, width: u32, height: u32, data: Vec<u8> },
    /// RGB texels of three half-precision floats (their bits).
    Halves { width: u32, height: u32, data: Vec<u16> },
}

/// The value of a decoded image.
pub enum DecodedImageView {
    Bytes { layout: PixelLayout, width: u32, height: u32, data: Seq<u8> },
    Halves { width: u32, height: u32, data: Seq<u16> },
}

impl View for DecodedImage {
    type V = DecodedImageView;

    open spec fn view(&self) -> DecodedImageView {
        match self {
            DecodedImage::Bytes { layout, width, height, data } => DecodedImageView::Bytes {
                layout: *layout,
                width: *width,
                height: *height,
                data: data@,
            },
            DecodedImage::Halves { width, height, data } => DecodedImageView::Halves {
                width: *width,
                height: *height,
                data: data@,
            },
        }
    }
}

/// An image whose texel bytes are `data` as given, when `data` holds at least
/// `width * height` texels.
pub open spec fn spec_raw_image(layout: PixelLayout, w: u32, h: u32, data: Seq<u8>) -> Result<
    DecodedImageView,
    FormatError,
> {
    let ch = layout.spec_channels();
    if ch * w <= usize::MAX && ch * w * h <= usize::MAX && ch * w * h <= data.len() {
        Ok(DecodedImageView::Bytes { layout, width: w, height: h, data })
    } else {
        Err(FormatError::ImageSize)
    }
}

/// The image that a grid of `codec` blocks decodes to, when `data` is whole blocks.
pub open spec fn spec_bcn_image(
    layout: PixelLayout,
    codec: BlockCodec,
    w: u32,
    h: u32,
    data: Seq<u8>,
) -> Result<DecodedImageView, FormatError> {
    if data.len() == bcn_blocks(w, h) * codec.spec_block_size() {
        Ok(
            DecodedImageView::Bytes {
                layout,
                width: bcn_side(w) as u32,
                height: bcn_side(h) as u32,
                data: spec_block_grid(
                    spec_codec_blocks(codec, data),
                    bcn_side(w),
                    bcn_side(h),
                    codec.spec_channels(),
                ),
            },
        )
    } else {
        Err(FormatError::ImageSize)
    }
}

/// The half-float image that a grid of BC6H blocks decodes to, when `data` is whole blocks.
pub open spec fn spec_bc6h_image(w: u32, h: u32, data: Seq<u8>, signed: bool) -> Result<
    DecodedImageView,
    FormatError,
> {
    if data.len() == bcn_blocks(w, h) * 16 {
        Ok(
            DecodedImageView::Halves {
                width: bcn_side(w) as u32,
                height: bcn_side(h) as u32,
                data: spec_block_grid(spec_bc6h_blocks(data, signed), bcn_side(w), bcn_side(h), 3),
            },
        )
    } else {
        Err(FormatError::ImageSize)
    }
}

/// The RGBA image that ASTC blocks of `bw` x `bh` texels decode to, when `data` is
/// exactly the blocks that cover the image.
pub open spec fn spec_astc_image(w: u32, h: u32, bw: u32, bh: u32, data: Seq<u8>) -> Result<
    DecodedImageView,
    FormatError,
> {
    if data.len() == astc_blocks(w, bw) * astc_blocks(h, bh) * 16 {
        Ok(
            DecodedImageView::Bytes {
                layout: PixelLayout::Rgba8,
                width: w,
                height: h,
                data: astc_decoded(data, w, h, bw, bh),
            },
        )
    } else {
        Err(FormatError::ImageSize)
    }
}

/// The image that the texel bytes `data` of a `w` x `h` mip level of `format` decode to.
pub open spec fn spec_decompress_image(format: ETextureFormat, w: u32, h: u32, data: Seq<u8>) -> Result<
    DecodedImageView,
    FormatError,
> {
    match format {
        ETextureFormat::R8Unorm => spec_raw_image(PixelLayout::Luma8, w, h, data),
        ETextureFormat::Rgb8Unorm => spec_raw_image(PixelLayout::Rgb8, w, h, data),
        ETextureFormat::Rgba8Unorm | ETextureFormat::Rgba8Srgb => spec_raw_image(
            PixelLayout::Rgba8,
            w,
            h,
            data,
        ),
        ETextureFormat::RgbaBc1Unorm | ETextureFormat::RgbaBc1Srgb => spec_bcn_image(
            PixelLayout::Rgba8,
            BlockCodec::Bc1,
            w,
            h,
            data,
        ),
        ETextureFormat::RgbaBc2Unorm | ETextureFormat::RgbaBc2Srgb => spec_bcn_image(
            PixelLayout::Rgba8,
            BlockCodec::Bc2,
            w,
            h,
            data,
        ),
        ETextureFormat::RgbaBc3Unorm | ETextureFormat::RgbaBc3Srgb => spec_bcn_image(
            PixelLayout::Rgba8,
            BlockCodec::Bc3,
            w,
            h,
            data,
        ),
        ETextureFormat::RgbaBc4Unorm | ETextureFormat::RgbaBc4Snorm => spec_bcn_image(
            PixelLayout::Luma8,
            BlockCodec::Bc4,
            w,
            h,
            data,
        ),
        ETextureFormat::RgbaBc5Unorm | ETextureFormat::RgbaBc5Snorm => spec_bcn_image(
            PixelLayout::LumaA8,
            BlockCodec::Bc5,
            w,
            h,
            data,
        ),
        ETextureFormat::BptcUfloat => spec_bc6h_image(w, h, data, false),
        ETextureFormat::BptcSfloat => spec_bc6h_image(w, h, data, true),
        ETextureFormat::BptcUnorm | ETextureFormat::BptcUnormSrgb => spec_bcn_image(
            PixelLayout::Rgba8,
            BlockCodec::Bc7,
            w,
            h,
            data,
        ),
        _ => if spec_is_astc(format.spec_code()) {
            let (bw, bh, _) = spec_block_size(format.spec_code());
            spec_astc_image(w, h, bw as u32, bh as u32, data)
        } else {
            Err(FormatError::UnsupportedFormat)
        },
    }
}

/// Decoding `len` bytes as a `w` x `h` mip level of `format` keeps to the machine's
/// integers and memory, and `format` is not one whose 16- or 32-bit texels are cast
/// from the byte buffer, which always fails.
pub open spec fn decompress_image_fits(format: ETextureFormat, w: u32, h: u32, len: int) -> bool {
    match format {
        ETextureFormat::R16Unorm | ETextureFormat::Rgba16Unorm | ETextureFormat::Rgba32Float => false,
        ETextureFormat::RgbaBc1Unorm | ETextureFormat::RgbaBc1Srgb => bcn_fits(w, h, len, 8, 4),
        ETextureFormat::RgbaBc2Unorm | ETextureFormat::RgbaBc2Srgb | ETextureFormat::RgbaBc3Unorm
        | ETextureFormat::RgbaBc3Srgb | ETextureFormat::BptcUnorm
        | ETextureFormat::BptcUnormSrgb => bcn_fits(w, h, len, 16, 4),
        ETextureFormat::RgbaBc4Unorm | ETextureFormat::RgbaBc4Snorm => bcn_fits(w, h, len, 8, 1),
        ETextureFormat::RgbaBc5Unorm | ETextureFormat::RgbaBc5Snorm => bcn_fits(w, h, len, 16, 2),
        ETextureFormat::BptcUfloat | ETextureFormat::BptcSfloat => bcn_fits(w, h, len, 16, 3),
        _ => spec_is_astc(format.spec_code()) ==> {
            let (bw, bh, _) = spec_block_size(format.spec_code());
            let n = astc_blocks(w, bw as u32) * astc_blocks(h, bh as u32) * 16;
            &&& n <= usize::MAX
            &&& len == n ==> w * h * 4 <= usize::MAX && w + bw <= u32::MAX && h + bh <= u32::MAX
        },
    }
}

fn bcn_fits_check(w: u32, h: u32, len: usize, bs: u128, px: u128) -> (r: bool)
    requires
        1 <= bs <= 16,
        1 <= px <= 4,
    ensures
        r == bcn_fits(w, h, len as int, bs as int, px as int),
{
    let sw: u128 = if w < 4 { 4 } else { w as u128 };
    let sh: u128 = if h < 4 { 4 } else { h as u128 };
    assert(sw == bcn_side(w) && sh == bcn_side(h));
    assert(sw <= 0x1_0000_0000 && sh <= 0x1_0000_0000);
    assert((sw / 4) * (sh / 4) <= 0x1_0000_0000 * 0x1_0000_0000) by (nonlinear_arith)
        requires
            sw <= 0x1_0000_0000,
            sh <= 0x1_0000_0000,
    ;
    let blocks: u128 = (sw / 4) * (sh / 4);
    assert(blocks * bs <= 0x1_0000_0000 * 0x1_0000_0000 * 16) by (nonlinear_arith)
        requires
            blocks <= 0x1_0000_0000 * 0x1_0000_0000,
            bs <= 16,
    ;
    assert(sw * sh <= 0x1_0000_0000 * 0x1_0000_0000) by (nonlinear_arith)
        requires
            sw <= 0x1_0000_0000,
            sh <= 0x1_0000_0000,
    ;
    let area: u128 = sw * sh;
    assert(area * px <= 0x1_0000_0000 * 0x1_0000_0000 * 4) by (nonlinear_arith)
        requires
            area <= 0x1_0000_0000 * 0x1_0000_0000,
            px <= 4,
    ;
    let bytes: u128 = blocks * bs;
    if blocks > u32::MAX as u128 || bytes > usize::MAX as u128 {
        return false;
    }
    if len as u128 != bytes {
        return true;
    }
    sw % 4 == 0 && sh % 4 == 0 && area * px <= usize::MAX as u128
}

fn astc_fits_check(w: u32, h: u32, len: usize, bw: u8, bh: u8) -> (r: bool)
    requires
        1 <= bw,
        1 <= bh,
    ensures
        r == ({
            let n = astc_blocks(w, bw as u32) * astc_blocks(h, bh as u32) * 16;
            &&& n <= usize::MAX
            &&& len == n ==> w * h * 4 <= usize::MAX && w + bw <= u32::MAX && h + bh <= u32::MAX
        }),
{
    let cw: u128 = (w / bw as u32) as u128 + if w % bw as u32 == 0 { 0 } else { 1 };
    let ch: u128 = (h / bh as u32) as u128 + if h % bh as u32 == 0 { 0 } else { 1 };
    assert(cw == astc_blocks(w, bw as u32) && ch == astc_blocks(h, bh as u32));
    assert(cw <= 0x1_0000_0000 && ch <= 0x1_0000_0000) by (nonlinear_arith)
        requires
            cw == (w / bw as u32) + if w % bw as u32 == 0 { 0int } else { 1int },
            ch == (h / bh as u32) + if h % bh as u32 == 0 { 0int } else { 1int },
            1 <= bw,
            1 <= bh,
    ;
    assert(cw * ch * 16 <= 0x1_0000_0000 * 0x1_0000_0000 * 16) by (nonlinear_arith)
        requires
            cw <= 0x1_0000_0000,
            ch <= 0x1_0000_0000,
    ;
    assert(w as u128 * h as u128 <= 0x1_0000_0000 * 0x1_0000_0000) by (nonlinear_arith);
    let wh: u128 = w as u128 * h as u128;
    let n: u128 = cw * ch * 16;
    if n > usize::MAX as u128 {
        return false;
    }
    if len as u128 != n {
        return true;
    }
    wh * 4 <= usize::MAX as u128 && w as u64 + bw as u64 <= u32::MAX as u64 && h as u64
        + bh as u64 <= u32::MAX as u64
}

/// Whether decoding `len` bytes of the `format` texture of `w` x `h` texels stays
/// within the machine's integers and is not one of the casts that fail (see
/// `decompress_image_fits`).
pub fn decompress_image_fits_check(format: ETextureFormat, w: u32, h: u32, len: usize) -> (r: bool)
    ensures
        r == decompress_image_fits(format, w, h, len as int),
{
    match format {
        ETextureFormat::R16Unorm | ETextureFormat::Rgba16Unorm | ETextureFormat::Rgba32Float => false,
        ETextureFormat::RgbaBc1Unorm | ETextureFormat::RgbaBc1Srgb => bcn_fits_check(w, h, len, 8, 4),
        ETextureFormat::RgbaBc2Unorm | ETextureFormat::RgbaBc2Srgb | ETextureFormat::RgbaBc3Unorm
        | ETextureFormat::RgbaBc3Srgb | ETextureFormat::BptcUnorm
        | ETextureFormat::BptcUnormSrgb => bcn_fits_check(w, h, len, 16, 4),
        ETextureFormat::RgbaBc4Unorm | ETextureFormat::RgbaBc4Snorm => bcn_fits_check(w, h, len, 8, 1),
        ETextureFormat::RgbaBc5Unorm | ETextureFormat::RgbaBc5Snorm => bcn_fits_check(w, h, len, 16, 2),
        ETextureFormat::BptcUfloat | ETextureFormat::BptcSfloat => bcn_fits_check(w, h, len, 16, 3),
        _ => {
            if !format.is_astc() {
                return true;
            }
            let (bw, bh, _) = format.block_size();
            astc_fits_check(w, h, len, bw, bh)
        },
    }
}

fn raw_image(layout: PixelLayout, w: u32, h: u32, data: &[u8]) -> (r: Result<DecodedImage, FormatError>)
    ensures
        match r {
            Ok(img) => spec_raw_image(layout, w, h, data@) == Ok::<DecodedImageView, FormatError>(img@),
            Err(e) => spec_raw_image(layout, w, h, data@) == Err::<DecodedImageView, FormatError>(e),
        },
{
    let ch = layout.channels();
    match ch.checked_mul(w as usize) {
        Some(row) => match row.checked_mul(h as usize) {
            Some(size) => {
                if size <= data.len() {
                    Ok(DecodedImage::Bytes { layout, width: w, height: h, data: vstd::slice::slice_to_vec(data) })
                } else {
                    Err(FormatError::ImageSize)
                }
            },
            None => Err(FormatError::ImageSize),
        },
        None => Err(FormatError::ImageSize),
    }
}

fn bcn_image(layout: PixelLayout, codec: BlockCodec, w: u32, h: u32, data: &[u8]) -> (r: Result<DecodedImage, FormatError>)
    requires
        bcn_fits(w, h, data@.len() as int, codec.spec_block_size(), codec.spec_channels()),
    ensures
        match r {
            Ok(img) => spec_bcn_image(layout, codec, w, h, data@) == Ok::<DecodedImageView, FormatError>(img@),
            Err(e) => spec_bcn_image(layout, codec, w, h, data@) == Err::<DecodedImageView, FormatError>(e),
        },
{
    match decompress_bcn(data, w, h, codec) {
        Ok((width, height, texels)) => Ok(DecodedImage::Bytes { layout, width, height, data: texels }),
        Err(e) => Err(e),
    }
}

fn bc6h_image(w: u32, h: u32, data: &[u8], signed: bool) -> (r: Result<DecodedImage, FormatError>)
    requires
        bcn_fits(w, h, data@.len() as int, 16, 3),
    ensures
        match r {
            Ok(img) => spec_bc6h_image(w, h, data@, signed) == Ok::<DecodedImageView, FormatError>(img@),
            Err(e) => spec_bc6h_image(w, h, data@, signed) == Err::<DecodedImageView, FormatError>(e),
        },
{
    match decompress_bc6h(data, w, h, signed) {
        Ok((width, height, halves)) => Ok(DecodedImage::Halves { width, height, data: halves }),
        Err(e) => Err(e),
    }
}

fn astc_image(w: u32, h: u32, bw: u32, bh: u32, data: &[u8]) -> (r: Result<DecodedImage, FormatError>)
    requires
        4 <= bw <= 12,
        4 <= bh <= 12,
        astc_blocks(w, bw) * astc_blocks(h, bh) * 16 <= usize::MAX,
        data@.len() == astc_blocks(w, bw) * astc_blocks(h, bh) * 16 ==> w * h * 4 <= usize::MAX && w
            + bw <= u32::MAX && h + bh <= u32::MAX,
    ensures
        match r {
            Ok(img) => spec_astc_image(w, h, bw, bh, data@) == Ok::<DecodedImageView, FormatError>(img@),
            Err(e) => spec_astc_image(w, h, bw, bh, data@) == Err::<DecodedImageView, FormatError>(e),
        },
{
    proof {
        lemma_blocks_bound(w, bw);
        lemma_blocks_bound(h, bh);
    }
    let rw: u32 = w / bw + if w % bw == 0 {
        0
    } else {
        1
    };
    let rh: u32 = h / bh + if h % bh == 0 {
        0
    } else {
        1
    };
    assert(rw * rh * 16 <= usize::MAX);
    assert(rw * rh <= usize::MAX) by (nonlinear_arith)
        requires
            rw * rh * 16 <= usize::MAX,
            0 <= rw,
            0 <= rh,
    ;
    let expected: usize = rw as usize * rh as usize * 16;
    if data.len() != expected {
        return Err(FormatError::ImageSize);
    }
    assert(w * h <= usize::MAX) by (nonlinear_arith)
        requires
            w * h * 4 <= usize::MAX,
    ;
    let mut image: Vec<u8> = vec![0u8; w as usize * h as usize * 4];
    assert(rw == astc_blocks(w, bw) && rh == astc_blocks(h, bh));
    assert(16 * rw * rh == rw * rh * 16) by (nonlinear_arith);
    if astc_decode_image(data, w, h, bw, bh, &mut image) {
        Ok(DecodedImage::Bytes { layout: PixelLayout::Rgba8, width: w, height: h, data: image })
    } else {
        Err(FormatError::ImageSize)
    }
}

/// Decodes the texel bytes `data` of a `w` x `h` mip level of `format` into an image:
/// 8-bit gray, RGB and RGBA formats keep their bytes, BC1 to BC5 and BC7 blocks are
/// decoded to bytes, BC6H blocks to half floats and ASTC blocks to RGBA bytes. Other
/// formats are refused.
pub fn decompress_image(format: ETextureFormat, w: u32, h: u32, data: &[u8]) -> (r: Result<
    DecodedImage,
    FormatError,
>)
    requires
        decompress_image_fits(format, w, h, data@.len() as int),
    ensures
        match r {
            Ok(img) => spec_decompress_image(format, w, h, data@) == Ok::<DecodedImageView, FormatError>(img@),
            Err(e) => spec_decompress_image(format, w, h, data@) == Err::<DecodedImageView, FormatError>(e),
        },
{
    match format {
        ETextureFormat::R8Unorm => raw_image(PixelLayout::Luma8, w, h, data),
        ETextureFormat::Rgb8Unorm => raw_image(PixelLayout::Rgb8, w, h, data),
        ETextureFormat::Rgba8Unorm | ETextureFormat::Rgba8Srgb => raw_image(PixelLayout::Rgba8, w, h, data),
        ETextureFormat::RgbaBc1Unorm | ETextureFormat::RgbaBc1Srgb => bcn_image(PixelLayout::Rgba8, BlockCodec::Bc1, w, h, data),
        ETextureFormat::RgbaBc2Unorm | ETextureFormat::RgbaBc2Srgb => bcn_image(PixelLayout::Rgba8, BlockCodec::Bc2, w, h, data),
        ETextureFormat::RgbaBc3Unorm | ETextureFormat::RgbaBc3Srgb => bcn_image(PixelLayout::Rgba8, BlockCodec::Bc3, w, h, data),
        ETextureFormat::RgbaBc4Unorm | ETextureFormat::RgbaBc4Snorm => bcn_image(PixelLayout::Luma8, BlockCodec::Bc4, w, h, data),
        ETextureFormat::RgbaBc5Unorm | ETextureFormat::RgbaBc5Snorm => bcn_image(PixelLayout::LumaA8, BlockCodec::Bc5, w, h, data),
        ETextureFormat::BptcUfloat => bc6h_image(w, h, data, false),
        ETextureFormat::BptcSfloat => bc6h_image(w, h, data, true),
        ETextureFormat::BptcUnorm | ETextureFormat::BptcUnormSrgb => bcn_image(PixelLayout::Rgba8, BlockCodec::Bc7, w, h, data),
        _ => {
            if format.is_astc() {
                let (bw, bh, _) = format.block_size();
                astc_image(w, h, bw as u32, bh as u32, data)
            } else {
                Err(FormatError::UnsupportedFormat)
            }
        },
    }
}

} // verus!

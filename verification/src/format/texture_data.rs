//! Rebuilding a texture's texel data from its resource and metadata: the GPU buffers
//! are expanded into one buffer, which is then untiled.
use vstd::prelude::*;
use crate::format::FormatError;
use crate::format::chunk::{ChunkDescriptor, chunk_fits, chunk_fits_check, chunk_slice_view, spec_chunk_slice};
use crate::format::rfrm::{FormDescriptor, form_fits, form_fits_check, form_slice_view, spec_form_slice};
use crate::format::four_cc_value;
use crate::format::txtr::{
    ETextureType,
    ETextureFormat,
    K_FORM_TXTR,
    K_CHUNK_HEAD,
    STextureCompressedBufferInfo2,
    STextureHeader,
    STextureMetaData,
    STextureReadInfo,
    TextureData,
    spec_header_read,
    spec_texture_header_ok,
    spec_texture_meta_ok,
    spec_block_size,
    spec_bytes_per_pixel,
};
use crate::util::compression::{CompressionError, decompress_into, expand_check, fits, spec_decompress_into};
use crate::util::read::{Endian, FixedRecord, lemma_records_len, spec_parse_records, spec_u32};

verus! {

/// The decompressed size that the metadata `meta` gives.
pub open spec fn meta_size(meta: Seq<u8>) -> int {
    spec_u32(meta, 20, Endian::Little)
}

/// The read infos that the metadata `meta` lists.
pub open spec fn meta_info(meta: Seq<u8>) -> Seq<STextureReadInfo> {
    spec_parse_records::<STextureReadInfo>(meta, 28, spec_u32(meta, 24, Endian::Little), Endian::Little)->Some_0
}

/// The buffer description of the metadata `meta`.
pub open spec fn meta_buffers(meta: Seq<u8>) -> STextureCompressedBufferInfo2 {
    STextureCompressedBufferInfo2::spec_parse(
        meta,
        28 + 9 * spec_u32(meta, 24, Endian::Little),
        Endian::Little,
    )->Some_0
}

/// `buf` with `part` written from `at` on.
pub open spec fn splice(buf: Seq<u8>, at: int, part: Seq<u8>) -> Seq<u8> {
    buf.subrange(0, at) + part + buf.subrange(at + part.len(), buf.len() as int)
}

/// The bytes of the GPU buffer that `r` describes.
pub open spec fn read_buffer(data: Seq<u8>, r: STextureReadInfo) -> Seq<u8> {
    data.subrange(r.offset as int, r.offset + r.size)
}

/// The buffer `r` lies inside `data`, and its end fits in 32 bits.
pub open spec fn read_fits(data: Seq<u8>, r: STextureReadInfo) -> bool {
    r.offset + r.size <= u32::MAX && r.offset + r.size <= data.len()
}

/// The first buffer can be expanded into `buf` without running off a slice or a
/// 32-bit sum.
pub open spec fn first_fits(
    data: Seq<u8>,
    info: Seq<STextureReadInfo>,
    b: STextureCompressedBufferInfo2,
    buf: Seq<u8>,
) -> bool {
    b.first_size > 0 && b.first_index < info.len() ==> {
        let r = info[b.first_index as int];
        let ds = b.first_dest_offset as int;
        let de = ds + b.first_dest_size;
        &&& read_fits(data, r)
        &&& b.first_size <= r.size
        &&& de <= u32::MAX
        &&& de <= buf.len()
        &&& fits(read_buffer(data, r).subrange(0, b.first_size as int), buf.subrange(ds, de))
    }
}

/// `buf` after expanding the first buffer into it.
pub open spec fn spec_first_buffer(
    data: Seq<u8>,
    info: Seq<STextureReadInfo>,
    b: STextureCompressedBufferInfo2,
    buf: Seq<u8>,
) -> Result<Seq<u8>, FormatError> {
    if b.first_size == 0 {
        Ok(buf)
    } else if b.first_index >= info.len() {
        Err(FormatError::InvalidData)
    } else {
        let r = info[b.first_index as int];
        let ds = b.first_dest_offset as int;
        let de = ds + b.first_dest_size;
        let (res, out) = spec_decompress_into(
            read_buffer(data, r).subrange(0, b.first_size as int),
            buf.subrange(ds, de),
        );
        match res {
            Ok(_) => Ok(splice(buf, ds, out)),
            Err(e) => Err(FormatError::Compression(e)),
        }
    }
}

/// The second buffer can be expanded into `buf`: its compressed part, the bytes
/// stored before it and the bytes stored after it each land inside `buf`, the last
/// filling the rest of the destination exactly.
pub open spec fn second_fits(
    data: Seq<u8>,
    info: Seq<STextureReadInfo>,
    b: STextureCompressedBufferInfo2,
    buf: Seq<u8>,
) -> bool {
    b.second_size > 0 && b.second_index < info.len() ==> {
        let r = info[b.second_index as int];
        let rb = read_buffer(data, r);
        let co = b.second_compressed_offset as int;
        let cl = b.second_compressed_len as int;
        let dl = b.second_decompressed_len as int;
        let dso = b.second_dest_offset as int;
        &&& read_fits(data, r)
        &&& co + cl <= u32::MAX
        &&& (co < b.second_size ==> {
            &&& co + cl <= rb.len()
            &&& dso + dl <= u32::MAX
            &&& dso + dl <= buf.len()
            &&& fits(rb.subrange(co, co + cl), buf.subrange(dso, dso + dl))
        })
        &&& (co > 0 ==> {
            &&& co <= rb.len()
            &&& dso + dl + co <= u32::MAX
            &&& dso + dl + co <= buf.len()
        })
        &&& (co + cl < b.second_size ==> {
            &&& b.second_size <= rb.len()
            &&& dso + b.second_dest_size <= u32::MAX
            &&& dso + co + dl <= u32::MAX
            &&& dso + b.second_dest_size <= buf.len()
            &&& b.second_size - (co + cl) == dso + b.second_dest_size - (dso + co + dl)
        })
    }
}

/// `buf` after the compressed part of the second buffer.
pub open spec fn spec_second_compressed(
    rb: Seq<u8>,
    b: STextureCompressedBufferInfo2,
    buf: Seq<u8>,
) -> Result<Seq<u8>, FormatError> {
    let co = b.second_compressed_offset as int;
    let cl = b.second_compressed_len as int;
    let dso = b.second_dest_offset as int;
    let dl = b.second_decompressed_len as int;
    if co < b.second_size {
        let (res, out) = spec_decompress_into(rb.subrange(co, co + cl), buf.subrange(dso, dso + dl));
        match res {
            Ok(_) => Ok(splice(buf, dso, out)),
            Err(e) => Err(FormatError::Compression(e)),
        }
    } else {
        Ok(buf)
    }
}

/// `buf` after the stored bytes before and after the compressed part.
pub open spec fn spec_second_stored(
    rb: Seq<u8>,
    b: STextureCompressedBufferInfo2,
    buf: Seq<u8>,
) -> Seq<u8> {
    let co = b.second_compressed_offset as int;
    let cl = b.second_compressed_len as int;
    let dso = b.second_dest_offset as int;
    let dl = b.second_decompressed_len as int;
    let head = if co > 0 {
        splice(buf, dso + dl, rb.subrange(0, co))
    } else {
        buf
    };
    if co + cl < b.second_size {
        splice(head, dso + co + dl, rb.subrange(co + cl, b.second_size as int))
    } else {
        head
    }
}

/// `buf` after expanding the second buffer into it.
pub open spec fn spec_second_buffer(
    data: Seq<u8>,
    info: Seq<STextureReadInfo>,
    b: STextureCompressedBufferInfo2,
    buf: Seq<u8>,
) -> Result<Seq<u8>, FormatError> {
    if b.second_size == 0 {
        Ok(buf)
    } else if b.second_index >= info.len() {
        Err(FormatError::InvalidData)
    } else {
        let rb = read_buffer(data, info[b.second_index as int]);
        match spec_second_compressed(rb, b, buf) {
            Ok(buf2) => Ok(spec_second_stored(rb, b, buf2)),
            Err(e) => Err(e),
        }
    }
}

/// A zeroed buffer of `n` bytes.
pub open spec fn zero_bytes(n: int) -> Seq<u8> {
    Seq::new(n as nat, |i: int| 0u8)
}

/// The texel buffer that the metadata `meta` rebuilds from `data`, before untiling.
pub open spec fn spec_texture_buffer(data: Seq<u8>, meta: Seq<u8>) -> Result<Seq<u8>, FormatError> {
    let info = meta_info(meta);
    let b = meta_buffers(meta);
    match spec_first_buffer(data, info, b, zero_bytes(meta_size(meta))) {
        Ok(buf) => spec_second_buffer(data, info, b, buf),
        Err(e) => Err(e),
    }
}

/// Expanding the buffers of `meta` runs off no slice and no 32-bit sum.
pub open spec fn buffers_fit(data: Seq<u8>, meta: Seq<u8>) -> bool {
    let info = meta_info(meta);
    let b = meta_buffers(meta);
    let buf0 = zero_bytes(meta_size(meta));
    &&& first_fits(data, info, b, buf0)
    &&& (spec_first_buffer(data, info, b, buf0) matches Ok(buf1) ==> second_fits(data, info, b, buf1))
}

/// Writes `src` into `buf` from `at` on.
fn copy_into(buf: &mut Vec<u8>, at: usize, src: &[u8])
    requires
        at + src@.len() <= old(buf)@.len(),
    ensures
        final(buf)@ == splice(old(buf)@, at as int, src@),
{
    let n = src.len();
    let blen = buf.len();
    let ghost start = buf@;
    let mut k: usize = 0;
    while k < n
        invariant
            n == src@.len(),
            blen == buf@.len(),
            k <= n,
            at + n <= buf@.len(),
            buf@.len() == start.len(),
            forall|i: int| 0 <= i < at ==> #[trigger] buf@[i] == start[i],
            forall|i: int| at <= i < at + k ==> #[trigger] buf@[i] == src@[i - at],
            forall|i: int| at + n <= i < buf@.len() ==> #[trigger] buf@[i] == start[i],
            forall|i: int| at + k <= i < at + n ==> #[trigger] buf@[i] == start[i],
        decreases n - k,
    {
        buf.set(at + k, src[k]);
        k = k + 1;
    }
    assert(buf@ =~= splice(start, at as int, src@));
}

/// Expands `comp` into `buf` from `at` on, over `len` bytes.
fn expand_into(buf: &mut Vec<u8>, at: usize, len: usize, comp: &[u8]) -> (r: Result<(), FormatError>)
    requires
        at + len <= old(buf)@.len(),
        fits(comp@, old(buf)@.subrange(at as int, at + len)),
    ensures
        match spec_decompress_into(comp@, old(buf)@.subrange(at as int, at + len)) {
            (Ok(_), out) => r is Ok && final(buf)@ == splice(old(buf)@, at as int, out),
            (Err(e), _) => r == Err::<(), FormatError>(FormatError::Compression(e)),
        },
{
    let blen = buf.len();
    let mut tmp: Vec<u8> = vstd::slice::slice_to_vec(&buf.as_slice()[at..at + len]);
    let res = decompress_into(comp, tmp.as_mut_slice());
    match res {
        Ok(_) => {
            copy_into(buf, at, tmp.as_slice());
            Ok(())
        },
        Err(e) => Err(FormatError::Compression(e)),
    }
}

#[verifier::external_type_specification]
#[verifier::external_body]
pub struct ExSwizzleError(tegra_swizzle::SwizzleError);

/// The byte size of a tiled surface, as `tegra_swizzle::surface::swizzled_surface_size`
/// computes it from the surface's width, height and depth in texels, block width,
/// height and depth, bytes per block, mip count and layer count (block height
/// inferred).
pub uninterp spec fn tegra_swizzled_size(
    width: int,
    height: int,
    depth: int,
    bw: int,
    bh: int,
    bd: int,
    bpp: int,
    mips: int,
    layers: int,
) -> int;

/// The untiled bytes of the tiled surface `source`, as
/// `tegra_swizzle::surface::deswizzle_surface` computes them (arguments as for
/// `tegra_swizzled_size`); `None` where it fails.
pub uninterp spec fn tegra_deswizzled(
    width: int,
    height: int,
    depth: int,
    source: Seq<u8>,
    bw: int,
    bh: int,
    bd: int,
    bpp: int,
    mips: int,
    layers: int,
) -> Option<Seq<u8>>;

/// A bound on every byte count and offset that tiling or untiling the surface
/// computes: each mip level of each layer takes at most a row of `width * bpp` bytes
/// padded by a 64-byte GOB, times `height` rows padded by a block of 16 GOBs of 8
/// rows, times `depth` slices padded by 16; the alignment between layers at most
/// doubles it.
pub open spec fn surface_bound(width: int, height: int, depth: int, bpp: int, mips: int, layers: int) -> int {
    2 * (layers + 1) * (mips + 1) * (width * bpp + 64) * (height + 128) * (depth + 16)
}

/// Surfaces that the tiling arithmetic handles without a shift past a word and
/// without a count past `usize::MAX`: at most 16384 texels wide and high, 2048 deep
/// or layers, 128 bytes per block, 16 mip levels, and within `surface_bound`.
pub open spec fn surface_in_range(
    width: int,
    height: int,
    depth: int,
    bw: int,
    bh: int,
    bd: int,
    bpp: int,
    mips: int,
    layers: int,
) -> bool {
    &&& 0 <= width <= 16384
    &&& 0 <= height <= 16384
    &&& 0 <= depth <= 2048
    &&& 1 <= bw <= 16 && 1 <= bh <= 16 && 1 <= bd <= 16
    &&& 0 <= bpp <= 128
    &&& 0 <= mips <= 16
    &&& 0 <= layers <= 2048
    &&& surface_bound(width, height, depth, bpp, mips, layers) <= usize::MAX
}

/// Calls `tegra_swizzle::surface::swizzled_surface_size` with the block height
/// inferred. The contract claims only that the result is the function's value on
/// these arguments; `surface_in_range` keeps its arithmetic below `usize::MAX`, also
/// where `usize` has 32 bits.
#[verifier::external_body]
fn swizzled_surface_size(
    width: usize,
    height: usize,
    depth: usize,
    bw: usize,
    bh: usize,
    bd: usize,
    bpp: usize,
    mips: usize,
    layers: usize,
) -> (r: usize)
    requires
        surface_in_range(
            width as int,
            height as int,
            depth as int,
            bw as int,
            bh as int,
            bd as int,
            bpp as int,
            mips as int,
            layers as int,
        ),
    ensures
        r == tegra_swizzled_size(
            width as int,
            height as int,
            depth as int,
            bw as int,
            bh as int,
            bd as int,
            bpp as int,
            mips as int,
            layers as int,
        ),
{
    let block_dim = tegra_swizzle::surface::BlockDim {
        width: std::num::NonZeroUsize::new(bw).unwrap(),
        height: std::num::NonZeroUsize::new(bh).unwrap(),
        depth: std::num::NonZeroUsize::new(bd).unwrap(),
    };
    tegra_swizzle::surface::swizzled_surface_size(width, height, depth, block_dim, None, bpp, mips, layers)
}

/// Calls `tegra_swizzle::surface::deswizzle_surface` with the block height inferred.
/// The contract claims that an `Ok` result is the function's value on these
/// arguments, that it fails exactly where that value is `None`, and, as the crate
/// documents, that it fails exactly where `source` is shorter than the tiled size
/// that `swizzled_surface_size` gives for the same surface; `surface_in_range`
/// keeps the sizes and offsets it computes below `usize::MAX`, also where `usize` has
/// 32 bits. That the tiled offsets it computes stay inside the buffers it has checked
/// against its own size formulas is the crate's design, and is not restated here.
#[verifier::external_body]
fn deswizzle_surface(
    width: usize,
    height: usize,
    depth: usize,
    source: &[u8],
    bw: usize,
    bh: usize,
    bd: usize,
    bpp: usize,
    mips: usize,
    layers: usize,
) -> (r: Result<Vec<u8>, tegra_swizzle::SwizzleError>)
    requires
        surface_in_range(
            width as int,
            height as int,
            depth as int,
            bw as int,
            bh as int,
            bd as int,
            bpp as int,
            mips as int,
            layers as int,
        ),
    ensures
        match r {
            Ok(v) => tegra_deswizzled(
                width as int,
                height as int,
                depth as int,
                source@,
                bw as int,
                bh as int,
                bd as int,
                bpp as int,
                mips as int,
                layers as int,
            ) == Some(v@),
            Err(_) => tegra_deswizzled(
                width as int,
                height as int,
                depth as int,
                source@,
                bw as int,
                bh as int,
                bd as int,
                bpp as int,
                mips as int,
                layers as int,
            ) is None,
        },
        r is Err <==> source@.len() < tegra_swizzled_size(
            width as int,
            height as int,
            depth as int,
            bw as int,
            bh as int,
            bd as int,
            bpp as int,
            mips as int,
            layers as int,
        ),
{
    let block_dim = tegra_swizzle::surface::BlockDim {
        width: std::num::NonZeroUsize::new(bw).unwrap(),
        height: std::num::NonZeroUsize::new(bh).unwrap(),
        depth: std::num::NonZeroUsize::new(bd).unwrap(),
    };
    tegra_swizzle::surface::deswizzle_surface(width, height, depth, source, block_dim, None, bpp, mips, layers)
}

/// The surface of a texture header: width, height, depth, block width, height and
/// depth, bytes per block, mip count and layer count; a volume texture's layers are
/// its depth.
pub open spec fn header_surface(h: STextureHeader) -> (int, int, int, int, int, int, int, int, int) {
    let (bw, bh, bd) = spec_block_size(h.format.spec_code());
    let d3 = h.kind == ETextureType::D3;
    (
        h.width as int,
        h.height as int,
        if d3 { h.layers as int } else { 1 },
        bw as int,
        bh as int,
        bd as int,
        spec_bytes_per_pixel(h.format.spec_code()) as int,
        h.mip_sizes@.len() as int,
        if d3 { 1 } else { h.layers as int },
    )
}

/// The header's surface is one that the tiling arithmetic handles.
pub open spec fn header_in_range(h: STextureHeader) -> bool {
    let (w, hh, d, bw, bh, bd, bpp, mips, layers) = header_surface(h);
    surface_in_range(w, hh, d, bw, bh, bd, bpp, mips, layers)
}

/// The untiled bytes of the tiled texel buffer `buf` of a texture with header `h`:
/// the buffer must hold exactly the tiled surface.
pub open spec fn spec_deswizzle(h: STextureHeader, buf: Seq<u8>) -> Result<Seq<u8>, FormatError> {
    let (w, hh, d, bw, bh, bd, bpp, mips, layers) = header_surface(h);
    if buf.len() != tegra_swizzled_size(w, hh, d, bw, bh, bd, bpp, mips, layers) {
        Err(FormatError::InvalidData)
    } else {
        match tegra_deswizzled(w, hh, d, buf, bw, bh, bd, bpp, mips, layers) {
            Some(v) => Ok(v),
            None => Err(FormatError::InvalidData),
        }
    }
}

pub open spec fn bytes_result_view(r: Result<Vec<u8>, FormatError>) -> Result<Seq<u8>, FormatError> {
    match r {
        Ok(v) => Ok(v@),
        Err(e) => Err(e),
    }
}

/// Untiles the texel buffer `data` of a texture with header `header`.
pub fn deswizzle(header: &STextureHeader, data: &[u8]) -> (r: Result<Vec<u8>, FormatError>)
    requires
        header_in_range(*header),
    ensures
        bytes_result_view(r) == spec_deswizzle(*header, data@),
{
    let (bw, bh, bd) = header.format.block_size();
    let bpp = header.format.bytes_per_pixel() as usize;
    let d3 = match header.kind {
        ETextureType::D3 => true,
        _ => false,
    };
    let (depth, layers) = if d3 {
        (header.layers as usize, 1usize)
    } else {
        (1usize, header.layers as usize)
    };
    let mips = header.mip_sizes.len();
    let expected_size = swizzled_surface_size(
        header.width as usize,
        header.height as usize,
        depth,
        bw as usize,
        bh as usize,
        bd as usize,
        bpp,
        mips,
        layers,
    );
    if data.len() != expected_size {
        return Err(FormatError::InvalidData);
    }
    match deswizzle_surface(
        header.width as usize,
        header.height as usize,
        depth,
        data,
        bw as usize,
        bh as usize,
        bd as usize,
        bpp,
        mips,
        layers,
    ) {
        Ok(v) => Ok(v),
        Err(_) => Err(FormatError::InvalidData),
    }
}

/// Rebuilds the tiled texel buffer that the metadata `meta` (read as `m`) describes.
fn texture_buffer(data: &[u8], meta: &[u8], m: &STextureMetaData) -> (r: Result<Vec<u8>, FormatError>)
    requires
        spec_texture_meta_ok(meta@),
        m.info@ == meta_info(meta@),
        m.buffers == meta_buffers(meta@),
        m.decompressed_size == meta_size(meta@),
        buffers_fit(data@, meta@),
    ensures
        bytes_result_view(r) == spec_texture_buffer(data@, meta@),
{
    let b = m.buffers;
    let ghost info = m.info@;
    let mut buffer: Vec<u8> = vec![0u8; m.decompressed_size as usize];
    proof {
        assert(buffer@ =~= zero_bytes(meta_size(meta@)));
    }
    if b.first_size > 0 {
        if b.first_index as usize >= m.info.len() {
            return Err(FormatError::InvalidData);
        }
        let r = m.info[b.first_index as usize];
        let read_buf = &data[r.offset as usize..(r.offset + r.size) as usize];
        let comp = &read_buf[0..b.first_size as usize];
        let ds = b.first_dest_offset;
        let de = ds + b.first_dest_size;
        match expand_into(&mut buffer, ds as usize, (de - ds) as usize, comp) {
            Ok(()) => {},
            Err(e) => {
                return Err(e);
            },
        }
    }
    let ghost buf1 = buffer@;
    assert(spec_first_buffer(data@, info, b, zero_bytes(meta_size(meta@))) == Ok::<Seq<u8>, FormatError>(buf1));
    if b.second_size > 0 {
        if b.second_index as usize >= m.info.len() {
            return Err(FormatError::InvalidData);
        }
        let r = m.info[b.second_index as usize];
        let read_buf = &data[r.offset as usize..(r.offset + r.size) as usize];
        let co = b.second_compressed_offset;
        let cl = b.second_compressed_len;
        let dso = b.second_dest_offset;
        let dl = b.second_decompressed_len;
        if co < b.second_size {
            let comp = &read_buf[co as usize..(co + cl) as usize];
            match expand_into(&mut buffer, dso as usize, dl as usize, comp) {
                Ok(()) => {},
                Err(e) => {
                    return Err(e);
                },
            }
        }
        let ghost buf2 = buffer@;
        assert(spec_second_compressed(read_buf@, b, buf1) == Ok::<Seq<u8>, FormatError>(buf2));
        if co > 0 {
            copy_into(&mut buffer, (dso + dl) as usize, &read_buf[0..co as usize]);
        }
        if co + cl < b.second_size {
            copy_into(&mut buffer, (dso + co + dl) as usize, &read_buf[(co + cl) as usize..b.second_size as usize]);
        }
        assert(buffer@ == spec_second_stored(read_buf@, b, buf2));
    }
    Ok(buffer)
}

/// The header chunk's bytes of the texture resource `data`: the TXTR form (reader
/// version 65, writer version 66) must begin with a HEAD chunk.
pub open spec fn spec_texture_head(data: Seq<u8>, e: Endian) -> Result<Seq<u8>, FormatError> {
    match spec_form_slice(data, e) {
        Err(x) => Err(x),
        Ok((form, body, _)) => if four_cc_value(form.id.0) != K_FORM_TXTR || form.reader_version != 65
            || form.writer_version != 66 {
            Err(FormatError::UnexpectedForm)
        } else {
            match spec_chunk_slice(body, e) {
                Err(x) => Err(x),
                Ok((chunk, head, _)) => if four_cc_value(chunk.id.0) != K_CHUNK_HEAD {
                    Err(FormatError::UnexpectedChunk(four_cc_value(chunk.id.0) as u32))
                } else {
                    Ok(head)
                },
            }
        },
    }
}

/// Reading the resource runs off no slice: the form and its first chunk lie inside
/// their bytes.
pub open spec fn texture_head_fits(data: Seq<u8>, e: Endian) -> bool {
    &&& form_fits(data, e)
    &&& (spec_form_slice(data, e) matches Ok((_, body, _)) ==> chunk_fits(body, e))
}

/// The surface of the texture header stored in `s` (see `header_surface`).
pub open spec fn header_surface_bytes(s: Seq<u8>) -> (int, int, int, int, int, int, int, int, int) {
    let e = Endian::Little;
    let f = spec_u32(s, 4, e) as u32;
    let (bw, bh, bd) = spec_block_size(f);
    let d3 = spec_u32(s, 0, e) == 2;
    let layers = spec_u32(s, 16, e);
    (
        spec_u32(s, 8, e),
        spec_u32(s, 12, e),
        if d3 { layers } else { 1 },
        bw as int,
        bh as int,
        bd as int,
        spec_bytes_per_pixel(f) as int,
        spec_u32(s, 24, e),
        if d3 { 1 } else { layers },
    )
}

proof fn lemma_header_surface(h: STextureHeader, s: Seq<u8>)
    requires
        spec_header_read(h, s),
    ensures
        header_surface(h) == header_surface_bytes(s),
{
    let e = Endian::Little;
    lemma_records_len::<u32>(s, 28, spec_u32(s, 24, e), e);
    ETextureType::lemma_code_round_trip(h.kind);
    assert((h.kind == ETextureType::D3) == (spec_u32(s, 0, e) == 2)) by {
        ETextureType::lemma_code_round_trip(ETextureType::D3);
    }
}

/// The untiled bytes of the tiled texel buffer `buf` of the texture whose header is
/// stored in `s` (see `spec_deswizzle`).
pub open spec fn spec_deswizzle_bytes(s: Seq<u8>, buf: Seq<u8>) -> Result<Seq<u8>, FormatError> {
    let (w, hh, d, bw, bh, bd, bpp, mips, layers) = header_surface_bytes(s);
    if buf.len() != tegra_swizzled_size(w, hh, d, bw, bh, bd, bpp, mips, layers) {
        Err(FormatError::InvalidData)
    } else {
        match tegra_deswizzled(w, hh, d, buf, bw, bh, bd, bpp, mips, layers) {
            Some(v) => Ok(v),
            None => Err(FormatError::InvalidData),
        }
    }
}

/// The untiled texel data of the texture resource `data` with metadata `meta`: its
/// header must be valid, the metadata complete and the buffers must expand.
pub open spec fn spec_texture_data(data: Seq<u8>, meta: Seq<u8>, e: Endian) -> Result<
    Seq<u8>,
    FormatError,
> {
    match spec_texture_head(data, e) {
        Err(x) => Err(x),
        Ok(hb) => if !spec_texture_header_ok(hb) || !spec_texture_meta_ok(meta) {
            Err(FormatError::InvalidData)
        } else {
            match spec_texture_buffer(data, meta) {
                Err(x) => Err(x),
                Ok(buf) => spec_deswizzle_bytes(hb, buf),
            }
        },
    }
}

/// Reading the texture runs off no slice and no 32-bit sum, and its surface is one
/// that the tiling arithmetic handles.
pub open spec fn texture_fits(data: Seq<u8>, meta: Seq<u8>, e: Endian) -> bool {
    &&& texture_head_fits(data, e)
    &&& (spec_texture_head(data, e) matches Ok(hb) ==> (spec_texture_header_ok(hb)
        && spec_texture_meta_ok(meta)) ==> {
        let (w, hh, d, bw, bh, bd, bpp, mips, layers) = header_surface_bytes(hb);
        &&& buffers_fit(data, meta)
        &&& surface_in_range(w, hh, d, bw, bh, bd, bpp, mips, layers)
    })
}

pub open spec fn texture_result_view(r: Result<TextureData, FormatError>) -> Result<Seq<u8>, FormatError> {
    match r {
        Ok(t) => Ok(t.data@),
        Err(e) => Err(e),
    }
}

impl TextureData {
    /// Reads a texture from its resource `data` and its metadata `meta`: the header
    /// chunk, and the texel data rebuilt from the GPU buffers and untiled.
    pub fn slice(data: &[u8], meta: &[u8], e: Endian) -> (r: Result<TextureData, FormatError>)
        requires
            texture_fits(data@, meta@, e),
        ensures
            texture_result_view(r) == spec_texture_data(data@, meta@, e),
            r matches Ok(t) ==> spec_texture_head(data@, e) matches Ok(hb) && spec_header_read(
                t.head,
                hb,
            ),
    {
        let (txtr_desc, txtr_data, _) = match FormDescriptor::slice(data, e) {
            Ok(x) => x,
            Err(x) => {
                return Err(x);
            },
        };
        if txtr_desc.id.as_u32() != K_FORM_TXTR || txtr_desc.reader_version != 65
            || txtr_desc.writer_version != 66 {
            return Err(FormatError::UnexpectedForm);
        }
        let (head_desc, head_data, _) = match ChunkDescriptor::slice(txtr_data, e) {
            Ok(x) => x,
            Err(x) => {
                return Err(x);
            },
        };
        if head_desc.id.as_u32() != K_CHUNK_HEAD {
            return Err(FormatError::UnexpectedChunk(head_desc.id.as_u32()));
        }
        let head = match STextureHeader::read(head_data) {
            Ok(h) => h,
            Err(x) => {
                return Err(x);
            },
        };
        let m = match STextureMetaData::read(meta) {
            Ok(m) => m,
            Err(x) => {
                return Err(x);
            },
        };
        proof {
            lemma_header_surface(head, head_data@);
        }
        let buffer = match texture_buffer(data, meta, &m) {
            Ok(b) => b,
            Err(x) => {
                return Err(x);
            },
        };
        let deswizzled = match deswizzle(&head, buffer.as_slice()) {
            Ok(d) => d,
            Err(x) => {
                return Err(x);
            },
        };
        Ok(TextureData { head, data: deswizzled })
    }
}

/// Whether a compressed buffer fits an output depends on the output's length alone.
proof fn lemma_fits_len(x: Seq<u8>, o1: Seq<u8>, o2: Seq<u8>)
    requires
        o1.len() == o2.len(),
    ensures
        fits(x, o1) == fits(x, o2),
{
    if x.len() >= 4 && 1 <= crate::util::compression::spec_mode(x) <= 3 {
        let m = crate::util::compression::spec_mode(x) as u8;
        let pl = crate::util::compression::spec_payload(x);
        crate::util::lzss::lemma_decode_end(m, pl, 0, o1, 0, 0, 0);
        crate::util::lzss::lemma_decode_end(m, pl, 0, o2, 0, 0, 0);
    }
}

/// A successful expansion keeps the output's length.
proof fn lemma_expand_len(x: Seq<u8>, out: Seq<u8>)
    requires
        fits(x, out),
    ensures
        spec_decompress_into(x, out).1.len() == out.len(),
{
    if x.len() >= 4 && 1 <= crate::util::compression::spec_mode(x) <= 3 {
        crate::util::lzss::lemma_decode_len(
            crate::util::compression::spec_mode(x) as u8,
            crate::util::compression::spec_payload(x),
            0,
            out,
            0,
            0,
            0,
        );
    }
}

/// The second buffer's fit depends on the length of the buffer it is expanded into
/// alone.
proof fn lemma_second_fits_len(
    data: Seq<u8>,
    info: Seq<STextureReadInfo>,
    b: STextureCompressedBufferInfo2,
    buf1: Seq<u8>,
    buf2: Seq<u8>,
)
    requires
        buf1.len() == buf2.len(),
    ensures
        second_fits(data, info, b, buf1) == second_fits(data, info, b, buf2),
{
    if b.second_size > 0 && b.second_index < info.len() {
        let rb = read_buffer(data, info[b.second_index as int]);
        let co = b.second_compressed_offset as int;
        let cl = b.second_compressed_len as int;
        let dl = b.second_decompressed_len as int;
        let dso = b.second_dest_offset as int;
        if 0 <= dso + dl <= buf1.len() {
            lemma_fits_len(rb.subrange(co, co + cl), buf1.subrange(dso, dso + dl), buf2.subrange(dso, dso + dl));
        }
    }
}

/// Whether the second buffer's expansion into a buffer of `len` bytes fits (see
/// `second_fits`).
fn second_fits_check(data: &[u8], m: &STextureMetaData, len: u64) -> (r: bool)
    ensures
        forall|buf: Seq<u8>| buf.len() == len ==> r == #[trigger] second_fits(data@, m.info@, m.buffers, buf),
{
    let b = m.buffers;
    if !(b.second_size > 0 && (b.second_index as usize) < m.info.len()) {
        return true;
    }
    let r = m.info[b.second_index as usize];
    let end: u64 = r.offset as u64 + r.size as u64;
    if end > 0xFFFF_FFFF || end > data.len() as u64 {
        return false;
    }
    let rb = &data[r.offset as usize..end as usize];
    assert(rb@ == read_buffer(data@, r));
    let co: u64 = b.second_compressed_offset as u64;
    let cl: u64 = b.second_compressed_len as u64;
    let dl: u64 = b.second_decompressed_len as u64;
    let dso: u64 = b.second_dest_offset as u64;
    let ss: u64 = b.second_size as u64;
    let sds: u64 = b.second_dest_size as u64;
    if co + cl > 0xFFFF_FFFF {
        return false;
    }
    if co < ss {
        if co + cl > rb.len() as u64 || dso + dl > 0xFFFF_FFFF || dso + dl > len {
            return false;
        }
        let comp = &rb[co as usize..(co + cl) as usize];
        let ex = expand_check(comp, dl as usize);
        proof {
            assert forall|buf: Seq<u8>| buf.len() == len implies fits(
                comp@,
                #[trigger] buf.subrange(dso as int, dso + dl),
            ) == (ex is Some) by {
                assert(buf.subrange(dso as int, dso + dl).len() == dl);
            }
        }
        if ex.is_none() {
            return false;
        }
    }
    if co > 0 {
        if co > rb.len() as u64 || dso + dl + co > 0xFFFF_FFFF || dso + dl + co > len {
            return false;
        }
    }
    if co + cl < ss {
        if ss > rb.len() as u64 || dso + sds > 0xFFFF_FFFF || dso + co + dl > 0xFFFF_FFFF || dso + sds > len || ss + dl
            != sds + cl {
            return false;
        }
    }
    true
}

/// Whether expanding the buffers that `m`, read from `meta`, describes fits (see
/// `buffers_fit`).
fn buffers_fit_check(data: &[u8], meta: &[u8], m: &STextureMetaData) -> (r: bool)
    requires
        spec_texture_meta_ok(meta@),
        m.info@ == meta_info(meta@),
        m.buffers == meta_buffers(meta@),
        m.decompressed_size == meta_size(meta@),
    ensures
        r == buffers_fit(data@, meta@),
{
    let b = m.buffers;
    let len: u64 = m.decompressed_size as u64;
    let ghost info = m.info@;
    let ghost buf0 = zero_bytes(meta_size(meta@));
    if b.first_size > 0 {
        if (b.first_index as usize) >= m.info.len() {
            return true;
        }
        let r = m.info[b.first_index as usize];
        let end: u64 = r.offset as u64 + r.size as u64;
        let ds: u64 = b.first_dest_offset as u64;
        let de: u64 = ds + b.first_dest_size as u64;
        if end > 0xFFFF_FFFF || end > data.len() as u64 || b.first_size > r.size || de > 0xFFFF_FFFF || de > len {
            return false;
        }
        let comp = &data[r.offset as usize..r.offset as usize + b.first_size as usize];
        assert(comp@ == read_buffer(data@, r).subrange(0, b.first_size as int));
        let ex = expand_check(comp, (de - ds) as usize);
        let ghost out0 = buf0.subrange(ds as int, de as int);
        assert(out0.len() == de - ds);
        match ex {
            None => {
                return false;
            },
            Some(ok) => {
                if !ok {
                    return true;
                }
                proof {
                    lemma_expand_len(comp@, out0);
                    let buf1 = splice(buf0, ds as int, spec_decompress_into(comp@, out0).1);
                    assert(buf1.len() == buf0.len());
                    lemma_second_fits_len(data@, info, b, buf1, buf0);
                }
            },
        }
    }
    second_fits_check(data, m, len)
}

/// Whether the surface of the texture header `h` is one that the tiling arithmetic
/// handles (see `header_in_range`).
fn header_in_range_check(h: &STextureHeader) -> (r: bool)
    ensures
        r == header_in_range(*h),
{
    let (bw, bh, bd) = h.format.block_size();
    let bpp = h.format.bytes_per_pixel() as u64;
    let d3 = match h.kind {
        ETextureType::D3 => true,
        _ => false,
    };
    let (depth, layers) = if d3 {
        (h.layers as u64, 1u64)
    } else {
        (1u64, h.layers as u64)
    };
    let mips = h.mip_sizes.len();
    let width = h.width as u64;
    let height = h.height as u64;
    if width > 16384 || height > 16384 || depth > 2048 || bw < 1 || bw > 16 || bh < 1 || bh > 16 || bd < 1 || bd > 16
        || bpp > 128 || mips > 16 || layers > 2048 {
        return false;
    }
    let mips = mips as u64;
    let p1: u64 = 2 * (layers + 1);
    assert(p1 * (mips + 1) <= 69666) by (nonlinear_arith)
        requires
            p1 <= 4098,
            mips <= 16,
    ;
    let p2: u64 = p1 * (mips + 1);
    assert(width * bpp <= 2097152) by (nonlinear_arith)
        requires
            width <= 16384,
            bpp <= 128,
    ;
    let wb: u64 = width * bpp + 64;
    assert(p2 * wb <= 146104649856) by (nonlinear_arith)
        requires
            p2 <= 69666,
            wb <= 2097216,
    ;
    let p3: u64 = p2 * wb;
    assert(p3 * (height + 128) <= 2412479978422272) by (nonlinear_arith)
        requires
            p3 <= 146104649856,
            height <= 16384,
    ;
    let p4: u64 = p3 * (height + 128);
    assert(p4 * (depth + 16) <= 4979358675463569408) by (nonlinear_arith)
        requires
            p4 <= 2412479978422272,
            depth <= 2048,
    ;
    let bound: u64 = p4 * (depth + 16);
    assert(bound == 2 * (layers + 1) * (mips + 1) * (width * bpp + 64) * (height + 128) * (depth + 16)) by (nonlinear_arith)
        requires
            p1 == 2 * (layers + 1),
            p2 == p1 * (mips + 1),
            wb == width * bpp + 64,
            p3 == p2 * wb,
            p4 == p3 * (height + 128),
            bound == p4 * (depth + 16),
    ;
    bound <= usize::MAX as u64
}

/// Whether reading the texture `data` with metadata `meta` runs off no slice and no
/// 32-bit sum and meets a surface that the tiling arithmetic handles (see
/// `texture_fits`).
pub fn texture_fits_check(data: &[u8], meta: &[u8], e: Endian) -> (r: bool)
    ensures
        r == texture_fits(data@, meta@, e),
{
    if !form_fits_check(data, e) {
        return false;
    }
    let (form, body, _) = match FormDescriptor::slice(data, e) {
        Ok(x) => x,
        Err(_) => {
            return true;
        },
    };
    if !chunk_fits_check(body, e) {
        return false;
    }
    if form.id.as_u32() != K_FORM_TXTR || form.reader_version != 65 || form.writer_version != 66 {
        return true;
    }
    let (ch, head, _) = match ChunkDescriptor::slice(body, e) {
        Ok(x) => x,
        Err(_) => {
            return true;
        },
    };
    if ch.id.as_u32() != K_CHUNK_HEAD {
        return true;
    }
    let h = match STextureHeader::read(head) {
        Ok(h) => h,
        Err(_) => {
            return true;
        },
    };
    let m = match STextureMetaData::read(meta) {
        Ok(m) => m,
        Err(_) => {
            return true;
        },
    };
    proof {
        lemma_header_surface(h, head@);
    }
    buffers_fit_check(data, meta, &m) && header_in_range_check(&h)
}

} // verus!

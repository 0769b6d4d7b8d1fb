//! Light probe bundles.
use vstd::prelude::*;
use crate::format::{CVector3i, FormatError, four_cc_value};
use crate::format::chunk::{ChunkDescriptor, chunk_fits, spec_chunk_slice};
use crate::format::rfrm::{FormDescriptor, form_fits, spec_form_slice};
use crate::format::texture_data::{spec_texture_data, spec_texture_head, texture_fits};
use crate::format::txtr::{STextureMetaData, TextureData, spec_header_read, spec_texture_meta_len, spec_texture_meta_ok};
use crate::util::read::{Endian, FixedRecord, read_u16, read_u32, read_u64, spec_u16, spec_u32, spec_u64};

verus! {

/// Code of the light probe bundle form.
pub const K_FORM_LTPB: u32 = 0x4C54_5042;

/// Code of the probe header chunk.
pub const K_CHUNK_PHDR: u32 = 0x5048_4452;

/// Code of the probe texture chunk.
pub const K_CHUNK_PTEX: u32 = 0x5054_4558;

/// Position of a probe in the uniform probe grid.
#[derive(Copy, Clone, Debug, PartialEq, Eq, Structural)]
pub struct CBakedLightingUniformProbeGridIndex {
    pub x: u16,
    pub y: u16,
    pub z: u16,
}

impl FixedRecord for CBakedLightingUniformProbeGridIndex {
    open spec fn spec_size() -> int {
        6
    }

    open spec fn spec_parse(s: Seq<u8>, pos: int, e: Endian) -> Option<
        CBakedLightingUniformProbeGridIndex,
    > {
        Some(
            CBakedLightingUniformProbeGridIndex {
                x: spec_u16(s, pos, e) as u16,
                y: spec_u16(s, pos + 2, e) as u16,
                z: spec_u16(s, pos + 4, e) as u16,
            },
        )
    }

    fn size() -> (r: usize) {
        6
    }

    fn parse(data: &[u8], pos: usize, e: Endian) -> (r: Option<CBakedLightingUniformProbeGridIndex>) {
        let _len = data.len();
        Some(
            CBakedLightingUniformProbeGridIndex {
                x: read_u16(data, pos, e).unwrap(),
                y: read_u16(data, pos + 2, e).unwrap(),
                z: read_u16(data, pos + 4, e).unwrap(),
            },
        )
    }
}

/// Extra values stored after each probe texture's metadata.
#[derive(Copy, Clone, Debug, PartialEq, Eq, Structural)]
pub struct LightProbeExtra {
    pub vec: CVector3i,
    pub unk: u32,
}

impl FixedRecord for LightProbeExtra {
    open spec fn spec_size() -> int {
        16
    }

    open spec fn spec_parse(s: Seq<u8>, pos: int, e: Endian) -> Option<LightProbeExtra> {
        Some(
            LightProbeExtra {
                vec: CVector3i {
                    x: spec_u32(s, pos, e) as i32,
                    y: spec_u32(s, pos + 4, e) as i32,
                    z: spec_u32(s, pos + 8, e) as i32,
                },
                unk: spec_u32(s, pos + 12, e) as u32,
            },
        )
    }

    fn size() -> (r: usize) {
        16
    }

    fn parse(data: &[u8], pos: usize, e: Endian) -> (r: Option<LightProbeExtra>) {
        let _len = data.len();
        Some(
            LightProbeExtra {
                vec: CVector3i {
                    x: read_u32(data, pos, e).unwrap() as i32,
                    y: read_u32(data, pos + 4, e).unwrap() as i32,
                    z: read_u32(data, pos + 8, e).unwrap() as i32,
                },
                unk: read_u32(data, pos + 12, e).unwrap(),
            },
        )
    }
}

/// Header of a light probe bundle: two unknown words, a vector of three floats (held
/// as their bits) and two grid positions.
#[derive(Copy, Clone, Debug)]
pub struct LightProbeBundleHeader {
    pub unk1: u32,
    pub unk2: u32,
    pub unk_vec: [u32; 3],
    pub grid_idx1: CBakedLightingUniformProbeGridIndex,
    pub grid_idx2: CBakedLightingUniformProbeGridIndex,
}

/// The little-endian probe header at the start of `s` (32 bytes), if `s` holds one.
pub open spec fn spec_probe_header(s: Seq<u8>) -> Option<LightProbeBundleHeader> {
    let e = Endian::Little;
    if s.len() < 32 {
        None
    } else {
        Some(
            LightProbeBundleHeader {
                unk1: spec_u32(s, 0, e) as u32,
                unk2: spec_u32(s, 4, e) as u32,
                unk_vec: [spec_u32(s, 8, e) as u32, spec_u32(s, 12, e) as u32, spec_u32(s, 16, e) as u32],
                grid_idx1: CBakedLightingUniformProbeGridIndex::spec_parse(s, 20, e)->Some_0,
                grid_idx2: CBakedLightingUniformProbeGridIndex::spec_parse(s, 26, e)->Some_0,
            },
        )
    }
}

fn read_probe_header(s: &[u8]) -> (r: Option<LightProbeBundleHeader>)
    ensures
        r == spec_probe_header(s@),
{
    let e = Endian::Little;
    if s.len() < 32 {
        return None;
    }
    Some(
        LightProbeBundleHeader {
            unk1: read_u32(s, 0, e).unwrap(),
            unk2: read_u32(s, 4, e).unwrap(),
            unk_vec: [read_u32(s, 8, e).unwrap(), read_u32(s, 12, e).unwrap(), read_u32(s, 16, e).unwrap()],
            grid_idx1: CBakedLightingUniformProbeGridIndex::parse(s, 20, e).unwrap(),
            grid_idx2: CBakedLightingUniformProbeGridIndex::parse(s, 26, e).unwrap(),
        },
    )
}

/// `n` little-endian 64-bit numbers from `pos` on.
pub open spec fn spec_u64s(s: Seq<u8>, pos: int, n: int) -> Seq<u64> {
    Seq::new(n as nat, |i: int| spec_u64(s, pos + 8 * i, Endian::Little) as u64)
}

/// The bundle's metadata: two unknown words, then the offsets of the textures'
/// metadata and of the textures, each list a 32-bit count and 64-bit numbers, all
/// little-endian; `None` when it runs past the end.
pub open spec fn spec_probe_meta(m: Seq<u8>) -> Option<(Seq<u64>, Seq<u64>)> {
    if m.len() < 12 {
        None
    } else {
        let n1 = spec_u32(m, 8, Endian::Little);
        let p2 = 12 + 8 * n1;
        if p2 + 4 > m.len() {
            None
        } else {
            let n2 = spec_u32(m, p2, Endian::Little);
            if p2 + 4 + 8 * n2 > m.len() {
                None
            } else {
                Some((spec_u64s(m, 12, n1), spec_u64s(m, p2 + 4, n2)))
            }
        }
    }
}

fn read_u64s(s: &[u8], pos: usize, n: usize) -> (r: Vec<u64>)
    requires
        pos + 8 * n <= s@.len(),
    ensures
        r@ == spec_u64s(s@, pos as int, n as int),
{
    let len = s.len();
    let mut v: Vec<u64> = Vec::new();
    let mut i: usize = 0;
    while i < n
        invariant
            len == s@.len(),
            pos + 8 * n <= s@.len(),
            i <= n,
            v@ == spec_u64s(s@, pos as int, i as int),
        decreases n - i,
    {
        v.push(read_u64(s, pos + 8 * i, Endian::Little).unwrap());
        i = i + 1;
        assert(v@ =~= spec_u64s(s@, pos as int, i as int));
    }
    v
}

fn read_probe_meta(m: &[u8]) -> (r: Option<(Vec<u64>, Vec<u64>)>)
    ensures
        match r {
            Some((a, b)) => spec_probe_meta(m@) == Some((a@, b@)),
            None => spec_probe_meta(m@) is None,
        },
{
    if m.len() < 12 {
        return None;
    }
    let n1 = read_u32(m, 8, Endian::Little).unwrap() as usize;
    if (m.len() - 12) / 8 < n1 {
        return None;
    }
    let p2 = 12 + 8 * n1;
    if m.len() - p2 < 4 {
        return None;
    }
    let n2 = read_u32(m, p2, Endian::Little).unwrap() as usize;
    if (m.len() - p2 - 4) / 8 < n2 {
        return None;
    }
    let a = read_u64s(m, 12, n1);
    let b = read_u64s(m, p2 + 4, n2);
    Some((a, b))
}

/// Reads the bundle's chunks `s` (byte order `e`), starting from the header `head`:
/// a PHDR chunk gives the header, PTEX chunks are passed over, any other chunk is
/// refused.
#[verifier::opaque]
pub open spec fn probe_walk(s: Seq<u8>, e: Endian, head: Option<LightProbeBundleHeader>) -> Result<
    Option<LightProbeBundleHeader>,
    FormatError,
>
    decreases s.len(),
{
    if s.len() == 0 {
        Ok(head)
    } else {
        match spec_chunk_slice(s, e) {
            Err(x) => Err(x),
            Ok((h, body, rest)) => if rest.len() >= s.len() {
                Err(FormatError::InvalidChunkHeader)
            } else {
                let id = four_cc_value(h.id.0);
                if id == K_CHUNK_PHDR {
                    match spec_probe_header(body) {
                        Some(x) => probe_walk(rest, e, Some(x)),
                        None => Err(FormatError::InvalidData),
                    }
                } else if id == K_CHUNK_PTEX {
                    probe_walk(rest, e, head)
                } else {
                    Err(FormatError::UnexpectedChunk(id as u32))
                }
            },
        }
    }
}

/// Every chunk that reading the bundle's chunks `s` reaches lies inside its bytes.
#[verifier::opaque]
pub open spec fn probe_chunks_fit(s: Seq<u8>, e: Endian) -> bool
    decreases s.len(),
{
    &&& chunk_fits(s, e)
    &&& (spec_chunk_slice(s, e) matches Ok((_, _, rest)) ==> (rest.len() < s.len() ==> probe_chunks_fit(
        rest,
        e,
    )))
}

proof fn lemma_probe_walk(s: Seq<u8>, e: Endian, head: Option<LightProbeBundleHeader>)
    ensures
        s.len() == 0 ==> probe_walk(s, e, head) == Ok::<_, FormatError>(head),
        s.len() > 0 ==> probe_walk(s, e, head) == match spec_chunk_slice(s, e) {
            Err(x) => Err(x),
            Ok((h, body, rest)) => if rest.len() >= s.len() {
                Err(FormatError::InvalidChunkHeader)
            } else {
                let id = four_cc_value(h.id.0);
                if id == K_CHUNK_PHDR {
                    match spec_probe_header(body) {
                        Some(x) => probe_walk(rest, e, Some(x)),
                        None => Err(FormatError::InvalidData),
                    }
                } else if id == K_CHUNK_PTEX {
                    probe_walk(rest, e, head)
                } else {
                    Err(FormatError::UnexpectedChunk(id as u32))
                }
            },
        },
        probe_chunks_fit(s, e) == (chunk_fits(s, e) && (spec_chunk_slice(s, e) matches Ok((_, _, rest)) ==> (
        rest.len() < s.len() ==> probe_chunks_fit(rest, e)))),
{
    reveal(probe_walk);
    reveal(probe_chunks_fit);
}

/// Reads the bundle's chunks (see `probe_walk`) from no header.
fn read_probe_chunks(body: &[u8], e: Endian) -> (r: Result<Option<LightProbeBundleHeader>, FormatError>)
    requires
        probe_chunks_fit(body@, e),
    ensures
        r == probe_walk(body@, e, None),
{
    let mut head: Option<LightProbeBundleHeader> = None;
    let mut s = body;
    while s.len() > 0
        invariant
            probe_chunks_fit(s@, e),
            probe_walk(s@, e, head) == probe_walk(body@, e, None),
        decreases s@.len(),
    {
        proof {
            lemma_probe_walk(s@, e, head);
        }
        let (h, chunk, rest) = ChunkDescriptor::slice(s, e)?;
        if rest.len() >= s.len() {
            return Err(FormatError::InvalidChunkHeader);
        }
        let id = h.id.as_u32();
        if id == K_CHUNK_PHDR {
            match read_probe_header(chunk) {
                Some(x) => {
                    head = Some(x);
                },
                None => {
                    return Err(FormatError::InvalidData);
                },
            }
        } else if id != K_CHUNK_PTEX {
            return Err(FormatError::UnexpectedChunk(id));
        }
        s = rest;
    }
    proof {
        lemma_probe_walk(s@, e, head);
    }
    Ok(head)
}

/// What reading one probe texture gives, its metadata at `mo` and its resource at
/// `to` in `data`: the extra values stored after the metadata, and the texel data.
#[verifier::opaque]
pub open spec fn probe_texture(data: Seq<u8>, mo: u64, to: u64, e: Endian) -> Result<
    (LightProbeExtra, Seq<u8>),
    FormatError,
> {
    let m = data.subrange(mo as int, data.len() as int);
    if !spec_texture_meta_ok(m) {
        Err(FormatError::InvalidData)
    } else {
        let at = spec_texture_meta_len(m);
        if at + 16 > m.len() {
            Err(FormatError::InvalidData)
        } else {
            match spec_texture_data(data.subrange(to as int, data.len() as int), m, e) {
                Err(x) => Err(x),
                Ok(t) => Ok((LightProbeExtra::spec_parse(m, at, Endian::Little)->Some_0, t)),
            }
        }
    }
}

/// The first `k` probe textures; the first failure stops the reading.
pub open spec fn probe_textures(data: Seq<u8>, mo: Seq<u64>, to: Seq<u64>, e: Endian, k: int) -> Result<
    Seq<(LightProbeExtra, Seq<u8>)>,
    FormatError,
>
    decreases k,
{
    if k <= 0 {
        Ok(Seq::empty())
    } else {
        match probe_textures(data, mo, to, e, k - 1) {
            Err(x) => Err(x),
            Ok(l) => match probe_texture(data, mo[k - 1], to[k - 1], e) {
                Err(y) => Err(y),
                Ok(t) => Ok(l.push(t)),
            },
        }
    }
}

/// The bundle's form (LTPB, versions 66 and 73), metadata and chunks, read up to the
/// textures: the header and the two offset lists.
#[verifier::opaque]
pub open spec fn spec_probe_prefix(data: Seq<u8>, meta: Seq<u8>, e: Endian) -> Result<
    (LightProbeBundleHeader, Seq<u64>, Seq<u64>),
    FormatError,
> {
    match spec_form_slice(data, e) {
        Err(x) => Err(x),
        Ok((h, body, _)) => if four_cc_value(h.id.0) != K_FORM_LTPB || h.reader_version != 66
            || h.writer_version != 73 {
            Err(FormatError::UnexpectedForm)
        } else {
            match spec_probe_meta(meta) {
                None => Err(FormatError::InvalidData),
                Some((mo, to)) => if mo.len() != to.len() {
                    Err(FormatError::InvalidData)
                } else {
                    match probe_walk(body, e, None) {
                        Err(x) => Err(x),
                        Ok(None) => Err(FormatError::MissingChunk(K_CHUNK_PHDR)),
                        Ok(Some(hd)) => Ok((hd, mo, to)),
                    }
                },
            }
        },
    }
}

/// The light probe bundle of the resource `data` with metadata `meta`: its header
/// and, per texture, the extra values and the texel data.
pub open spec fn spec_light_probe(data: Seq<u8>, meta: Seq<u8>, e: Endian) -> Result<
    (LightProbeBundleHeader, Seq<(LightProbeExtra, Seq<u8>)>),
    FormatError,
> {
    match spec_probe_prefix(data, meta, e) {
        Err(x) => Err(x),
        Ok((hd, mo, to)) => match probe_textures(data, mo, to, e, mo.len() as int) {
            Err(x) => Err(x),
            Ok(l) => Ok((hd, l)),
        },
    }
}

/// Reading the probe texture at `mo` and `to` runs off no slice.
pub open spec fn probe_texture_fits(data: Seq<u8>, mo: u64, to: u64, e: Endian) -> bool {
    let m = data.subrange(mo as int, data.len() as int);
    &&& mo <= data.len()
    &&& (spec_texture_meta_ok(m) && spec_texture_meta_len(m) + 16 <= m.len()) ==> {
        &&& to <= data.len()
        &&& texture_fits(data.subrange(to as int, data.len() as int), m, e)
    }
}

/// The bundle's form header and metadata check out, so that its chunks are read.
pub open spec fn probe_header_ok(h: FormDescriptor, meta: Seq<u8>) -> bool {
    &&& four_cc_value(h.id.0) == K_FORM_LTPB
    &&& h.reader_version == 66
    &&& h.writer_version == 73
    &&& match spec_probe_meta(meta) {
        Some((mo, to)) => mo.len() == to.len(),
        None => false,
    }
}

/// The texture header `head` was read from the head chunk of the resource at `to`.
pub open spec fn texture_head_from(data: Seq<u8>, to: u64, head: crate::format::txtr::STextureHeader, e: Endian) -> bool {
    match spec_texture_head(data.subrange(to as int, data.len() as int), e) {
        Ok(hb) => spec_header_read(head, hb),
        Err(_) => false,
    }
}

/// Reading the bundle runs off no slice: its form, the chunks that are read, and
/// each texture that is reached lie inside their bytes.
pub open spec fn light_probe_fits(data: Seq<u8>, meta: Seq<u8>, e: Endian) -> bool {
    &&& form_fits(data, e)
    &&& (spec_form_slice(data, e) matches Ok((h, body, _)) ==> probe_header_ok(h, meta)
        ==> probe_chunks_fit(body, e))
    &&& (spec_probe_prefix(data, meta, e) matches Ok((_, mo, to)) ==> forall|k: int|
        0 <= k < mo.len() && #[trigger] probe_textures(data, mo, to, e, k) is Ok ==> probe_texture_fits(
            data,
            mo[k],
            to[k],
            e,
        ))
}

/// A light probe bundle: its header, its textures and the extra values of each.
#[derive(Clone, Debug)]
pub struct LightProbeData {
    pub head: LightProbeBundleHeader,
    pub textures: Vec<TextureData>,
    pub extra: Vec<LightProbeExtra>,
}

/// The extra values and texel data of each texture of `p`.
pub open spec fn probe_items(p: LightProbeData) -> Seq<(LightProbeExtra, Seq<u8>)> {
    Seq::new(p.textures@.len(), |k: int| (p.extra@[k], p.textures@[k].data@))
}

pub open spec fn probe_result_view(r: Result<LightProbeData, FormatError>) -> Result<
    (LightProbeBundleHeader, Seq<(LightProbeExtra, Seq<u8>)>),
    FormatError,
> {
    match r {
        Ok(p) => Ok((p.head, probe_items(p))),
        Err(x) => Err(x),
    }
}

fn read_probe_prefix(data: &[u8], meta: &[u8], e: Endian) -> (r: Result<
    (LightProbeBundleHeader, Vec<u64>, Vec<u64>),
    FormatError,
>)
    requires
        light_probe_fits(data@, meta@, e),
    ensures
        match r {
            Ok((hd, mo, to)) => spec_probe_prefix(data@, meta@, e) == Ok::<_, FormatError>(
                (hd, mo@, to@),
            ),
            Err(x) => spec_probe_prefix(data@, meta@, e) == Err::<
                (LightProbeBundleHeader, Seq<u64>, Seq<u64>),
                FormatError,
            >(x),
        },
        r matches Ok((_, mo, to)) ==> mo@.len() == to@.len(),
{
    proof {
        reveal(spec_probe_prefix);
    }
    let (h, body, _) = FormDescriptor::slice(data, e)?;
    if h.id.as_u32() != K_FORM_LTPB || h.reader_version != 66 || h.writer_version != 73 {
        return Err(FormatError::UnexpectedForm);
    }
    let (mo, to) = match read_probe_meta(meta) {
        Some(x) => x,
        None => {
            return Err(FormatError::InvalidData);
        },
    };
    if mo.len() != to.len() {
        return Err(FormatError::InvalidData);
    }
    match read_probe_chunks(body, e)? {
        Some(hd) => Ok((hd, mo, to)),
        None => Err(FormatError::MissingChunk(K_CHUNK_PHDR)),
    }
}

/// Reads the probe texture at `mo` and `to` (see `probe_texture`).
fn read_probe_texture(data: &[u8], mo: u64, to: u64, e: Endian) -> (r: Result<(LightProbeExtra, TextureData), FormatError>)
    requires
        probe_texture_fits(data@, mo, to, e),
    ensures
        match r {
            Ok((x, t)) => {
                &&& probe_texture(data@, mo, to, e) == Ok::<_, FormatError>((x, t.data@))
                &&& texture_head_from(data@, to, t.head, e)
            },
            Err(y) => probe_texture(data@, mo, to, e) == Err::<(LightProbeExtra, Seq<u8>), FormatError>(y),
        },
{
    proof {
        reveal(probe_texture);
    }
    let m = &data[mo as usize..data.len()];
    if STextureMetaData::read(m).is_err() {
        return Err(FormatError::InvalidData);
    }
    let count = read_u32(m, 24, Endian::Little).unwrap() as usize;
    let at: usize = 28 + 9 * count + 48;
    if at > m.len() || m.len() - at < 16 {
        return Err(FormatError::InvalidData);
    }
    let x = LightProbeExtra::parse(m, at, Endian::Little).unwrap();
    let t = TextureData::slice(&data[to as usize..data.len()], m, e)?;
    Ok((x, t))
}

impl LightProbeData {
    /// Reads a light probe bundle (an LTPB form, versions 66 and 73) with its metadata:
    /// the header from the PHDR chunk, then each texture, whose metadata and resource
    /// lie at the offsets that the metadata lists, with the extra values stored after
    /// the texture's metadata.
    pub fn slice(data: &[u8], meta: &[u8], e: Endian) -> (r: Result<LightProbeData, FormatError>)
        requires
            light_probe_fits(data@, meta@, e),
        ensures
            probe_result_view(r) == spec_light_probe(data@, meta@, e),
            r matches Ok(p) ==> spec_probe_prefix(data@, meta@, e) matches Ok((_, _, to)) && forall|k: int|
                0 <= k < p.textures@.len() ==> texture_head_from(data@, to[k], #[trigger] p.textures@[k].head, e),
    {
        let (head, mo, to) = read_probe_prefix(data, meta, e)?;
        proof {
            assert forall|k: int|
                0 <= k < mo@.len() && #[trigger] probe_textures(data@, mo@, to@, e, k) is Ok implies probe_texture_fits(
                data@,
                mo@[k],
                to@[k],
                e,
            ) by {}
        }
        let ghost l0: Seq<(LightProbeExtra, Seq<u8>)> = Seq::empty();
        let mut textures: Vec<TextureData> = Vec::new();
        let mut extra: Vec<LightProbeExtra> = Vec::new();
        let mut k: usize = 0;
        proof {
            assert(probe_items(LightProbeData { head, textures, extra }) =~= Seq::empty());
        }
        while k < mo.len()
            invariant
                forall|j: int|
                    0 <= j < mo@.len() && #[trigger] probe_textures(data@, mo@, to@, e, j) is Ok
                        ==> probe_texture_fits(data@, mo@[j], to@[j], e),
                spec_probe_prefix(data@, meta@, e) == Ok::<_, FormatError>((head, mo@, to@)),
                mo@.len() == to@.len(),
                k <= mo@.len(),
                textures@.len() == k,
                extra@.len() == k,
                probe_textures(data@, mo@, to@, e, k as int) == Ok::<_, FormatError>(
                    probe_items(LightProbeData { head, textures, extra }),
                ),
                forall|j: int|
                    0 <= j < k ==> texture_head_from(data@, to@[j], #[trigger] textures@[j].head, e),
            decreases mo.len() - k,
        {
            let ghost before = probe_items(LightProbeData { head, textures, extra });
            let (x, t) = match read_probe_texture(data, mo[k], to[k], e) {
                Ok(v) => v,
                Err(y) => {
                    proof {
                        lemma_probe_textures_err(data@, mo@, to@, e, k as int + 1, mo@.len() as int);
                    }
                    return Err(y);
                },
            };
            textures.push(t);
            extra.push(x);
            proof {
                assert(probe_items(LightProbeData { head, textures, extra }) =~= before.push((x, t.data@)));
            }
            k = k + 1;
        }
        proof {
            assert(k == mo@.len());
        }
        Ok(LightProbeData { head, textures, extra })
    }
}

/// Once reading the probe textures fails, reading more fails the same way.
proof fn lemma_probe_textures_err(data: Seq<u8>, mo: Seq<u64>, to: Seq<u64>, e: Endian, k: int, n: int)
    requires
        0 < k <= n,
        probe_textures(data, mo, to, e, k) is Err,
    ensures
        probe_textures(data, mo, to, e, n) == probe_textures(data, mo, to, e, k),
    decreases n - k,
{
    if k < n {
        lemma_probe_textures_err(data, mo, to, e, k, n - 1);
    }
}

} // verus!

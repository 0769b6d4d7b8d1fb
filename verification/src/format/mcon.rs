//! Reading a model container (MCON): its visual data. Floats are held as their bits.
use vstd::prelude::*;
use crate::format::chunk::{ChunkDescriptor, chunk_fits, spec_chunk_slice};
use crate::format::model::CColor4f;
use crate::format::pack::{read_uuid, spec_uuid_at};
use crate::format::rfrm::{FormDescriptor, form_fits, spec_form_slice};
use crate::format::{CObjectId, FormatError, four_cc_value, peek_four_cc, spec_four_cc_at};
use crate::util::read::{
    Endian, FixedRecord, lemma_records_some_fit, read_records, read_u32, spec_parse_records, spec_u32,
};

verus! {

/// Code of the model container form.
pub const K_FORM_MCON: u32 = 0x4D43_4F4E;

/// Code of the visual data chunk.
pub const K_CHUNK_MCVD: u32 = 0x4D43_5644;

/// Code of the header chunk.
pub const K_CHUNK_MCHD: u32 = 0x4D43_4844;

/// Code of the MCCD chunk.
pub const K_CHUNK_MCCD: u32 = 0x4D43_4344;

/// Code that ends the chunks of a model container.
pub const K_PEEK: u32 = 0x5045_454B;

/// Four floats, held as their bits.
#[derive(Copy, Clone, Debug, PartialEq, Eq, Structural)]
pub struct CVector4f {
    pub x: u32,
    pub y: u32,
    pub z: u32,
    pub w: u32,
}

pub open spec fn vec4_at(s: Seq<u8>, pos: int, e: Endian) -> CVector4f {
    CVector4f {
        x: spec_u32(s, pos, e) as u32,
        y: spec_u32(s, pos + 4, e) as u32,
        z: spec_u32(s, pos + 8, e) as u32,
        w: spec_u32(s, pos + 12, e) as u32,
    }
}

fn read_vec4(data: &[u8], pos: usize, e: Endian) -> (r: CVector4f)
    requires
        pos + 16 <= data@.len(),
    ensures
        r == vec4_at(data@, pos as int, e),
{
    let _len = data.len();
    CVector4f {
        x: read_u32(data, pos, e).unwrap(),
        y: read_u32(data, pos + 4, e).unwrap(),
        z: read_u32(data, pos + 8, e).unwrap(),
        w: read_u32(data, pos + 12, e).unwrap(),
    }
}

/// A 3x4 transform: three rows of four floats.
#[derive(Copy, Clone, Debug, PartialEq, Eq, Structural)]
pub struct CTransform4f {
    pub m0: CVector4f,
    pub m1: CVector4f,
    pub m2: CVector4f,
}

impl FixedRecord for CTransform4f {
    open spec fn spec_size() -> int {
        48
    }

    open spec fn spec_parse(s: Seq<u8>, pos: int, e: Endian) -> Option<CTransform4f> {
        Some(CTransform4f { m0: vec4_at(s, pos, e), m1: vec4_at(s, pos + 16, e), m2: vec4_at(s, pos + 32, e) })
    }

    fn size() -> (r: usize) {
        48
    }

    fn parse(data: &[u8], pos: usize, e: Endian) -> (r: Option<CTransform4f>) {
        let _len = data.len();
        Some(CTransform4f { m0: read_vec4(data, pos, e), m1: read_vec4(data, pos + 16, e), m2: read_vec4(data, pos + 32, e) })
    }
}

impl FixedRecord for CObjectId {
    open spec fn spec_size() -> int {
        16
    }

    /// An ID stored little-endian, whatever the byte order of the rest.
    open spec fn spec_parse(s: Seq<u8>, pos: int, e: Endian) -> Option<CObjectId> {
        Some(CObjectId(spec_uuid_at(s, pos, Endian::Little)))
    }

    fn size() -> (r: usize) {
        16
    }

    fn parse(data: &[u8], pos: usize, e: Endian) -> (r: Option<CObjectId>) {
        Some(CObjectId(read_uuid(data, pos, Endian::Little)))
    }
}

/// The transform of an object: its ID and its transform.
#[derive(Copy, Clone, Debug, PartialEq, Eq, Structural)]
pub struct ObjectTransform {
    pub id: CObjectId,
    pub xf: CTransform4f,
}

impl FixedRecord for ObjectTransform {
    open spec fn spec_size() -> int {
        64
    }

    open spec fn spec_parse(s: Seq<u8>, pos: int, e: Endian) -> Option<ObjectTransform> {
        Some(
            ObjectTransform {
                id: CObjectId(spec_uuid_at(s, pos, Endian::Little)),
                xf: CTransform4f { m0: vec4_at(s, pos + 16, e), m1: vec4_at(s, pos + 32, e), m2: vec4_at(s, pos + 48, e) },
            },
        )
    }

    fn size() -> (r: usize) {
        64
    }

    fn parse(data: &[u8], pos: usize, e: Endian) -> (r: Option<ObjectTransform>) {
        let _len = data.len();
        Some(
            ObjectTransform {
                id: CObjectId(read_uuid(data, pos, Endian::Little)),
                xf: CTransform4f { m0: read_vec4(data, pos + 16, e), m1: read_vec4(data, pos + 32, e), m2: read_vec4(data, pos + 48, e) },
            },
        )
    }
}

/// The little-endian records at `p`: a 32-bit count and that many records, with the
/// position after them.
pub open spec fn spec_counted_at<T: FixedRecord>(s: Seq<u8>, p: int) -> Option<(Seq<T>, int)> {
    if p + 4 > s.len() {
        None
    } else {
        let n = spec_u32(s, p, Endian::Little);
        match spec_parse_records::<T>(s, p + 4, n, Endian::Little) {
            Some(l) => Some((l, p + 4 + n * T::spec_size())),
            None => None,
        }
    }
}

fn read_counted_at<T: FixedRecord>(s: &[u8], p: usize) -> (r: Option<(Vec<T>, usize)>)
    requires
        p <= s@.len(),
        T::spec_size() > 0,
    ensures
        match r {
            Some((v, q)) => spec_counted_at::<T>(s@, p as int) == Some((v@, q as int)) && q <= s@.len(),
            None => spec_counted_at::<T>(s@, p as int) is None,
        },
{
    if s.len() - p < 4 {
        return None;
    }
    let n = read_u32(s, p, Endian::Little).unwrap();
    let v = read_records::<T>(s, p + 4, n as usize, Endian::Little)?;
    proof {
        lemma_records_some_fit::<T>(s@, p + 4, n as int, Endian::Little);
    }
    let size = T::size();
    assert(n * size <= s@.len()) by (nonlinear_arith)
        requires
            p + 4 + n * size <= s@.len(),
            0 <= p,
    ;
    Some((v, p + 4 + n as usize * size))
}

/// An unknown record: two floats and a list of words.
#[derive(Clone, Debug)]
pub struct SUnknown {
    pub f0: u32,
    pub f1: u32,
    pub ints: Vec<u32>,
}

pub type UnknownView = (u32, u32, Seq<u32>);

pub open spec fn unknown_view(u: SUnknown) -> UnknownView {
    (u.f0, u.f1, u.ints@)
}

/// The unknown record at `p`: two words, then a count and that many words.
pub open spec fn spec_unknown(s: Seq<u8>, p: int) -> Option<(UnknownView, int)> {
    if p + 8 > s.len() {
        None
    } else {
        match spec_counted_at::<u32>(s, p + 8) {
            Some((l, q)) => Some(((spec_u32(s, p, Endian::Little) as u32, spec_u32(s, p + 4, Endian::Little) as u32, l), q)),
            None => None,
        }
    }
}

/// The first `k` unknown records stored one after another from `p`.
pub open spec fn spec_unknowns(s: Seq<u8>, p: int, k: int) -> Option<(Seq<UnknownView>, int)>
    decreases k,
{
    if k <= 0 {
        Some((Seq::empty(), p))
    } else {
        match spec_unknowns(s, p, k - 1) {
            None => None,
            Some((l, q)) => match spec_unknown(s, q) {
                None => None,
                Some((x, r)) => Some((l.push(x), r)),
            },
        }
    }
}

proof fn lemma_unknowns_none(s: Seq<u8>, p: int, k: int, n: int)
    requires
        0 <= k <= n,
        spec_unknowns(s, p, k) is None,
    ensures
        spec_unknowns(s, p, n) is None,
    decreases n - k,
{
    if k < n {
        lemma_unknowns_none(s, p, k, n - 1);
    }
}

/// A count and that many unknown records at `p`.
pub open spec fn spec_unknowns_counted(s: Seq<u8>, p: int) -> Option<(Seq<UnknownView>, int)> {
    if p + 4 > s.len() {
        None
    } else {
        spec_unknowns(s, p + 4, spec_u32(s, p, Endian::Little) as int)
    }
}

fn read_unknowns_counted(s: &[u8], p: usize) -> (r: Option<(Vec<SUnknown>, usize)>)
    requires
        p <= s@.len(),
    ensures
        match r {
            Some((v, q)) => spec_unknowns_counted(s@, p as int) == Some(
                (v@.map_values(|u: SUnknown| unknown_view(u)), q as int),
            ) && q <= s@.len(),
            None => spec_unknowns_counted(s@, p as int) is None,
        },
{
    if s.len() - p < 4 {
        return None;
    }
    let n = read_u32(s, p, Endian::Little).unwrap() as usize;
    let mut v: Vec<SUnknown> = Vec::new();
    let mut q = p + 4;
    let mut k: usize = 0;
    while k < n
        invariant
            q <= s@.len(),
            p + 4 <= s@.len(),
            n == spec_u32(s@, p as int, Endian::Little),
            k <= n,
            spec_unknowns(s@, p + 4, k as int) == Some((v@.map_values(|u: SUnknown| unknown_view(u)), q as int)),
        decreases n - k,
    {
        if s.len() - q < 8 {
            proof {
                lemma_unknowns_none(s@, p + 4, k + 1, n as int);
            }
            return None;
        }
        match read_counted_at::<u32>(s, q + 8) {
            Some((ints, r)) => {
                let u = SUnknown {
                    f0: read_u32(s, q, Endian::Little).unwrap(),
                    f1: read_u32(s, q + 4, Endian::Little).unwrap(),
                    ints,
                };
                let ghost before = v@;
                let ghost uv = unknown_view(u);
                v.push(u);
                assert(v@.map_values(|u: SUnknown| unknown_view(u)) =~= before.map_values(|u: SUnknown| unknown_view(u)).push(uv));
                q = r;
            },
            None => {
                proof {
                    lemma_unknowns_none(s@, p + 4, k + 1, n as int);
                }
                return None;
            },
        }
        k = k + 1;
    }
    Some((v, q))
}

/// The visual data of a model container.
#[derive(Clone, Debug)]
pub struct SModConVisualData {
    pub models: Vec<CObjectId>,
    pub ids_2: Vec<CObjectId>,
    pub colors: Vec<CColor4f>,
    pub transforms: Vec<CTransform4f>,
    pub object_transforms: Vec<ObjectTransform>,
    pub unknowns: Vec<SUnknown>,
    pub bytes_2: Vec<u8>,
    pub bytes_3: Vec<u8>,
    pub bytes_4: Vec<u8>,
    pub bytes_5: Vec<u8>,
    pub bytes_6: Vec<u8>,
    pub shorts_1: Vec<u16>,
    pub shorts_2: Vec<u16>,
    pub bytes_7: Vec<u8>,
    pub bytes_8: Vec<u8>,
}

/// The value of visual data.
pub struct VisualDataView {
    pub models: Seq<CObjectId>,
    pub ids_2: Seq<CObjectId>,
    pub colors: Seq<CColor4f>,
    pub transforms: Seq<CTransform4f>,
    pub object_transforms: Seq<ObjectTransform>,
    pub unknowns: Seq<UnknownView>,
    pub bytes_2: Seq<u8>,
    pub bytes_3: Seq<u8>,
    pub bytes_4: Seq<u8>,
    pub bytes_5: Seq<u8>,
    pub bytes_6: Seq<u8>,
    pub shorts_1: Seq<u16>,
    pub shorts_2: Seq<u16>,
    pub bytes_7: Seq<u8>,
    pub bytes_8: Seq<u8>,
}

pub open spec fn visual_view(v: SModConVisualData) -> VisualDataView {
    VisualDataView {
        models: v.models@,
        ids_2: v.ids_2@,
        colors: v.colors@,
        transforms: v.transforms@,
        object_transforms: v.object_transforms@,
        unknowns: v.unknowns@.map_values(|u: SUnknown| unknown_view(u)),
        bytes_2: v.bytes_2@,
        bytes_3: v.bytes_3@,
        bytes_4: v.bytes_4@,
        bytes_5: v.bytes_5@,
        bytes_6: v.bytes_6@,
        shorts_1: v.shorts_1@,
        shorts_2: v.shorts_2@,
        bytes_7: v.bytes_7@,
        bytes_8: v.bytes_8@,
    }
}

/// The little-endian visual data at the start of `s`: one after another, each a
/// count and that many: model IDs, more IDs, colours, transforms, object transforms,
/// unknown records, five byte lists, two lists of 16-bit numbers, two byte lists.
pub open spec fn spec_visual(s: Seq<u8>) -> Option<VisualDataView> {
match spec_counted_at::<CObjectId>(s, 0) {
 None => None,
 Some((v0, p0)) => match spec_counted_at::<CObjectId>(s, p0) {
 None => None,
 Some((v1, p1)) => match spec_counted_at::<CColor4f>(s, p1) {
 None => None,
 Some((v2, p2)) => match spec_counted_at::<CTransform4f>(s, p2) {
 None => None,
 Some((v3, p3)) => match spec_counted_at::<ObjectTransform>(s, p3) {
 None => None,
 Some((v4, p4)) => match spec_unknowns_counted(s, p4) {
 None => None,
 Some((v5, p5)) => match spec_counted_at::<u8>(s, p5) {
 None => None,
 Some((v6, p6)) => match spec_counted_at::<u8>(s, p6) {
 None => None,
 Some((v7, p7)) => match spec_counted_at::<u8>(s, p7) {
 None => None,
 Some((v8, p8)) => match spec_counted_at::<u8>(s, p8) {
 None => None,
 Some((v9, p9)) => match spec_counted_at::<u8>(s, p9) {
 None => None,
 Some((v10, p10)) => match spec_counted_at::<u16>(s, p10) {
 None => None,
 Some((v11, p11)) => match spec_counted_at::<u16>(s, p11) {
 None => None,
 Some((v12, p12)) => match spec_counted_at::<u8>(s, p12) {
 None => None,
 Some((v13, p13)) => match spec_counted_at::<u8>(s, p13) {
 None => None,
 Some((v14, p14)) => Some(VisualDataView { models: v0, ids_2: v1, colors: v2, transforms: v3, object_transforms: v4, unknowns: v5, bytes_2: v6, bytes_3: v7, bytes_4: v8, bytes_5: v9, bytes_6: v10, shorts_1: v11, shorts_2: v12, bytes_7: v13, bytes_8: v14 }),
 },
 },
 },
 },
 },
 },
 },
 },
 },
 },
 },
 },
 },
 },
 }
}

/// Reads the visual data at the start of `s` (see `spec_visual`).
#[verifier::rlimit(40)]
pub fn read_visual(s: &[u8]) -> (r: Option<SModConVisualData>)
    ensures
        match r {
            Some(v) => spec_visual(s@) == Some(visual_view(v)),
            None => spec_visual(s@) is None,
        },
{
    let (v0, p0) = read_counted_at::<CObjectId>(s, 0usize)?;
    let (v1, p1) = read_counted_at::<CObjectId>(s, p0)?;
    let (v2, p2) = read_counted_at::<CColor4f>(s, p1)?;
    let (v3, p3) = read_counted_at::<CTransform4f>(s, p2)?;
    let (v4, p4) = read_counted_at::<ObjectTransform>(s, p3)?;
    let (v5, p5) = read_unknowns_counted(s, p4)?;
    let (v6, p6) = read_counted_at::<u8>(s, p5)?;
    let (v7, p7) = read_counted_at::<u8>(s, p6)?;
    let (v8, p8) = read_counted_at::<u8>(s, p7)?;
    let (v9, p9) = read_counted_at::<u8>(s, p8)?;
    let (v10, p10) = read_counted_at::<u8>(s, p9)?;
    let (v11, p11) = read_counted_at::<u16>(s, p10)?;
    let (v12, p12) = read_counted_at::<u16>(s, p11)?;
    let (v13, p13) = read_counted_at::<u8>(s, p12)?;
    let (v14, p14) = read_counted_at::<u8>(s, p13)?;
    Some(SModConVisualData { models: v0, ids_2: v1, colors: v2, transforms: v3, object_transforms: v4, unknowns: v5, bytes_2: v6, bytes_3: v7, bytes_4: v8, bytes_5: v9, bytes_6: v10, shorts_1: v11, shorts_2: v12, bytes_7: v13, bytes_8: v14 })
}

pub open spec fn opt_visual_view(v: Option<SModConVisualData>) -> Option<VisualDataView> {
    match v {
        Some(x) => Some(visual_view(x)),
        None => None,
    }
}

/// Reads the chunks `s` of a model container from the visual data `vd`: the
/// chunks end at the end of `s` or at the code PEEK; an MCVD chunk gives the visual
/// data (little-endian), MCHD and MCCD chunks are passed over, and any other chunk is
/// refused.
#[verifier::opaque]
pub open spec fn mcon_walk(s: Seq<u8>, e: Endian, vd: Option<VisualDataView>) -> Result<Option<VisualDataView>, FormatError>
    decreases s.len(),
{
    if s.len() == 0 {
        Ok(vd)
    } else if s.len() >= 4 && four_cc_value(spec_four_cc_at(s, 0).0) == K_PEEK {
        Ok(vd)
    } else {
        match spec_chunk_slice(s, e) {
            Err(x) => Err(x),
            Ok((h, b, r)) => if r.len() >= s.len() {
                Err(FormatError::InvalidChunkHeader)
            } else {
                let id = four_cc_value(h.id.0);
                if id == K_CHUNK_MCVD {
                    match spec_visual(b) {
                        Some(v) => mcon_walk(r, e, Some(v)),
                        None => Err(FormatError::InvalidData),
                    }
                } else if id == K_CHUNK_MCHD || id == K_CHUNK_MCCD {
                    mcon_walk(r, e, vd)
                } else {
                    Err(FormatError::UnexpectedChunk(id as u32))
                }
            },
        }
    }
}

/// Every chunk that reading the chunks `s` of a model container reaches lies inside
/// them, and where more bytes remain there are at least four to compare with PEEK.
#[verifier::opaque]
pub open spec fn mcon_fits(s: Seq<u8>, e: Endian) -> bool
    decreases s.len(),
{
    s.len() > 0 ==> {
        &&& s.len() >= 4
        &&& four_cc_value(spec_four_cc_at(s, 0).0) != K_PEEK ==> {
            &&& chunk_fits(s, e)
            &&& (spec_chunk_slice(s, e) matches Ok((h, b, r)) ==> (r.len() < s.len() ==> ({
                let id = four_cc_value(h.id.0);
                (id == K_CHUNK_MCVD && spec_visual(b) is Some) || id == K_CHUNK_MCHD || id == K_CHUNK_MCCD
            } ==> mcon_fits(r, e))))
        }
    }
}

/// The model container `data`: its form (MCON, versions 72 and 72) and its chunks
/// (see `mcon_walk`).
pub open spec fn spec_mcon(data: Seq<u8>, e: Endian) -> Result<Option<VisualDataView>, FormatError> {
    match spec_form_slice(data, e) {
        Err(x) => Err(x),
        Ok((h, body, _)) => if four_cc_value(h.id.0) != K_FORM_MCON || h.reader_version != 72 || h.writer_version != 72 {
            Err(FormatError::UnexpectedForm)
        } else {
            mcon_walk(body, e, None)
        },
    }
}

/// Every form and chunk that reading the model container `data` reaches lies inside
/// it.
pub open spec fn mcon_data_fits(data: Seq<u8>, e: Endian) -> bool {
    &&& form_fits(data, e)
    &&& (spec_form_slice(data, e) matches Ok((h, body, _)) ==> (four_cc_value(h.id.0) == K_FORM_MCON
        && h.reader_version == 72 && h.writer_version == 72 ==> mcon_fits(body, e)))
}

/// Whether the chunks `s` of a model container stop here at the code PEEK.
fn at_peek(s: &[u8]) -> (r: bool)
    ensures
        r == (s@.len() >= 4 && four_cc_value(spec_four_cc_at(s@, 0).0) == K_PEEK),
{
    s.len() >= 4 && peek_four_cc(s).as_u32() == K_PEEK
}

/// Reads one chunk of a model container from the visual data `vd` and gives the
/// chunks after it with the visual data that follows it.
fn read_mcon_chunk<'a>(s: &'a [u8], e: Endian, vd: Option<SModConVisualData>) -> (r: Result<(&'a [u8], Option<SModConVisualData>), FormatError>)
    requires
        s@.len() > 0,
        !(s@.len() >= 4 && four_cc_value(spec_four_cc_at(s@, 0).0) == K_PEEK),
        mcon_fits(s@, e),
    ensures
        match r {
            Ok((rest, vd2)) => {
                &&& rest@.len() < s@.len()
                &&& mcon_fits(rest@, e)
                &&& mcon_walk(s@, e, opt_visual_view(vd)) == mcon_walk(rest@, e, opt_visual_view(vd2))
            },
            Err(x) => mcon_walk(s@, e, opt_visual_view(vd)) == Err::<Option<VisualDataView>, _>(x),
        },
{
    proof {
        reveal_with_fuel(mcon_walk, 1);
        reveal_with_fuel(mcon_fits, 1);
    }
    let (ch, b, rest) = ChunkDescriptor::slice(s, e)?;
    if rest.len() >= s.len() {
        return Err(FormatError::InvalidChunkHeader);
    }
    let id = ch.id.as_u32();
    if id == K_CHUNK_MCVD {
        match read_visual(b) {
            Some(v) => Ok((rest, Some(v))),
            None => Err(FormatError::InvalidData),
        }
    } else if id == K_CHUNK_MCHD || id == K_CHUNK_MCCD {
        Ok((rest, vd))
    } else {
        Err(FormatError::UnexpectedChunk(id))
    }
}

/// A model container: its visual data, where it has some.
#[derive(Clone, Debug)]
pub struct ModConData {
    pub visual_data: Option<SModConVisualData>,
}

impl ModConData {
    /// Reads the model container `data` (see `spec_mcon`).
    pub fn slice(data: &[u8], e: Endian) -> (r: Result<ModConData, FormatError>)
        requires
            mcon_data_fits(data@, e),
        ensures
            match r {
                Ok(m) => spec_mcon(data@, e) == Ok::<_, FormatError>(opt_visual_view(m.visual_data)),
                Err(x) => spec_mcon(data@, e) == Err::<Option<VisualDataView>, _>(x),
            },
    {
        let (h, body, _) = FormDescriptor::slice(data, e)?;
        if h.id.as_u32() != K_FORM_MCON || h.reader_version != 72 || h.writer_version != 72 {
            return Err(FormatError::UnexpectedForm);
        }
        let mut vd: Option<SModConVisualData> = None;
        let mut s = body;
        while s.len() > 0 && !at_peek(s)
            invariant
                mcon_fits(s@, e),
                spec_mcon(data@, e) == mcon_walk(s@, e, opt_visual_view(vd)),
            decreases s@.len(),
        {
            let (rest, vd2) = read_mcon_chunk(s, e, vd)?;
            s = rest;
            vd = vd2;
        }
        proof {
            reveal_with_fuel(mcon_walk, 1);
        }
        Ok(ModConData { visual_data: vd })
    }
}

} // verus!

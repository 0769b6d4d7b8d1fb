//! Reading a model resource: its header, materials, meshes, buffer layouts and the
//! GPU buffers its metadata describes. Floats are held as their bits.
use vstd::prelude::*;
use crate::format::chunk::ChunkDescriptor;
use crate::format::cmdl::{
    CRenderMesh, EBufferType, EMaterialDataId, EMaterialDataType, K_CHUNK_GPU, K_CHUNK_HEAD,
    K_CHUNK_IBUF, K_CHUNK_MESH, K_CHUNK_MTRL, K_CHUNK_SKHD, K_CHUNK_VBUF, K_CHUNK_WDHD, K_FORM_CMDL,
    K_FORM_SMDL, K_FORM_WMDL, SIndexBufferInfoSection, SMaterialRenderTypes, SMaterialType,
    SMeshLoadInformation, SModelBufferInfo, SModelMetaData, SModelReadBufferInfo, STextureUsageInfo,
    SVertexBufferInfo, SVertexBufferInfoSection, SVertexDataComponent, buffers_view,
    decompress_gpu_buffers, gpu_fits_check, spec_gpu_buffers, spec_gpu_source_ok, spec_model_meta_idx_pos,
    spec_model_meta_ok, spec_model_meta_vtx_pos,
};
use crate::format::rfrm::{FormDescriptor, form_fits, form_fits_check, spec_form_slice};
use crate::format::walk::{chunk_seq_fits, chunk_seq_fits_check, lemma_walk_chunk_seq, walk_chunk_seq};
use crate::format::FormatError;
use crate::format::pack::{read_uuid, spec_uuid_at};
use crate::format::{CVector4i, FourCC, four_cc_at, four_cc_value, spec_four_cc_at, spec_utf8, string_from_utf8};
use crate::util::read::{
    Endian, FixedRecord, lemma_records_none_means_short, lemma_records_some_fit, read_records,
    read_u32, read_u8, spec_parse_records, spec_u32,
};

verus! {

/// Three floats, held as their bits.
#[derive(Copy, Clone, Debug, PartialEq, Eq, Structural)]
pub struct CVector3f {
    pub x: u32,
    pub y: u32,
    pub z: u32,
}

/// An axis-aligned box: its least and its greatest corner.
#[derive(Copy, Clone, Debug, PartialEq, Eq, Structural)]
pub struct CAABox {
    pub min: CVector3f,
    pub max: CVector3f,
}

/// The header of a model: an unknown word and the bounding box.
#[derive(Copy, Clone, Debug, PartialEq, Eq, Structural)]
pub struct SModelHeader {
    pub unk: u32,
    pub bounds: CAABox,
}

pub open spec fn vec3_at(s: Seq<u8>, pos: int, e: Endian) -> CVector3f {
    CVector3f {
        x: spec_u32(s, pos, e) as u32,
        y: spec_u32(s, pos + 4, e) as u32,
        z: spec_u32(s, pos + 8, e) as u32,
    }
}

fn read_vec3(data: &[u8], pos: usize, e: Endian) -> (r: CVector3f)
    requires
        pos + 12 <= data@.len(),
    ensures
        r == vec3_at(data@, pos as int, e),
{
    let _len = data.len();
    CVector3f {
        x: read_u32(data, pos, e).unwrap(),
        y: read_u32(data, pos + 4, e).unwrap(),
        z: read_u32(data, pos + 8, e).unwrap(),
    }
}

impl FixedRecord for SModelHeader {
    open spec fn spec_size() -> int {
        28
    }

    open spec fn spec_parse(s: Seq<u8>, pos: int, e: Endian) -> Option<SModelHeader> {
        Some(
            SModelHeader {
                unk: spec_u32(s, pos, e) as u32,
                bounds: CAABox { min: vec3_at(s, pos + 4, e), max: vec3_at(s, pos + 16, e) },
            },
        )
    }

    fn size() -> (r: usize) {
        28
    }

    fn parse(data: &[u8], pos: usize, e: Endian) -> (r: Option<SModelHeader>) {
        let _len = data.len();
        Some(
            SModelHeader {
                unk: read_u32(data, pos, e).unwrap(),
                bounds: CAABox { min: read_vec3(data, pos + 4, e), max: read_vec3(data, pos + 16, e) },
            },
        )
    }
}

/// A colour of four floats (red, green, blue, alpha), held as their bits.
#[derive(Copy, Clone, Debug, PartialEq, Eq, Structural)]
pub struct CColor4f {
    pub r: u32,
    pub g: u32,
    pub b: u32,
    pub a: u32,
}

impl FixedRecord for CColor4f {
    open spec fn spec_size() -> int {
        16
    }

    open spec fn spec_parse(s: Seq<u8>, pos: int, e: Endian) -> Option<CColor4f> {
        Some(
            CColor4f {
                r: spec_u32(s, pos, e) as u32,
                g: spec_u32(s, pos + 4, e) as u32,
                b: spec_u32(s, pos + 8, e) as u32,
                a: spec_u32(s, pos + 12, e) as u32,
            },
        )
    }

    fn size() -> (r: usize) {
        16
    }

    fn parse(data: &[u8], pos: usize, e: Endian) -> (r: Option<CColor4f>) {
        let _len = data.len();
        Some(
            CColor4f {
                r: read_u32(data, pos, e).unwrap(),
                g: read_u32(data, pos + 4, e).unwrap(),
                b: read_u32(data, pos + 8, e).unwrap(),
                a: read_u32(data, pos + 12, e).unwrap(),
            },
        )
    }
}

impl FixedRecord for FourCC {
    open spec fn spec_size() -> int {
        4
    }

    open spec fn spec_parse(s: Seq<u8>, pos: int, e: Endian) -> Option<FourCC> {
        Some(spec_four_cc_at(s, pos))
    }

    fn size() -> (r: usize) {
        4
    }

    fn parse(data: &[u8], pos: usize, e: Endian) -> (r: Option<FourCC>) {
        Some(four_cc_at(data, pos))
    }
}

/// A texture that a material refers to: its ID and, unless the ID is nil, how it is
/// sampled.
#[derive(Copy, Clone, Debug, PartialEq, Eq, Structural)]
pub struct CMaterialTextureTokenData {
    pub id: u128,
    pub usage: Option<STextureUsageInfo>,
}

/// The texture token at `pos`, with the position after it: a little-endian UUID,
/// then, unless it is nil, the usage.
pub open spec fn spec_token(s: Seq<u8>, pos: int, e: Endian) -> Option<(CMaterialTextureTokenData, int)> {
    if pos + 16 > s.len() {
        None
    } else {
        let id = spec_uuid_at(s, pos, Endian::Little);
        if id == 0 {
            Some((CMaterialTextureTokenData { id, usage: None }, pos + 16))
        } else if pos + 36 > s.len() {
            None
        } else {
            Some((CMaterialTextureTokenData { id, usage: STextureUsageInfo::spec_parse(s, pos + 16, e) }, pos + 36))
        }
    }
}

fn read_token(s: &[u8], pos: usize, e: Endian) -> (r: Option<(CMaterialTextureTokenData, usize)>)
    requires
        pos <= s@.len(),
    ensures
        match r {
            Some((t, q)) => spec_token(s@, pos as int, e) == Some((t, q as int)) && q <= s@.len(),
            None => spec_token(s@, pos as int, e) is None,
        },
{
    let len = s.len();
    if len - pos < 16 {
        return None;
    }
    let id = read_uuid(s, pos, Endian::Little);
    if id == 0 {
        Some((CMaterialTextureTokenData { id, usage: None }, pos + 16))
    } else if len - pos < 36 {
        None
    } else {
        Some((CMaterialTextureTokenData { id, usage: STextureUsageInfo::parse(s, pos + 16, e) }, pos + 36))
    }
}

/// Sixteen floats, held as their bits.
#[derive(Copy, Clone, Debug)]
pub struct CMatrix4f {
    pub m: [u32; 16],
}

/// The base of a layered texture: a word, three colours and flags.
#[derive(Copy, Clone, Debug)]
pub struct CLayeredTextureBaseData {
    pub unk: u32,
    pub colors: [CColor4f; 3],
    pub flags: u8,
}

/// A layered texture: its base and three textures.
#[derive(Copy, Clone, Debug)]
pub struct CLayeredTextureData {
    pub base: CLayeredTextureBaseData,
    pub textures: [CMaterialTextureTokenData; 3],
}

/// The value of one material parameter.
#[derive(Copy, Clone, Debug)]
pub enum CMaterialDataInner {
    Texture(CMaterialTextureTokenData),
    Color(CColor4f),
    Scalar(u32),
    Int1(i32),
    Int4(CVector4i),
    Mat4(CMatrix4f),
    LayeredTexture(CLayeredTextureData),
}

/// The value of a material parameter's value.
pub enum MaterialValueView {
    Texture(CMaterialTextureTokenData),
    Color(CColor4f),
    Scalar(u32),
    Int1(i32),
    Int4(CVector4i),
    Mat4(Seq<u32>),
    LayeredTexture(u32, Seq<CColor4f>, u8, Seq<CMaterialTextureTokenData>),
}

pub open spec fn inner_view(x: CMaterialDataInner) -> MaterialValueView {
    match x {
        CMaterialDataInner::Texture(t) => MaterialValueView::Texture(t),
        CMaterialDataInner::Color(c) => MaterialValueView::Color(c),
        CMaterialDataInner::Scalar(v) => MaterialValueView::Scalar(v),
        CMaterialDataInner::Int1(v) => MaterialValueView::Int1(v),
        CMaterialDataInner::Int4(v) => MaterialValueView::Int4(v),
        CMaterialDataInner::Mat4(m) => MaterialValueView::Mat4(m.m@),
        CMaterialDataInner::LayeredTexture(l) => MaterialValueView::LayeredTexture(
            l.base.unk,
            l.base.colors@,
            l.base.flags,
            l.textures@,
        ),
    }
}

pub open spec fn color_at(s: Seq<u8>, pos: int, e: Endian) -> CColor4f {
    CColor4f::spec_parse(s, pos, e).unwrap()
}

/// The layered texture at `pos`, with the position after it: a word, three
/// colours, a flags byte and three texture tokens.
pub open spec fn spec_layered(s: Seq<u8>, pos: int, e: Endian) -> Option<(MaterialValueView, int)> {
    if pos + 53 > s.len() {
        None
    } else {
        match spec_token(s, pos + 53, e) {
            None => None,
            Some((t0, p1)) => match spec_token(s, p1, e) {
                None => None,
                Some((t1, p2)) => match spec_token(s, p2, e) {
                    None => None,
                    Some((t2, p3)) => Some(
                        (
                            MaterialValueView::LayeredTexture(
                                spec_u32(s, pos, e) as u32,
                                seq![color_at(s, pos + 4, e), color_at(s, pos + 20, e), color_at(s, pos + 36, e)],
                                s[pos + 52],
                                seq![t0, t1, t2],
                            ),
                            p3,
                        ),
                    ),
                },
            },
        }
    }
}

/// Whether the parameter `id` holds a layered texture.
pub open spec fn layered_id(id: EMaterialDataId) -> bool {
    id == EMaterialDataId::BCRL || id == EMaterialDataId::MTLL || id == EMaterialDataId::NRML
}

/// The value of kind `ty` (parameter `id`) at `pos`, with the position after it: a
/// texture token, a colour, a float, an integer, four integers, sixteen floats, or
/// for a complex value of a layered parameter a layered texture; a complex value of
/// another parameter is refused.
pub open spec fn spec_material_value(
    s: Seq<u8>,
    pos: int,
    e: Endian,
    id: EMaterialDataId,
    ty: EMaterialDataType,
) -> Option<(MaterialValueView, int)> {
    match ty {
        EMaterialDataType::Texture => match spec_token(s, pos, e) {
            Some((t, q)) => Some((MaterialValueView::Texture(t), q)),
            None => None,
        },
        EMaterialDataType::Color => if pos + 16 > s.len() {
            None
        } else {
            Some((MaterialValueView::Color(color_at(s, pos, e)), pos + 16))
        },
        EMaterialDataType::Scalar => if pos + 4 > s.len() {
            None
        } else {
            Some((MaterialValueView::Scalar(spec_u32(s, pos, e) as u32), pos + 4))
        },
        EMaterialDataType::Int1 => if pos + 4 > s.len() {
            None
        } else {
            Some((MaterialValueView::Int1(spec_u32(s, pos, e) as i32), pos + 4))
        },
        EMaterialDataType::Int4 => if pos + 16 > s.len() {
            None
        } else {
            Some(
                (
                    MaterialValueView::Int4(
                        CVector4i {
                            x: spec_u32(s, pos, e) as i32,
                            y: spec_u32(s, pos + 4, e) as i32,
                            z: spec_u32(s, pos + 8, e) as i32,
                            w: spec_u32(s, pos + 12, e) as i32,
                        },
                    ),
                    pos + 16,
                ),
            )
        },
        EMaterialDataType::Mat4 => if pos + 64 > s.len() {
            None
        } else {
            Some((MaterialValueView::Mat4(Seq::new(16, |i: int| spec_u32(s, pos + 4 * i, e) as u32)), pos + 64))
        },
        EMaterialDataType::Complex => if layered_id(id) {
            spec_layered(s, pos, e)
        } else {
            None
        },
    }
}

fn read_matrix(s: &[u8], pos: usize, e: Endian) -> (r: CMatrix4f)
    requires
        pos + 64 <= s@.len(),
    ensures
        r.m@ == Seq::new(16, |i: int| spec_u32(s@, pos + 4 * i, e) as u32),
{
    let _len = s.len();
    let m: [u32; 16] = [
        read_u32(s, pos, e).unwrap(),
        read_u32(s, pos + 4, e).unwrap(),
        read_u32(s, pos + 8, e).unwrap(),
        read_u32(s, pos + 12, e).unwrap(),
        read_u32(s, pos + 16, e).unwrap(),
        read_u32(s, pos + 20, e).unwrap(),
        read_u32(s, pos + 24, e).unwrap(),
        read_u32(s, pos + 28, e).unwrap(),
        read_u32(s, pos + 32, e).unwrap(),
        read_u32(s, pos + 36, e).unwrap(),
        read_u32(s, pos + 40, e).unwrap(),
        read_u32(s, pos + 44, e).unwrap(),
        read_u32(s, pos + 48, e).unwrap(),
        read_u32(s, pos + 52, e).unwrap(),
        read_u32(s, pos + 56, e).unwrap(),
        read_u32(s, pos + 60, e).unwrap(),
    ];
    assert(m@ =~= Seq::new(16, |i: int| spec_u32(s@, pos + 4 * i, e) as u32));
    CMatrix4f { m }
}

fn read_layered(s: &[u8], pos: usize, e: Endian) -> (r: Option<(CLayeredTextureData, usize)>)
    requires
        pos <= s@.len(),
    ensures
        match r {
            Some((l, q)) => spec_layered(s@, pos as int, e) == Some(
                (inner_view(CMaterialDataInner::LayeredTexture(l)), q as int),
            ) && q <= s@.len(),
            None => spec_layered(s@, pos as int, e) is None,
        },
{
    if s.len() - pos < 53 {
        return None;
    }
    let (t0, p1) = read_token(s, pos + 53, e)?;
    let (t1, p2) = read_token(s, p1, e)?;
    let (t2, p3) = read_token(s, p2, e)?;
    let colors: [CColor4f; 3] = [
        CColor4f::parse(s, pos + 4, e).unwrap(),
        CColor4f::parse(s, pos + 20, e).unwrap(),
        CColor4f::parse(s, pos + 36, e).unwrap(),
    ];
    let textures: [CMaterialTextureTokenData; 3] = [t0, t1, t2];
    let l = CLayeredTextureData {
        base: CLayeredTextureBaseData { unk: read_u32(s, pos, e).unwrap(), colors, flags: read_u8(s, pos + 52).unwrap() },
        textures,
    };
    assert(colors@ =~= seq![color_at(s@, pos + 4, e), color_at(s@, pos + 20, e), color_at(s@, pos + 36, e)]);
    assert(textures@ =~= seq![t0, t1, t2]);
    Some((l, p3))
}

/// Reads the value of kind `ty` (parameter `id`) at `pos` (see `spec_material_value`).
fn read_material_value(s: &[u8], pos: usize, e: Endian, id: EMaterialDataId, ty: EMaterialDataType) -> (r: Option<(CMaterialDataInner, usize)>)
    requires
        pos <= s@.len(),
    ensures
        match r {
            Some((x, q)) => spec_material_value(s@, pos as int, e, id, ty) == Some((inner_view(x), q as int)) && q <= s@.len(),
            None => spec_material_value(s@, pos as int, e, id, ty) is None,
        },
{
    let len = s.len();
    match ty {
        EMaterialDataType::Texture => {
            let (t, q) = read_token(s, pos, e)?;
            Some((CMaterialDataInner::Texture(t), q))
        },
        EMaterialDataType::Color => {
            if len - pos < 16 {
                return None;
            }
            Some((CMaterialDataInner::Color(CColor4f::parse(s, pos, e).unwrap()), pos + 16))
        },
        EMaterialDataType::Scalar => {
            if len - pos < 4 {
                return None;
            }
            Some((CMaterialDataInner::Scalar(read_u32(s, pos, e).unwrap()), pos + 4))
        },
        EMaterialDataType::Int1 => {
            if len - pos < 4 {
                return None;
            }
            Some((CMaterialDataInner::Int1(read_u32(s, pos, e).unwrap() as i32), pos + 4))
        },
        EMaterialDataType::Int4 => {
            if len - pos < 16 {
                return None;
            }
            let v = CVector4i {
                x: read_u32(s, pos, e).unwrap() as i32,
                y: read_u32(s, pos + 4, e).unwrap() as i32,
                z: read_u32(s, pos + 8, e).unwrap() as i32,
                w: read_u32(s, pos + 12, e).unwrap() as i32,
            };
            Some((CMaterialDataInner::Int4(v), pos + 16))
        },
        EMaterialDataType::Mat4 => {
            if len - pos < 64 {
                return None;
            }
            Some((CMaterialDataInner::Mat4(read_matrix(s, pos, e)), pos + 64))
        },
        EMaterialDataType::Complex => {
            if id.is_texture_layered() {
                let (l, q) = read_layered(s, pos, e)?;
                Some((CMaterialDataInner::LayeredTexture(l), q))
            } else {
                None
            }
        },
    }
}

/// One material parameter: its identifier, its kind and its value.
#[derive(Copy, Clone, Debug)]
pub struct CMaterialData {
    pub data_id: EMaterialDataId,
    pub data_type: EMaterialDataType,
    pub data: CMaterialDataInner,
}

/// The value of a material parameter.
pub type MaterialDataView = (EMaterialDataId, EMaterialDataType, MaterialValueView);

pub open spec fn data_view(x: CMaterialData) -> MaterialDataView {
    (x.data_id, x.data_type, inner_view(x.data))
}

/// The material parameter at `pos`, with the position after it: the identifier's
/// and the kind's codes, then the value (see `spec_material_value`).
pub open spec fn spec_material_data(s: Seq<u8>, pos: int, e: Endian) -> Option<(MaterialDataView, int)> {
    if pos + 8 > s.len() {
        None
    } else {
        match (
            EMaterialDataId::spec_from_magic(four_cc_value(spec_four_cc_at(s, pos).0) as u32),
            EMaterialDataType::spec_from_magic(four_cc_value(spec_four_cc_at(s, pos + 4).0) as u32),
        ) {
            (Some(id), Some(ty)) => match spec_material_value(s, pos + 8, e, id, ty) {
                Some((v, q)) => Some(((id, ty, v), q)),
                None => None,
            },
            _ => None,
        }
    }
}

fn read_material_data(s: &[u8], pos: usize, e: Endian) -> (r: Option<(CMaterialData, usize)>)
    requires
        pos <= s@.len(),
    ensures
        match r {
            Some((x, q)) => spec_material_data(s@, pos as int, e) == Some((data_view(x), q as int)) && q <= s@.len(),
            None => spec_material_data(s@, pos as int, e) is None,
        },
{
    if s.len() - pos < 8 {
        return None;
    }
    let id = EMaterialDataId::from_magic(four_cc_at(s, pos).as_u32())?;
    let ty = EMaterialDataType::from_magic(four_cc_at(s, pos + 4).as_u32())?;
    let (v, q) = read_material_value(s, pos + 8, e, id, ty)?;
    Some((CMaterialData { data_id: id, data_type: ty, data: v }, q))
}

/// The first `k` of the material parameters stored one after another from `pos`,
/// with the position after them.
pub open spec fn spec_material_datas(s: Seq<u8>, pos: int, k: int, e: Endian) -> Option<(Seq<MaterialDataView>, int)>
    decreases k,
{
    if k <= 0 {
        Some((Seq::empty(), pos))
    } else {
        match spec_material_datas(s, pos, k - 1, e) {
            None => None,
            Some((l, p)) => match spec_material_data(s, p, e) {
                None => None,
                Some((x, q)) => Some((l.push(x), q)),
            },
        }
    }
}

proof fn lemma_material_datas_none(s: Seq<u8>, pos: int, k: int, n: int, e: Endian)
    requires
        0 <= k <= n,
        spec_material_datas(s, pos, k, e) is None,
    ensures
        spec_material_datas(s, pos, n, e) is None,
    decreases n - k,
{
    if k < n {
        lemma_material_datas_none(s, pos, k, n - 1, e);
    }
}

fn read_material_datas(s: &[u8], pos: usize, n: usize, e: Endian) -> (r: Option<(Vec<CMaterialData>, usize)>)
    requires
        pos <= s@.len(),
    ensures
        match r {
            Some((v, p)) => spec_material_datas(s@, pos as int, n as int, e) == Some(
                (v@.map_values(|x: CMaterialData| data_view(x)), p as int),
            ) && p <= s@.len(),
            None => spec_material_datas(s@, pos as int, n as int, e) is None,
        },
{
    let mut v: Vec<CMaterialData> = Vec::new();
    let mut p = pos;
    let mut k: usize = 0;
    while k < n
        invariant
            pos <= p <= s@.len(),
            k <= n,
            spec_material_datas(s@, pos as int, k as int, e) == Some(
                (v@.map_values(|x: CMaterialData| data_view(x)), p as int),
            ),
        decreases n - k,
    {
        match read_material_data(s, p, e) {
            Some((x, q)) => {
                let ghost before = v@;
                v.push(x);
                assert(v@.map_values(|x: CMaterialData| data_view(x)) =~= before.map_values(
                    |x: CMaterialData| data_view(x),
                ).push(data_view(x)));
                p = q;
            },
            None => {
                proof {
                    lemma_material_datas_none(s@, pos as int, k + 1, n as int, e);
                }
                return None;
            },
        }
        k = k + 1;
    }
    Some((v, p))
}

/// A material: its name, shader, an ID and two words, the codes of its types, its
/// render types, and its parameters' kinds and values.
#[derive(Clone, Debug)]
pub struct CMaterialCache {
    pub name: String,
    pub shader_id: u128,
    pub unk_guid: u128,
    pub unk1: u32,
    pub unk2: u32,
    pub types: Vec<FourCC>,
    pub render_types: Vec<SMaterialRenderTypes>,
    pub data_types: Vec<SMaterialType>,
    pub data: Vec<CMaterialData>,
}

/// The value of a material.
pub type MaterialView = (
    Seq<char>,
    u128,
    u128,
    u32,
    u32,
    Seq<FourCC>,
    Seq<SMaterialRenderTypes>,
    Seq<SMaterialType>,
    Seq<MaterialDataView>,
);

pub open spec fn material_view(m: CMaterialCache) -> MaterialView {
    (
        m.name@,
        m.shader_id,
        m.unk_guid,
        m.unk1,
        m.unk2,
        m.types@,
        m.render_types@,
        m.data_types@,
        m.data@.map_values(|x: CMaterialData| data_view(x)),
    )
}

/// Where the parts of the material at `pos` start, when they lie inside `s`: the
/// end of the name, the type codes' count, the render types' count and the first
/// parameter.
pub open spec fn spec_material_layout(s: Seq<u8>, pos: int, e: Endian) -> Option<(int, int, int, int)> {
    if pos + 4 > s.len() {
        None
    } else {
        let p1 = pos + 4 + spec_u32(s, pos, e);
        if p1 + 44 > s.len() {
            None
        } else {
            let p2 = p1 + 44 + 4 * spec_u32(s, p1 + 40, e);
            if p2 + 4 > s.len() {
                None
            } else {
                let p3 = p2 + 4 + 10 * spec_u32(s, p2, e);
                if p3 + 4 > s.len() {
                    None
                } else {
                    let p4 = p3 + 4 + 8 * spec_u32(s, p3, e);
                    if p4 > s.len() {
                        None
                    } else {
                        Some((p1, p2, p3, p4))
                    }
                }
            }
        }
    }
}

fn material_layout(s: &[u8], pos: usize, e: Endian) -> (r: Option<(usize, usize, usize, usize)>)
    requires
        pos <= s@.len(),
    ensures
        match r {
            Some((p1, p2, p3, p4)) => spec_material_layout(s@, pos as int, e) == Some(
                (p1 as int, p2 as int, p3 as int, p4 as int),
            ),
            None => spec_material_layout(s@, pos as int, e) is None,
        },
{
    let len = s.len();
    if len - pos < 4 {
        return None;
    }
    let n = read_u32(s, pos, e).unwrap() as usize;
    if len - pos - 4 < n {
        return None;
    }
    let p1 = pos + 4 + n;
    if len - p1 < 44 {
        return None;
    }
    let tc = read_u32(s, p1 + 40, e).unwrap() as usize;
    if (len - p1 - 44) / 4 < tc {
        return None;
    }
    let p2 = p1 + 44 + 4 * tc;
    if len - p2 < 4 {
        return None;
    }
    let rc = read_u32(s, p2, e).unwrap() as usize;
    if (len - p2 - 4) / 10 < rc {
        return None;
    }
    let p3 = p2 + 4 + 10 * rc;
    if len - p3 < 4 {
        return None;
    }
    let dc = read_u32(s, p3, e).unwrap() as usize;
    if (len - p3 - 4) / 8 < dc {
        return None;
    }
    Some((p1, p2, p3, p3 + 4 + 8 * dc))
}

/// The material at `pos`, with the position after it: the name (a 32-bit length and
/// UTF-8 bytes), the shader's and another little-endian UUID, two words, a count and
/// that many type codes, a count and that many render types, and a count followed by
/// that many parameter kinds and then that many parameters.
#[verifier::opaque]
pub open spec fn spec_material(s: Seq<u8>, pos: int, e: Endian) -> Option<(MaterialView, int)> {
    match spec_material_layout(s, pos, e) {
        None => None,
        Some((p1, p2, p3, p4)) => {
            let dc = spec_u32(s, p3, e);
            match (
                spec_utf8(s.subrange(pos + 4, p1)),
                spec_parse_records::<SMaterialType>(s, p3 + 4, dc, e),
                spec_material_datas(s, p4, dc, e),
            ) {
                (Some(name), Some(dt), Some((d, q))) => Some(
                    (
                        (
                            name,
                            spec_uuid_at(s, p1, Endian::Little),
                            spec_uuid_at(s, p1 + 16, Endian::Little),
                            spec_u32(s, p1 + 32, e) as u32,
                            spec_u32(s, p1 + 36, e) as u32,
                            spec_parse_records::<FourCC>(s, p1 + 44, spec_u32(s, p1 + 40, e), e).unwrap(),
                            spec_parse_records::<SMaterialRenderTypes>(s, p2 + 4, spec_u32(s, p2, e), e).unwrap(),
                            dt,
                            d,
                        ),
                        q,
                    ),
                ),
                _ => None,
            }
        },
    }
}

fn read_material(s: &[u8], pos: usize, e: Endian) -> (r: Option<(CMaterialCache, usize)>)
    requires
        pos <= s@.len(),
    ensures
        match r {
            Some((m, q)) => spec_material(s@, pos as int, e) == Some((material_view(m), q as int)) && q <= s@.len(),
            None => spec_material(s@, pos as int, e) is None,
        },
{
    proof {
        reveal(spec_material);
    }
    let (p1, p2, p3, p4) = material_layout(s, pos, e)?;
    let tc = read_u32(s, p1 + 40, e).unwrap() as usize;
    let rc = read_u32(s, p2, e).unwrap() as usize;
    let dc = read_u32(s, p3, e).unwrap() as usize;
    let name = string_from_utf8(vstd::slice::slice_to_vec(&s[pos + 4..p1]))?;
    let data_types = read_records::<SMaterialType>(s, p3 + 4, dc, e)?;
    let (data, q) = read_material_datas(s, p4, dc, e)?;
    let types = match read_records::<FourCC>(s, p1 + 44, tc, e) {
        Some(v) => v,
        None => {
            proof {
                lemma_records_none_means_short::<FourCC>(s@, p1 + 44, tc as int, e);
            }
            return None;
        },
    };
    let render_types = match read_records::<SMaterialRenderTypes>(s, p2 + 4, rc, e) {
        Some(v) => v,
        None => {
            proof {
                lemma_records_none_means_short::<SMaterialRenderTypes>(s@, p2 + 4, rc as int, e);
            }
            return None;
        },
    };
    let m = CMaterialCache {
        name,
        shader_id: read_uuid(s, p1, Endian::Little),
        unk_guid: read_uuid(s, p1 + 16, Endian::Little),
        unk1: read_u32(s, p1 + 32, e).unwrap(),
        unk2: read_u32(s, p1 + 36, e).unwrap(),
        types,
        render_types,
        data_types,
        data,
    };
    Some((m, q))
}

/// The first `k` of the materials stored one after another from `pos`, with the
/// position after them.
pub open spec fn spec_materials(s: Seq<u8>, pos: int, k: int, e: Endian) -> Option<(Seq<MaterialView>, int)>
    decreases k,
{
    if k <= 0 {
        Some((Seq::empty(), pos))
    } else {
        match spec_materials(s, pos, k - 1, e) {
            None => None,
            Some((l, p)) => match spec_material(s, p, e) {
                None => None,
                Some((x, q)) => Some((l.push(x), q)),
            },
        }
    }
}

proof fn lemma_materials_none(s: Seq<u8>, pos: int, k: int, n: int, e: Endian)
    requires
        0 <= k <= n,
        spec_materials(s, pos, k, e) is None,
    ensures
        spec_materials(s, pos, n, e) is None,
    decreases n - k,
{
    if k < n {
        lemma_materials_none(s, pos, k, n - 1, e);
    }
}

fn read_materials(s: &[u8], pos: usize, n: usize, e: Endian) -> (r: Option<Vec<CMaterialCache>>)
    requires
        pos <= s@.len(),
    ensures
        match r {
            Some(v) => spec_materials(s@, pos as int, n as int, e) matches Some((l, _)) && l == v@.map_values(
                |m: CMaterialCache| material_view(m),
            ),
            None => spec_materials(s@, pos as int, n as int, e) is None,
        },
{
    let mut v: Vec<CMaterialCache> = Vec::new();
    let mut p = pos;
    let mut k: usize = 0;
    while k < n
        invariant
            p <= s@.len(),
            k <= n,
            spec_materials(s@, pos as int, k as int, e) == Some(
                (v@.map_values(|m: CMaterialCache| material_view(m)), p as int),
            ),
        decreases n - k,
    {
        match read_material(s, p, e) {
            Some((m, q)) => {
                let ghost before = v@;
                let ghost mv = material_view(m);
                v.push(m);
                assert(v@.map_values(|m: CMaterialCache| material_view(m)) =~= before.map_values(
                    |m: CMaterialCache| material_view(m),
                ).push(mv));
                p = q;
            },
            None => {
                proof {
                    lemma_materials_none(s@, pos as int, k + 1, n as int, e);
                }
                return None;
            },
        }
        k = k + 1;
    }
    Some(v)
}

/// The material chunk: a word and the materials.
#[derive(Clone, Debug)]
pub struct SMaterialChunk {
    pub unk: u32,
    pub materials: Vec<CMaterialCache>,
}

/// The value of a material chunk.
pub type MaterialChunkView = (u32, Seq<MaterialView>);

pub open spec fn material_chunk_view(c: SMaterialChunk) -> MaterialChunkView {
    (c.unk, c.materials@.map_values(|m: CMaterialCache| material_view(m)))
}

/// The material chunk `s`: a word, a count and that many materials.
pub open spec fn spec_material_chunk(s: Seq<u8>, e: Endian) -> Option<MaterialChunkView> {
    if s.len() < 8 {
        None
    } else {
        match spec_materials(s, 8, spec_u32(s, 4, e), e) {
            Some((l, _)) => Some((spec_u32(s, 0, e) as u32, l)),
            None => None,
        }
    }
}

impl SMaterialChunk {
    /// Reads the material chunk `data` (see `spec_material_chunk`).
    pub fn read(data: &[u8], e: Endian) -> (r: Option<SMaterialChunk>)
        ensures
            match r {
                Some(c) => spec_material_chunk(data@, e) == Some(material_chunk_view(c)),
                None => spec_material_chunk(data@, e) is None,
            },
    {
        if data.len() < 8 {
            return None;
        }
        let n = read_u32(data, 4, e).unwrap();
        let materials = read_materials(data, 8, n as usize, e)?;
        Some(SMaterialChunk { unk: read_u32(data, 0, e).unwrap(), materials })
    }
}

/// The value of a vertex buffer's layout: its vertex count, its attributes and a byte.
pub type VertexBufferView = (u32, Seq<SVertexDataComponent>, u8);

pub open spec fn vbuf_view(b: SVertexBufferInfo) -> VertexBufferView {
    (b.vertex_count, b.components@, b.unk)
}

/// The vertex buffer layout at `pos`, with the position after it: the vertex count,
/// a count and that many attributes, and a byte.
pub open spec fn spec_vbuf_info(s: Seq<u8>, pos: int, e: Endian) -> Option<(VertexBufferView, int)> {
    if pos + 8 > s.len() {
        None
    } else {
        let n = spec_u32(s, pos + 4, e);
        let q = pos + 8 + 20 * n;
        match spec_parse_records::<SVertexDataComponent>(s, pos + 8, n, e) {
            None => None,
            Some(c) => if q + 1 > s.len() {
                None
            } else {
                Some(((spec_u32(s, pos, e) as u32, c, s[q]), q + 1))
            },
        }
    }
}

fn read_vbuf_info(s: &[u8], pos: usize, e: Endian) -> (r: Option<(SVertexBufferInfo, usize)>)
    requires
        pos <= s@.len(),
    ensures
        match r {
            Some((b, q)) => spec_vbuf_info(s@, pos as int, e) == Some((vbuf_view(b), q as int)) && q <= s@.len(),
            None => spec_vbuf_info(s@, pos as int, e) is None,
        },
{
    let len = s.len();
    if len - pos < 8 {
        return None;
    }
    let n = read_u32(s, pos + 4, e).unwrap() as usize;
    let components = read_records::<SVertexDataComponent>(s, pos + 8, n, e)?;
    proof {
        lemma_records_some_fit::<SVertexDataComponent>(s@, pos + 8, n as int, e);
    }
    let q = pos + 8 + 20 * n;
    if len - q < 1 {
        return None;
    }
    Some((SVertexBufferInfo { vertex_count: read_u32(s, pos, e).unwrap(), components, unk: s[q] }, q + 1))
}

/// The first `k` of the vertex buffer layouts stored one after another from `pos`,
/// with the position after them.
pub open spec fn spec_vbuf_infos(s: Seq<u8>, pos: int, k: int, e: Endian) -> Option<(Seq<VertexBufferView>, int)>
    decreases k,
{
    if k <= 0 {
        Some((Seq::empty(), pos))
    } else {
        match spec_vbuf_infos(s, pos, k - 1, e) {
            None => None,
            Some((l, p)) => match spec_vbuf_info(s, p, e) {
                None => None,
                Some((x, q)) => Some((l.push(x), q)),
            },
        }
    }
}

proof fn lemma_vbuf_infos_none(s: Seq<u8>, pos: int, k: int, n: int, e: Endian)
    requires
        0 <= k <= n,
        spec_vbuf_infos(s, pos, k, e) is None,
    ensures
        spec_vbuf_infos(s, pos, n, e) is None,
    decreases n - k,
{
    if k < n {
        lemma_vbuf_infos_none(s, pos, k, n - 1, e);
    }
}

/// The vertex buffer chunk `s`: a count and that many vertex buffer layouts.
pub open spec fn spec_vbuf_section(s: Seq<u8>, e: Endian) -> Option<Seq<VertexBufferView>> {
    if s.len() < 4 {
        None
    } else {
        match spec_vbuf_infos(s, 4, spec_u32(s, 0, e), e) {
            Some((l, _)) => Some(l),
            None => None,
        }
    }
}

pub open spec fn vbuf_section_view(v: SVertexBufferInfoSection) -> Seq<VertexBufferView> {
    v.info@.map_values(|b: SVertexBufferInfo| vbuf_view(b))
}

impl SVertexBufferInfoSection {
    /// Reads the vertex buffer chunk `data` (see `spec_vbuf_section`).
    pub fn read(data: &[u8], e: Endian) -> (r: Option<SVertexBufferInfoSection>)
        ensures
            match r {
                Some(v) => spec_vbuf_section(data@, e) == Some(vbuf_section_view(v)),
                None => spec_vbuf_section(data@, e) is None,
            },
    {
        if data.len() < 4 {
            return None;
        }
        let n = read_u32(data, 0, e).unwrap() as usize;
        let mut v: Vec<SVertexBufferInfo> = Vec::new();
        let mut p: usize = 4;
        let mut k: usize = 0;
        while k < n
            invariant
                p <= data@.len(),
                k <= n,
                n == spec_u32(data@, 0, e),
                spec_vbuf_infos(data@, 4, k as int, e) == Some(
                    (v@.map_values(|b: SVertexBufferInfo| vbuf_view(b)), p as int),
                ),
            decreases n - k,
        {
            match read_vbuf_info(data, p, e) {
                Some((b, q)) => {
                    let ghost before = v@;
                    let ghost bv = vbuf_view(b);
                    v.push(b);
                    assert(v@.map_values(|b: SVertexBufferInfo| vbuf_view(b)) =~= before.map_values(
                        |b: SVertexBufferInfo| vbuf_view(b),
                    ).push(bv));
                    p = q;
                },
                None => {
                    proof {
                        lemma_vbuf_infos_none(data@, 4, k + 1, n as int, e);
                    }
                    return None;
                },
            }
            k = k + 1;
        }
        Some(SVertexBufferInfoSection { info: v })
    }
}

/// What the model form's chunks have given so far: header, materials, meshes, vertex
/// buffer layouts and index buffer widths.
pub type ModelWalkView = (
    Option<SModelHeader>,
    Option<MaterialChunkView>,
    Option<Seq<CRenderMesh>>,
    Option<Seq<VertexBufferView>>,
    Option<Seq<EBufferType>>,
);

/// The meshes of a mesh chunk `s`: a count and that many meshes.
pub open spec fn spec_meshes(s: Seq<u8>, e: Endian) -> Option<Seq<CRenderMesh>> {
    if s.len() < 4 {
        None
    } else {
        spec_parse_records::<CRenderMesh>(s, 4, spec_u32(s, 0, e), e)
    }
}

/// The index buffer widths of an index buffer chunk `s`: a count and that many.
pub open spec fn spec_index_types(s: Seq<u8>, e: Endian) -> Option<Seq<EBufferType>> {
    if s.len() < 4 {
        None
    } else {
        spec_parse_records::<EBufferType>(s, 4, spec_u32(s, 0, e), e)
    }
}

/// One chunk of the model form: a WDHD, SKHD or HEAD chunk gives the header, MTRL the
/// materials, MESH the meshes, VBUF the vertex buffer layouts, IBUF the index buffer
/// widths, each in place of an earlier one; GPU chunks are passed over; any other
/// chunk is refused, and so is a chunk that does not hold what it should.
#[verifier::opaque]
pub open spec fn model_item(st: ModelWalkView, h: ChunkDescriptor, b: Seq<u8>, e: Endian) -> Result<ModelWalkView, FormatError> {
    let id = four_cc_value(h.id.0);
    if id == K_CHUNK_WDHD || id == K_CHUNK_SKHD || id == K_CHUNK_HEAD {
        if b.len() < 28 {
            Err(FormatError::InvalidData)
        } else {
            Ok((SModelHeader::spec_parse(b, 0, e), st.1, st.2, st.3, st.4))
        }
    } else if id == K_CHUNK_MTRL {
        match spec_material_chunk(b, e) {
            Some(x) => Ok((st.0, Some(x), st.2, st.3, st.4)),
            None => Err(FormatError::InvalidData),
        }
    } else if id == K_CHUNK_MESH {
        match spec_meshes(b, e) {
            Some(x) => Ok((st.0, st.1, Some(x), st.3, st.4)),
            None => Err(FormatError::InvalidData),
        }
    } else if id == K_CHUNK_VBUF {
        match spec_vbuf_section(b, e) {
            Some(x) => Ok((st.0, st.1, st.2, Some(x), st.4)),
            None => Err(FormatError::InvalidData),
        }
    } else if id == K_CHUNK_IBUF {
        match spec_index_types(b, e) {
            Some(x) => Ok((st.0, st.1, st.2, st.3, Some(x))),
            None => Err(FormatError::InvalidData),
        }
    } else if id == K_CHUNK_GPU {
        Ok(st)
    } else {
        Err(FormatError::UnexpectedChunk(id as u32))
    }
}

pub open spec fn model_step(e: Endian) -> spec_fn(ModelWalkView, ChunkDescriptor, Seq<u8>) -> Result<ModelWalkView, FormatError> {
    |st: ModelWalkView, h: ChunkDescriptor, b: Seq<u8>| model_item(st, h, b, e)
}

/// What reading the model form's chunks has given so far.
struct ModelParts {
    head: Option<SModelHeader>,
    mtrl: Option<SMaterialChunk>,
    mesh: Option<SMeshLoadInformation>,
    vbuf: Option<SVertexBufferInfoSection>,
    ibuf: Option<SIndexBufferInfoSection>,
}

spec fn model_parts_view(p: ModelParts) -> ModelWalkView {
    (
        p.head,
        match p.mtrl {
            Some(c) => Some(material_chunk_view(c)),
            None => None,
        },
        match p.mesh {
            Some(m) => Some(m.meshes@),
            None => None,
        },
        match p.vbuf {
            Some(v) => Some(vbuf_section_view(v)),
            None => None,
        },
        match p.ibuf {
            Some(i) => Some(i.info@),
            None => None,
        },
    )
}

/// Reads one chunk of the model form (see `model_item`).
fn read_model_item(parts: ModelParts, h: ChunkDescriptor, b: &[u8], e: Endian) -> (r: Result<ModelParts, FormatError>)
    ensures
        match r {
            Ok(x) => model_item(model_parts_view(parts), h, b@, e) == Ok::<_, FormatError>(model_parts_view(x)),
            Err(x) => model_item(model_parts_view(parts), h, b@, e) == Err::<ModelWalkView, _>(x),
        },
{
    proof {
        reveal(model_item);
    }
    let mut p = parts;
    let id = h.id.as_u32();
    if id == K_CHUNK_WDHD || id == K_CHUNK_SKHD || id == K_CHUNK_HEAD {
        if b.len() < 28 {
            return Err(FormatError::InvalidData);
        }
        p.head = SModelHeader::parse(b, 0, e);
    } else if id == K_CHUNK_MTRL {
        match SMaterialChunk::read(b, e) {
            Some(x) => {
                p.mtrl = Some(x);
            },
            None => {
                return Err(FormatError::InvalidData);
            },
        }
    } else if id == K_CHUNK_MESH {
        match SMeshLoadInformation::read(b, e) {
            Ok(x) => {
                p.mesh = Some(x);
            },
            Err(_) => {
                return Err(FormatError::InvalidData);
            },
        }
    } else if id == K_CHUNK_VBUF {
        match SVertexBufferInfoSection::read(b, e) {
            Some(x) => {
                p.vbuf = Some(x);
            },
            None => {
                return Err(FormatError::InvalidData);
            },
        }
    } else if id == K_CHUNK_IBUF {
        match SIndexBufferInfoSection::read(b, e) {
            Ok(x) => {
                p.ibuf = Some(x);
            },
            Err(_) => {
                return Err(FormatError::InvalidData);
            },
        }
    } else if id != K_CHUNK_GPU {
        return Err(FormatError::UnexpectedChunk(id));
    }
    Ok(p)
}

/// The read buffers of the model metadata `m`.
pub open spec fn meta_read_info(m: Seq<u8>, e: Endian) -> Seq<SModelReadBufferInfo> {
    spec_parse_records::<SModelReadBufferInfo>(m, 12, spec_u32(m, 8, e), e).unwrap()
}

/// The vertex buffers of the model metadata `m`.
pub open spec fn meta_vtx_info(m: Seq<u8>, e: Endian) -> Seq<SModelBufferInfo> {
    let v = spec_model_meta_vtx_pos(m, e);
    spec_parse_records::<SModelBufferInfo>(m, v + 4, spec_u32(m, v, e), e).unwrap()
}

/// The index buffers of the model metadata `m`.
pub open spec fn meta_idx_info(m: Seq<u8>, e: Endian) -> Seq<SModelBufferInfo> {
    let i = spec_model_meta_idx_pos(m, e);
    spec_parse_records::<SModelBufferInfo>(m, i + 4, spec_u32(m, i, e), e).unwrap()
}

/// The form of a model (CMDL versions 114 and 125, SMDL 127 and 133, WMDL 118 and 124).
pub open spec fn is_model_form(h: FormDescriptor) -> bool {
    let id = four_cc_value(h.id.0);
    ||| id == K_FORM_CMDL && h.reader_version == 114 && h.writer_version == 125
    ||| id == K_FORM_SMDL && h.reader_version == 127 && h.writer_version == 133
    ||| id == K_FORM_WMDL && h.reader_version == 118 && h.writer_version == 124
}

/// The value of model data: header, materials, meshes, vertex buffer layouts, index
/// buffer widths, and the expanded vertex and index buffers.
pub type ModelView = (
    SModelHeader,
    MaterialChunkView,
    Seq<CRenderMesh>,
    Seq<VertexBufferView>,
    Seq<EBufferType>,
    Seq<Seq<u8>>,
    Seq<Seq<u8>>,
);

/// What the walk of the model form's chunks gives once it has ended, with the
/// expanded buffers: every one of the five parts must be among it.
pub open spec fn model_finish(w: Result<ModelWalkView, FormatError>, vtx: Seq<Seq<u8>>, idx: Seq<Seq<u8>>) -> Result<ModelView, FormatError> {
    match w {
        Err(x) => Err(x),
        Ok((h, m, me, vb, ib)) => match (h, m, me, vb, ib) {
            (None, _, _, _, _) => Err(FormatError::MissingChunk(K_CHUNK_HEAD)),
            (_, None, _, _, _) => Err(FormatError::MissingChunk(K_CHUNK_MTRL)),
            (_, _, None, _, _) => Err(FormatError::MissingChunk(K_CHUNK_MESH)),
            (_, _, _, None, _) => Err(FormatError::MissingChunk(K_CHUNK_VBUF)),
            (_, _, _, _, None) => Err(FormatError::MissingChunk(K_CHUNK_IBUF)),
            (Some(h), Some(m), Some(me), Some(vb), Some(ib)) => Ok((h, m, me, vb, ib, vtx, idx)),
        },
    }
}

pub open spec fn model_start() -> ModelWalkView {
    (None, None, None, None, None)
}

/// The model resource `data` with its metadata `meta`: the form (little-endian, see
/// `is_model_form`), the metadata, the vertex and then the index buffers expanded
/// from the file, and the form's chunks (see `model_item`).
pub open spec fn spec_model(data: Seq<u8>, meta: Seq<u8>, e: Endian) -> Result<ModelView, FormatError> {
    match spec_form_slice(data, Endian::Little) {
        Err(x) => Err(x),
        Ok((h, body, _)) => if !is_model_form(h) {
            Err(FormatError::UnexpectedForm)
        } else if !spec_model_meta_ok(meta, e) {
            Err(FormatError::InvalidData)
        } else {
            let ri = meta_read_info(meta, e);
            let vi = meta_vtx_info(meta, e);
            let ii = meta_idx_info(meta, e);
            match spec_gpu_buffers(data, ri, vi, vi.len() as int) {
                Err(x) => Err(x),
                Ok(vtx) => match spec_gpu_buffers(data, ri, ii, ii.len() as int) {
                    Err(x) => Err(x),
                    Ok(idx) => model_finish(walk_chunk_seq(body, e, model_start(), model_step(e)), vtx, idx),
                },
            }
        },
    }
}

/// The GPU buffers `infos` that expanding reaches lie inside the file.
pub open spec fn gpu_fits(file: Seq<u8>, ri: Seq<SModelReadBufferInfo>, infos: Seq<SModelBufferInfo>) -> bool {
    forall|i: int|
        0 <= i < infos.len() && (#[trigger] spec_gpu_buffers(file, ri, infos, i)) is Ok
            ==> spec_gpu_source_ok(file, ri, infos[i])
}

/// Every buffer and chunk that reading the model `data` with metadata `meta` reaches
/// lies inside its bytes.
pub open spec fn model_fits(data: Seq<u8>, meta: Seq<u8>, e: Endian) -> bool {
    &&& form_fits(data, Endian::Little)
    &&& (spec_form_slice(data, Endian::Little) matches Ok((h, body, _)) ==> (is_model_form(h) && spec_model_meta_ok(meta, e)
        ==> {
        let ri = meta_read_info(meta, e);
        let vi = meta_vtx_info(meta, e);
        &&& gpu_fits(data, ri, vi)
        &&& spec_gpu_buffers(data, ri, vi, vi.len() as int) is Ok ==> gpu_fits(data, ri, meta_idx_info(meta, e))
        &&& chunk_seq_fits(body, e)
    }))
}

/// A model: its header, materials, meshes, vertex buffer layouts and index buffer
/// widths, and its expanded vertex and index buffers.
#[derive(Clone, Debug)]
pub struct ModelData {
    pub head: SModelHeader,
    pub mtrl: SMaterialChunk,
    pub mesh: SMeshLoadInformation,
    pub vbuf: SVertexBufferInfoSection,
    pub ibuf: SIndexBufferInfoSection,
    pub vtx_buffers: Vec<Vec<u8>>,
    pub idx_buffers: Vec<Vec<u8>>,
}

pub open spec fn model_view(m: ModelData) -> ModelView {
    (
        m.head,
        material_chunk_view(m.mtrl),
        m.mesh.meshes@,
        vbuf_section_view(m.vbuf),
        m.ibuf.info@,
        m.vtx_buffers@.map_values(|b: Vec<u8>| b@),
        m.idx_buffers@.map_values(|b: Vec<u8>| b@),
    )
}

/// Walks the chunks of the model form `body` (see `model_item`).
fn read_model_chunks(body: &[u8], e: Endian) -> (r: Result<ModelParts, FormatError>)
    requires
        chunk_seq_fits(body@, e),
    ensures
        match r {
            Ok(p) => walk_chunk_seq(body@, e, model_start(), model_step(e)) == Ok::<_, FormatError>(model_parts_view(p)),
            Err(x) => walk_chunk_seq(body@, e, model_start(), model_step(e)) == Err::<ModelWalkView, _>(x),
        },
{
    let mut parts = ModelParts { head: None, mtrl: None, mesh: None, vbuf: None, ibuf: None };
    let mut s = body;
    while s.len() > 0
        invariant
            chunk_seq_fits(s@, e),
            walk_chunk_seq(s@, e, model_parts_view(parts), model_step(e)) == walk_chunk_seq(body@, e, model_start(), model_step(e)),
        decreases s@.len(),
    {
        proof {
            lemma_walk_chunk_seq(s@, e, model_parts_view(parts), model_step(e));
        }
        let (h, b, rest) = ChunkDescriptor::slice(s, e)?;
        if rest.len() >= s.len() {
            return Err(FormatError::InvalidChunkHeader);
        }
        parts = read_model_item(parts, h, b, e)?;
        s = rest;
    }
    proof {
        lemma_walk_chunk_seq(s@, e, model_parts_view(parts), model_step(e));
    }
    Ok(parts)
}

impl ModelData {
    /// Reads the model resource `data` with its metadata `meta` (see `spec_model`).
    pub fn slice(data: &[u8], meta: &[u8], e: Endian) -> (r: Result<ModelData, FormatError>)
        requires
            model_fits(data@, meta@, e),
        ensures
            match r {
                Ok(m) => spec_model(data@, meta@, e) == Ok::<_, FormatError>(model_view(m)),
                Err(x) => spec_model(data@, meta@, e) == Err::<ModelView, _>(x),
            },
    {
        let (h, body, _) = FormDescriptor::slice(data, Endian::Little)?;
        let id = h.id.as_u32();
        let ok = (id == K_FORM_CMDL && h.reader_version == 114 && h.writer_version == 125) || (id == K_FORM_SMDL
            && h.reader_version == 127 && h.writer_version == 133) || (id == K_FORM_WMDL && h.reader_version == 118
            && h.writer_version == 124);
        if !ok {
            return Err(FormatError::UnexpectedForm);
        }
        let m = SModelMetaData::read(meta, e)?;
        let vtx_buffers = decompress_gpu_buffers(data, m.read_info.as_slice(), m.vtx_buffer_info.as_slice())?;
        let idx_buffers = decompress_gpu_buffers(data, m.read_info.as_slice(), m.idx_buffer_info.as_slice())?;
        let parts = read_model_chunks(body, e)?;
        let head = match parts.head {
            Some(x) => x,
            None => {
                return Err(FormatError::MissingChunk(K_CHUNK_HEAD));
            },
        };
        let mtrl = match parts.mtrl {
            Some(x) => x,
            None => {
                return Err(FormatError::MissingChunk(K_CHUNK_MTRL));
            },
        };
        let mesh = match parts.mesh {
            Some(x) => x,
            None => {
                return Err(FormatError::MissingChunk(K_CHUNK_MESH));
            },
        };
        let vbuf = match parts.vbuf {
            Some(x) => x,
            None => {
                return Err(FormatError::MissingChunk(K_CHUNK_VBUF));
            },
        };
        let ibuf = match parts.ibuf {
            Some(x) => x,
            None => {
                return Err(FormatError::MissingChunk(K_CHUNK_IBUF));
            },
        };
        Ok(ModelData { head, mtrl, mesh, vbuf, ibuf, vtx_buffers, idx_buffers })
    }
}

/// Whether every buffer and chunk that reading the model `data` with metadata
/// `meta` reaches lies inside its bytes (see `model_fits`).
pub fn model_fits_check(data: &[u8], meta: &[u8], e: Endian) -> (r: bool)
    ensures
        r == model_fits(data@, meta@, e),
{
    if !form_fits_check(data, Endian::Little) {
        return false;
    }
    let (h, body, _) = match FormDescriptor::slice(data, Endian::Little) {
        Ok(x) => x,
        Err(_) => {
            return true;
        },
    };
    let id = h.id.as_u32();
    let ok = (id == K_FORM_CMDL && h.reader_version == 114 && h.writer_version == 125) || (id == K_FORM_SMDL
        && h.reader_version == 127 && h.writer_version == 133) || (id == K_FORM_WMDL && h.reader_version == 118
        && h.writer_version == 124);
    if !ok {
        return true;
    }
    let m = match SModelMetaData::read(meta, e) {
        Ok(m) => m,
        Err(_) => {
            return true;
        },
    };
    let (vfits, vok) = gpu_fits_check(data, m.read_info.as_slice(), m.vtx_buffer_info.as_slice());
    if !vfits {
        return false;
    }
    if vok {
        let (ifits, _) = gpu_fits_check(data, m.read_info.as_slice(), m.idx_buffer_info.as_slice());
        if !ifits {
            return false;
        }
    }
    chunk_seq_fits_check(body, e)
}

} // verus!

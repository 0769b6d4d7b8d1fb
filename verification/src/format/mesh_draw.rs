//! The draw calls of a model laid out for export: buffer views are numbered with
//! the vertex buffers first (as many per vertex layout as its count says) and the
//! index buffers after them. Texture samplers take their filter and wrap modes from
//! the texture usage.
use vstd::prelude::*;
use crate::format::cmdl::{
    CRenderMesh, EBufferType, SIndexBufferInfoSection, SMeshLoadInformation, STextureUsageInfo,
    SVertexBufferInfo, SVertexBufferInfoSection,
};

verus! {

/// One draw call for export: the buffer view of its indices, the byte offset and
/// number of its indices in it, their width, its vertex layout and its material.
#[derive(Copy, Clone, Debug, PartialEq, Eq, Structural)]
pub struct MeshDraw {
    pub index_view: u32,
    pub byte_offset: u32,
    pub index_count: u32,
    pub index_type: EBufferType,
    pub layout: u8,
    pub material: u16,
}

/// Bytes per index of an index buffer.
pub open spec fn spec_index_width(t: EBufferType) -> int {
    match t {
        EBufferType::U8 => 1,
        EBufferType::U16 => 2,
        EBufferType::U32 => 4,
    }
}

fn index_width(t: EBufferType) -> (r: u32)
    ensures
        r == spec_index_width(t),
{
    match t {
        EBufferType::U8 => 1,
        EBufferType::U16 => 2,
        EBufferType::U32 => 4,
    }
}

/// The number of vertex buffer views of the vertex layouts `v`: the sum of their
/// buffer counts.
pub open spec fn spec_vertex_views(v: Seq<SVertexBufferInfo>) -> int
    decreases v.len(),
{
    if v.len() == 0 {
        0
    } else {
        spec_vertex_views(v.drop_last()) + v.last().unk
    }
}

proof fn lemma_vertex_views_grow(v: Seq<SVertexBufferInfo>, k: int)
    requires
        0 <= k < v.len(),
    ensures
        spec_vertex_views(v.take(k + 1)) == spec_vertex_views(v.take(k)) + v[k].unk,
{
    assert(v.take(k + 1).drop_last() =~= v.take(k));
}

/// The draw call for export of the mesh `m`, where the index buffer views start at
/// `first`, the index buffers have the widths `types` and there are `layouts` vertex
/// layouts; `None` where `m` names an index buffer or vertex layout that is not
/// there, or where its view number or byte offset does not fit in 32 bits.
pub open spec fn spec_mesh_draw(m: CRenderMesh, first: int, types: Seq<EBufferType>, layouts: int) -> Option<MeshDraw> {
    if m.idx_buf_idx >= types.len() || m.vtx_buf_idx >= layouts {
        None
    } else {
        let t = types[m.idx_buf_idx as int];
        let view = first + m.idx_buf_idx;
        let offset = m.index_start * spec_index_width(t);
        if view > u32::MAX || offset > u32::MAX {
            None
        } else {
            Some(
                MeshDraw {
                    index_view: view as u32,
                    byte_offset: offset as u32,
                    index_count: m.index_count,
                    index_type: t,
                    layout: m.vtx_buf_idx,
                    material: m.material_idx,
                },
            )
        }
    }
}

/// The draw calls for export of the meshes `meshes` (see `spec_mesh_draw`), the
/// index buffer views starting after the vertex buffer views of `vbuf`; `None` where
/// one of them has none.
pub open spec fn spec_mesh_draws(
    meshes: Seq<CRenderMesh>,
    vbuf: Seq<SVertexBufferInfo>,
    types: Seq<EBufferType>,
) -> Option<Seq<MeshDraw>> {
    let first = spec_vertex_views(vbuf);
    if forall|i: int| 0 <= i < meshes.len() ==> (#[trigger] spec_mesh_draw(meshes[i], first, types, vbuf.len() as int)) is Some {
        Some(Seq::new(meshes.len(), |i: int| spec_mesh_draw(meshes[i], first, types, vbuf.len() as int)->0))
    } else {
        None
    }
}

/// The number of vertex buffer views of `vbuf`, or `2^32` where it is more.
fn vertex_views_capped(vbuf: &SVertexBufferInfoSection) -> (r: u64)
    ensures
        r == if spec_vertex_views(vbuf.info@) <= u32::MAX {
            spec_vertex_views(vbuf.info@)
        } else {
            0x1_0000_0000
        },
{
    let n = vbuf.info.len();
    let mut acc: u64 = 0;
    let mut k: usize = 0;
    while k < n
        invariant
            n == vbuf.info@.len(),
            k <= n,
            spec_vertex_views(vbuf.info@.take(k as int)) >= 0,
            acc == if spec_vertex_views(vbuf.info@.take(k as int)) <= u32::MAX {
                spec_vertex_views(vbuf.info@.take(k as int))
            } else {
                0x1_0000_0000
            },
        decreases n - k,
    {
        proof {
            lemma_vertex_views_grow(vbuf.info@, k as int);
        }
        if acc <= 0xFFFF_FFFF {
            acc = acc + vbuf.info[k].unk as u64;
            if acc > 0xFFFF_FFFF {
                acc = 0x1_0000_0000;
            }
        }
        k = k + 1;
    }
    assert(vbuf.info@.take(n as int) =~= vbuf.info@);
    acc
}

/// The draw call for export of one mesh (see `spec_mesh_draw`).
fn mesh_draw(m: CRenderMesh, first: u64, types: &Vec<EBufferType>, layouts: usize) -> (r: Option<MeshDraw>)
    requires
        first <= 0x1_0000_0000,
    ensures
        r == spec_mesh_draw(m, first as int, types@, layouts as int),
{
    if m.idx_buf_idx as usize >= types.len() || m.vtx_buf_idx as usize >= layouts {
        return None;
    }
    let t = types[m.idx_buf_idx as usize];
    let view = first + m.idx_buf_idx as u64;
    let w = index_width(t);
    assert(m.index_start as u64 * w as u64 <= 0xFFFF_FFFFu64 * 4) by (nonlinear_arith)
        requires
            w <= 4,
    ;
    let offset = m.index_start as u64 * w as u64;
    if view > 0xFFFF_FFFF || offset > 0xFFFF_FFFF {
        return None;
    }
    Some(
        MeshDraw {
            index_view: view as u32,
            byte_offset: offset as u32,
            index_count: m.index_count,
            index_type: t,
            layout: m.vtx_buf_idx,
            material: m.material_idx,
        },
    )
}

/// The draw calls of a model for export (see `spec_mesh_draws`).
pub fn mesh_draws(
    mesh: &SMeshLoadInformation,
    vbuf: &SVertexBufferInfoSection,
    ibuf: &SIndexBufferInfoSection,
) -> (r: Option<Vec<MeshDraw>>)
    ensures
        match r {
            Some(v) => spec_mesh_draws(mesh.meshes@, vbuf.info@, ibuf.info@) == Some(v@),
            None => spec_mesh_draws(mesh.meshes@, vbuf.info@, ibuf.info@) is None,
        },
{
    let first = vertex_views_capped(vbuf);
    let ghost exact = spec_vertex_views(vbuf.info@);
    let layouts = vbuf.info.len();
    let n = mesh.meshes.len();
    let mut out: Vec<MeshDraw> = Vec::new();
    let mut k: usize = 0;
    while k < n
        invariant
            n == mesh.meshes@.len(),
            layouts == vbuf.info@.len(),
            k <= n,
            out@.len() == k,
            first as int == if exact <= u32::MAX { exact } else { 0x1_0000_0000 },
            exact == spec_vertex_views(vbuf.info@),
            forall|i: int| 0 <= i < k ==> spec_mesh_draw(mesh.meshes@[i], exact, ibuf.info@, layouts as int)
                == Some(#[trigger] out@[i]),
        decreases n - k,
    {
        let m = mesh.meshes[k];
        match mesh_draw(m, first, &ibuf.info, layouts) {
            Some(d) => {
                assert(spec_mesh_draw(m, first as int, ibuf.info@, layouts as int) == spec_mesh_draw(m, exact, ibuf.info@, layouts as int));
                out.push(d);
            },
            None => {
                assert(spec_mesh_draw(m, exact, ibuf.info@, layouts as int) is None);
                assert(spec_mesh_draw(mesh.meshes@[k as int], exact, ibuf.info@, layouts as int) is None);
                return None;
            },
        }
        k = k + 1;
    }
    assert forall|i: int| 0 <= i < mesh.meshes@.len() implies (#[trigger] spec_mesh_draw(
        mesh.meshes@[i],
        exact,
        ibuf.info@,
        vbuf.info@.len() as int,
    )) is Some by {
        assert(spec_mesh_draw(mesh.meshes@[i], exact, ibuf.info@, layouts as int) == Some(out@[i]));
    }
    assert(out@ =~= Seq::new(n as nat, |i: int| spec_mesh_draw(mesh.meshes@[i], exact, ibuf.info@, layouts as int)->0));
    Some(out)
}

/// A sampler's filter for export.
#[derive(Copy, Clone, Debug, PartialEq, Eq, Structural)]
pub enum SamplerFilter {
    Nearest,
    Linear,
}

/// A sampler's wrap mode for export.
#[derive(Copy, Clone, Debug, PartialEq, Eq, Structural)]
pub enum SamplerWrap {
    ClampToEdge,
    Repeat,
    MirroredRepeat,
}

/// The sampler of a texture for export: its filter (for magnifying and minifying;
/// `None` where the usage leaves it unset) and its wrap modes across and down.
#[derive(Copy, Clone, Debug, PartialEq, Eq, Structural)]
pub struct SamplerModes {
    pub filter: Option<SamplerFilter>,
    pub wrap_s: SamplerWrap,
    pub wrap_t: SamplerWrap,
}

/// The filter that the usage code `f` stands for: 0 nearest, 1 linear, all bits set
/// for none; other codes have no meaning.
pub open spec fn spec_filter(f: u32) -> Option<Option<SamplerFilter>> {
    if f == 0 {
        Some(Some(SamplerFilter::Nearest))
    } else if f == 1 {
        Some(Some(SamplerFilter::Linear))
    } else if f == u32::MAX {
        Some(None)
    } else {
        None
    }
}

/// The wrap mode that the usage code `w` stands for: 0 clamp to edge, 1 repeat, 2
/// mirrored repeat; other codes have no meaning.
pub open spec fn spec_wrap(w: u32) -> Option<SamplerWrap> {
    if w == 0 {
        Some(SamplerWrap::ClampToEdge)
    } else if w == 1 {
        Some(SamplerWrap::Repeat)
    } else if w == 2 {
        Some(SamplerWrap::MirroredRepeat)
    } else {
        None
    }
}

/// The sampler for export of a texture with usage `u`; `None` where its filter or
/// either of its first two wrap codes has no meaning.
pub open spec fn spec_sampler_modes(u: STextureUsageInfo) -> Option<SamplerModes> {
    match (spec_filter(u.filter), spec_wrap(u.wrap_x), spec_wrap(u.wrap_y)) {
        (Some(f), Some(s), Some(t)) => Some(SamplerModes { filter: f, wrap_s: s, wrap_t: t }),
        _ => None,
    }
}

fn wrap_of(w: u32) -> (r: Option<SamplerWrap>)
    ensures
        r == spec_wrap(w),
{
    if w == 0 {
        Some(SamplerWrap::ClampToEdge)
    } else if w == 1 {
        Some(SamplerWrap::Repeat)
    } else if w == 2 {
        Some(SamplerWrap::MirroredRepeat)
    } else {
        None
    }
}

/// The sampler for export of a texture with usage `u` (see `spec_sampler_modes`).
pub fn sampler_modes(u: &STextureUsageInfo) -> (r: Option<SamplerModes>)
    ensures
        r == spec_sampler_modes(*u),
{
    let filter = if u.filter == 0 {
        Some(SamplerFilter::Nearest)
    } else if u.filter == 1 {
        Some(SamplerFilter::Linear)
    } else if u.filter == 0xFFFF_FFFF {
        None
    } else {
        return None;
    };
    let wrap_s = wrap_of(u.wrap_x)?;
    let wrap_t = wrap_of(u.wrap_y)?;
    Some(SamplerModes { filter, wrap_s, wrap_t })
}

} // verus!

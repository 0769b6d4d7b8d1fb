use retrolib::format::cmdl::{
    CRenderMesh, EBufferType, SIndexBufferInfoSection, SMeshLoadInformation, STextureUsageInfo,
    SVertexBufferInfo, SVertexBufferInfoSection,
};
use retrolib::format::mesh_draw::{mesh_draws, sampler_modes, MeshDraw, SamplerFilter, SamplerModes, SamplerWrap};

fn render_mesh(material: u16, layout: u8, index_buffer: u8, start: u32, count: u32) -> CRenderMesh {
    CRenderMesh {
        material_idx: material,
        vtx_buf_idx: layout,
        idx_buf_idx: index_buffer,
        index_start: start,
        index_count: count,
        unk_c: 0,
        unk_e: 0,
    }
}

fn layouts(counts: &[u8]) -> SVertexBufferInfoSection {
    SVertexBufferInfoSection {
        info: counts
            .iter()
            .map(|&unk| SVertexBufferInfo { vertex_count: 3, components: Vec::new(), unk })
            .collect(),
    }
}

#[test]
fn draws_number_index_views_after_vertex_views() {
    let mesh = SMeshLoadInformation {
        meshes: vec![render_mesh(7, 1, 0, 10, 30), render_mesh(2, 0, 1, 6, 12)],
    };
    let vbuf = layouts(&[2, 3]);
    let ibuf = SIndexBufferInfoSection { info: vec![EBufferType::U16, EBufferType::U32] };
    let draws = mesh_draws(&mesh, &vbuf, &ibuf).unwrap();
    assert_eq!(
        draws,
        vec![
            MeshDraw {
                index_view: 5,
                byte_offset: 20,
                index_count: 30,
                index_type: EBufferType::U16,
                layout: 1,
                material: 7,
            },
            MeshDraw {
                index_view: 6,
                byte_offset: 24,
                index_count: 12,
                index_type: EBufferType::U32,
                layout: 0,
                material: 2,
            },
        ]
    );
}

#[test]
fn draws_with_byte_indices_keep_the_start() {
    let mesh = SMeshLoadInformation { meshes: vec![render_mesh(0, 0, 0, 9, 3)] };
    let ibuf = SIndexBufferInfoSection { info: vec![EBufferType::U8] };
    let draws = mesh_draws(&mesh, &layouts(&[1]), &ibuf).unwrap();
    assert_eq!(draws[0].index_view, 1);
    assert_eq!(draws[0].byte_offset, 9);
}

#[test]
fn draws_refuse_a_missing_index_buffer() {
    let mesh = SMeshLoadInformation { meshes: vec![render_mesh(0, 0, 1, 0, 3)] };
    let ibuf = SIndexBufferInfoSection { info: vec![EBufferType::U16] };
    assert!(mesh_draws(&mesh, &layouts(&[1]), &ibuf).is_none());
}

#[test]
fn draws_refuse_a_missing_vertex_layout() {
    let mesh = SMeshLoadInformation { meshes: vec![render_mesh(0, 1, 0, 0, 3)] };
    let ibuf = SIndexBufferInfoSection { info: vec![EBufferType::U16] };
    assert!(mesh_draws(&mesh, &layouts(&[1]), &ibuf).is_none());
}

#[test]
fn draws_refuse_an_offset_past_32_bits() {
    let mesh = SMeshLoadInformation { meshes: vec![render_mesh(0, 0, 0, 0x4000_0000, 3)] };
    let ibuf = SIndexBufferInfoSection { info: vec![EBufferType::U32] };
    assert!(mesh_draws(&mesh, &layouts(&[1]), &ibuf).is_none());
}

#[test]
fn draws_of_no_meshes_are_empty() {
    let mesh = SMeshLoadInformation { meshes: Vec::new() };
    let ibuf = SIndexBufferInfoSection { info: Vec::new() };
    assert!(mesh_draws(&mesh, &layouts(&[]), &ibuf).unwrap().is_empty());
}

fn usage(filter: u32, wrap_x: u32, wrap_y: u32) -> STextureUsageInfo {
    STextureUsageInfo { flags: 0, filter, wrap_x, wrap_y, wrap_z: 9 }
}

#[test]
fn sampler_modes_follow_the_usage_codes() {
    assert_eq!(
        sampler_modes(&usage(1, 0, 2)),
        Some(SamplerModes {
            filter: Some(SamplerFilter::Linear),
            wrap_s: SamplerWrap::ClampToEdge,
            wrap_t: SamplerWrap::MirroredRepeat,
        })
    );
    assert_eq!(sampler_modes(&usage(0, 1, 1)).unwrap().filter, Some(SamplerFilter::Nearest));
    assert_eq!(sampler_modes(&usage(u32::MAX, 1, 0)).unwrap().filter, None);
}

#[test]
fn sampler_modes_refuse_unknown_codes() {
    assert_eq!(sampler_modes(&usage(2, 0, 0)), None);
    assert_eq!(sampler_modes(&usage(0, 3, 0)), None);
    assert_eq!(sampler_modes(&usage(0, 0, 7)), None);
}

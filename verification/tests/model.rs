use retrolib::format::chunk::ChunkDescriptor;
use retrolib::format::cmdl::{
    EBufferType, EMaterialDataId, EMaterialDataType, EVertexComponent, EVertexDataFormat, SVertexBufferInfo,
    SVertexBufferInfoSection, SVertexDataComponent,
};
use retrolib::format::vertex_layout::vertex_buffer_layouts;
use retrolib::format::model::{model_fits_check, CMaterialDataInner, ModelData};
use retrolib::format::rfrm::FormDescriptor;
use retrolib::format::{FormatError, FourCC};
use retrolib::util::read::Endian;
use retrolib::util::write::{push_u16, push_u32};

const E: Endian = Endian::Little;

fn chunk(id: &[u8; 4], data: &[u8]) -> Vec<u8> {
    let mut out = Vec::new();
    ChunkDescriptor { id: FourCC(*id), size: 0, unk: 0, skip: 0 }.write(&mut out, data, E);
    out
}

fn form(id: &[u8; 4], rv: u32, wv: u32, items: &[Vec<u8>]) -> Vec<u8> {
    let body: Vec<u8> = items.concat();
    let h = FormDescriptor {
        magic: FourCC(*b"RFRM"),
        size: 0,
        unk: 0,
        id: FourCC(*id),
        reader_version: rv,
        writer_version: wv,
    };
    let mut out = Vec::new();
    h.write(&mut out, &body, E);
    out
}

fn words(v: &[u32]) -> Vec<u8> {
    let mut out = Vec::new();
    for w in v {
        push_u32(&mut out, *w, E);
    }
    out
}

fn header() -> Vec<u8> {
    words(&[7, 0xBF80_0000, 0xBF80_0000, 0xBF80_0000, 0x3F80_0000, 0x3F80_0000, 0x3F80_0000])
}

fn material(values: &[u8], count: u32) -> Vec<u8> {
    let mut m = words(&[3]);
    m.extend_from_slice(b"mat");
    m.extend([0x11u8; 16]);
    m.extend([0x22u8; 16]);
    m.extend(words(&[5, 6, 1]));
    m.extend_from_slice(b"ABCD");
    m.extend(words(&[1]));
    m.extend_from_slice(b"DIFTTXTR");
    m.extend_from_slice(&[1, 0]);
    m.extend(words(&[count]));
    m.extend_from_slice(values);
    m
}

fn texture_and_color() -> Vec<u8> {
    let mut v = Vec::new();
    v.extend_from_slice(b"DIFTTXTRBCLRCOLR");
    v.extend_from_slice(b"DIFTTXTR");
    v.extend([0u8; 16]);
    v.extend_from_slice(b"BCLRCOLR");
    v.extend(words(&[0x3F80_0000, 0, 0, 0x3F80_0000]));
    v
}

fn material_chunk(values: &[u8], count: u32) -> Vec<u8> {
    let mut c = words(&[1, 1]);
    c.extend(material(values, count));
    c
}

fn meshes() -> Vec<u8> {
    let mut m = words(&[1]);
    push_u16(&mut m, 0, E);
    m.extend_from_slice(&[0, 0]);
    m.extend(words(&[0, 2]));
    push_u16(&mut m, 9, E);
    push_u16(&mut m, 10, E);
    m
}

fn vertex_layouts() -> Vec<u8> {
    let mut v = words(&[1, 2, 1, 0, 0, 4, 21, 0]);
    v.push(1);
    v
}

fn index_widths() -> Vec<u8> {
    words(&[1, 1])
}

fn gpu_blob() -> Vec<u8> {
    let mut b = vec![0u8, 0, 0, 0, 1, 2, 3, 4, 5, 6, 7, 8];
    b.extend_from_slice(&[0, 0, 0, 0, 0, 0, 1, 0]);
    b
}

fn meta(blob_offset: u32, blob_len: u32) -> Vec<u8> {
    words(&[0, 0, 1, blob_len, blob_offset, 1, 0, 0, 12, 8, 1, 0, 12, 8, 4])
}

fn model_file(chunks: &[Vec<u8>]) -> (Vec<u8>, Vec<u8>) {
    let mut file = form(b"CMDL", 114, 125, chunks);
    let blob = gpu_blob();
    let m = meta(file.len() as u32, blob.len() as u32);
    file.extend(blob);
    (file, m)
}

fn all_chunks() -> Vec<Vec<u8>> {
    vec![
        chunk(b"HEAD", &header()),
        chunk(b"MTRL", &material_chunk(&texture_and_color(), 2)),
        chunk(b"MESH", &meshes()),
        chunk(b"VBUF", &vertex_layouts()),
        chunk(b"IBUF", &index_widths()),
        chunk(b"GPU ", &[]),
    ]
}

#[test]
fn model_gives_all_its_parts() {
    let (file, meta) = model_file(&all_chunks());
    let m = ModelData::slice(&file, &meta, E).unwrap();
    assert_eq!(m.head.unk, 7);
    assert_eq!(m.head.bounds.max.z, 0x3F80_0000);
    assert_eq!(m.head.bounds.min.x, 0xBF80_0000);

    assert_eq!(m.mtrl.unk, 1);
    let mat = &m.mtrl.materials[0];
    assert_eq!(mat.name, "mat");
    assert_eq!((mat.unk1, mat.unk2), (5, 6));
    assert_eq!(mat.types, vec![FourCC(*b"ABCD")]);
    assert_eq!(mat.render_types[0].flag1, 1);
    assert_eq!(mat.data_types.len(), 2);
    assert_eq!(mat.data_types[1].data_id, EMaterialDataId::BCLR);
    assert_eq!(mat.data[0].data_type, EMaterialDataType::Texture);
    match mat.data[0].data {
        CMaterialDataInner::Texture(t) => assert!(t.id == 0 && t.usage.is_none()),
        _ => panic!("expected a texture"),
    }
    match mat.data[1].data {
        CMaterialDataInner::Color(c) => assert_eq!((c.r, c.g, c.a), (0x3F80_0000, 0, 0x3F80_0000)),
        _ => panic!("expected a colour"),
    }

    assert_eq!(m.mesh.meshes.len(), 1);
    assert_eq!((m.mesh.meshes[0].index_count, m.mesh.meshes[0].unk_e), (2, 10));
    let layout = &m.vbuf.info[0];
    assert_eq!((layout.vertex_count, layout.unk), (2, 1));
    assert_eq!(layout.components[0].format, EVertexDataFormat::Rgba8Unorm);
    assert_eq!(layout.components[0].component, EVertexComponent::Position);
    assert!(matches!(m.ibuf.info[0], EBufferType::U16));
    assert_eq!(m.vtx_buffers, vec![vec![1, 2, 3, 4, 5, 6, 7, 8]]);
    assert_eq!(m.idx_buffers, vec![vec![0, 0, 1, 0]]);
}

#[test]
fn model_without_meshes_is_refused() {
    let mut chunks = all_chunks();
    chunks.remove(2);
    let (file, meta) = model_file(&chunks);
    assert_eq!(ModelData::slice(&file, &meta, E).unwrap_err(), FormatError::MissingChunk(u32::from_be_bytes(*b"MESH")));
}

#[test]
fn model_of_other_version_is_refused() {
    let mut file = form(b"CMDL", 114, 124, &all_chunks());
    let blob = gpu_blob();
    let m = meta(file.len() as u32, blob.len() as u32);
    file.extend(blob);
    assert_eq!(ModelData::slice(&file, &m, E).unwrap_err(), FormatError::UnexpectedForm);
}

#[test]
fn world_model_header_chunk_is_read() {
    let mut chunks = all_chunks();
    chunks[0] = chunk(b"WDHD", &header());
    let mut file = form(b"WMDL", 118, 124, &chunks);
    let blob = gpu_blob();
    let m = meta(file.len() as u32, blob.len() as u32);
    file.extend(blob);
    assert_eq!(ModelData::slice(&file, &m, E).unwrap().head.unk, 7);
}

#[test]
fn complex_value_of_plain_parameter_is_refused() {
    let mut values = Vec::new();
    values.extend_from_slice(b"DIFTCPLX");
    values.extend_from_slice(b"DIFTCPLX");
    values.extend([0u8; 101]);
    let mut chunks = all_chunks();
    chunks[1] = chunk(b"MTRL", &material_chunk(&values, 1));
    let (file, meta) = model_file(&chunks);
    assert_eq!(ModelData::slice(&file, &meta, E).unwrap_err(), FormatError::InvalidData);
}

#[test]
fn layered_texture_value_is_read() {
    let mut values = Vec::new();
    values.extend_from_slice(b"BCRLCPLX");
    values.extend_from_slice(b"BCRLCPLX");
    values.extend(words(&[3]));
    values.extend(words(&[1, 2, 3, 4, 5, 6, 7, 8, 9, 10, 11, 12]));
    values.push(0x40);
    values.extend([0u8; 48]);
    let mut chunks = all_chunks();
    chunks[1] = chunk(b"MTRL", &material_chunk(&values, 1));
    let (file, meta) = model_file(&chunks);
    let m = ModelData::slice(&file, &meta, E).unwrap();
    match m.mtrl.materials[0].data[0].data {
        CMaterialDataInner::LayeredTexture(l) => {
            assert_eq!((l.base.unk, l.base.flags), (3, 0x40));
            assert_eq!(l.base.colors[2].a, 12);
            assert!(l.textures.iter().all(|t| t.id == 0));
        }
        _ => panic!("expected a layered texture"),
    }
}

#[test]
fn unknown_model_chunk_is_refused() {
    let mut chunks = all_chunks();
    chunks.push(chunk(b"ZZZZ", &[]));
    let (file, meta) = model_file(&chunks);
    assert_eq!(ModelData::slice(&file, &meta, E).unwrap_err(), FormatError::UnexpectedChunk(u32::from_be_bytes(*b"ZZZZ")));
}

#[test]
fn bad_gpu_buffer_is_refused() {
    let mut file = form(b"CMDL", 114, 125, &all_chunks());
    let mut blob = gpu_blob();
    blob[0] = 9;
    let m = meta(file.len() as u32, blob.len() as u32);
    file.extend(blob);
    assert!(matches!(ModelData::slice(&file, &m, E).unwrap_err(), FormatError::Compression(_)));
}

fn component(buffer_index: u32, offset: u32, stride: u32, format: EVertexDataFormat, component: EVertexComponent) -> SVertexDataComponent {
    SVertexDataComponent { buffer_index, offset, stride, format, component }
}

#[test]
fn vertex_layouts_sort_attributes_and_widen_half_floats() {
    let vbuf = SVertexBufferInfoSection {
        info: vec![SVertexBufferInfo {
            vertex_count: 3,
            components: vec![
                component(0, 12, 20, EVertexDataFormat::Rgba16Float, EVertexComponent::Normal),
                component(0, 0, 20, EVertexDataFormat::Rgb32Float, EVertexComponent::Position),
                component(1, 0, 4, EVertexDataFormat::Rg16Float, EVertexComponent::TexCoord0),
            ],
            unk: 2,
        }],
    };
    let l = vertex_buffer_layouts(&vbuf).unwrap();
    assert_eq!(l.len(), 2);
    assert_eq!((l[0].vertex_count, l[0].in_stride, l[0].out_stride), (3, 20, 28));
    assert_eq!(l[0].attributes[0].component, EVertexComponent::Position);
    assert_eq!((l[0].attributes[0].out_offset, l[0].attributes[0].out_format), (0, EVertexDataFormat::Rgb32Float));
    assert_eq!(l[0].attributes[1].component, EVertexComponent::Normal);
    assert_eq!((l[0].attributes[1].in_offset, l[0].attributes[1].in_size), (12, 8));
    assert_eq!((l[0].attributes[1].out_offset, l[0].attributes[1].out_format), (12, EVertexDataFormat::Rgba32Float));
    assert_eq!((l[1].in_stride, l[1].out_stride), (4, 8));
    assert_eq!(l[1].attributes[0].out_format, EVertexDataFormat::Rg32Float);
}

#[test]
fn vertex_layouts_keep_order_of_equal_offsets_and_empty_buffers() {
    let vbuf = SVertexBufferInfoSection {
        info: vec![
            SVertexBufferInfo {
                vertex_count: 1,
                components: vec![
                    component(0, 4, 8, EVertexDataFormat::R32Uint, EVertexComponent::Color),
                    component(0, 4, 8, EVertexDataFormat::R8Uint, EVertexComponent::BoneIndices),
                ],
                unk: 2,
            },
            SVertexBufferInfo { vertex_count: 5, components: vec![], unk: 1 },
        ],
    };
    let l = vertex_buffer_layouts(&vbuf).unwrap();
    assert_eq!(l.len(), 3);
    assert_eq!(l[0].attributes[0].component, EVertexComponent::Color);
    assert_eq!(l[0].attributes[1].out_offset, 4);
    assert_eq!(l[0].out_stride, 5);
    assert!(l[1].attributes.is_empty() && l[1].in_stride == 0 && l[1].vertex_count == 1);
    assert_eq!(l[2].vertex_count, 5);
}

#[test]
fn vertex_layouts_refuse_mismatched_strides() {
    let vbuf = SVertexBufferInfoSection {
        info: vec![SVertexBufferInfo {
            vertex_count: 1,
            components: vec![
                component(0, 0, 8, EVertexDataFormat::R32Uint, EVertexComponent::Position),
                component(0, 4, 12, EVertexDataFormat::R32Uint, EVertexComponent::Normal),
            ],
            unk: 1,
        }],
    };
    assert_eq!(vertex_buffer_layouts(&vbuf).unwrap_err(), FormatError::InvalidData);
}

#[test]
fn model_fit_check_accepts_a_whole_model() {
    let (file, meta) = model_file(&all_chunks());
    assert!(model_fits_check(&file, &meta, E));
}

#[test]
fn model_fit_check_refuses_a_read_buffer_past_the_file() {
    let (file, _) = model_file(&all_chunks());
    let blob = gpu_blob();
    let m = meta((file.len() - blob.len()) as u32, blob.len() as u32 + 1);
    assert!(!model_fits_check(&file, &m, E));
}

#[test]
fn model_fit_check_refuses_a_gpu_buffer_past_its_read_buffer() {
    let (file, _) = model_file(&all_chunks());
    let blob = gpu_blob();
    let m = words(&[0, 0, 1, blob.len() as u32, (file.len() - blob.len()) as u32, 1, 0, 0, 30, 8, 1, 0, 12, 8, 4]);
    assert!(!model_fits_check(&file, &m, E));
}

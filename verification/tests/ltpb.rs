use retrolib::format::chunk::ChunkDescriptor;
use retrolib::format::ltpb::LightProbeData;
use retrolib::format::rfrm::FormDescriptor;
use retrolib::format::{FormatError, FourCC};
use retrolib::util::read::Endian;
use retrolib::util::write::{push_u16, push_u32};

fn bundle(version: u32, chunks: &[(&[u8; 4], Vec<u8>)]) -> Vec<u8> {
    let mut body = Vec::new();
    for (id, data) in chunks {
        ChunkDescriptor { id: FourCC(**id), size: 0, unk: 0, skip: 0 }.write(&mut body, data, Endian::Little);
    }
    let h = FormDescriptor {
        magic: FourCC(*b"RFRM"),
        size: 0,
        unk: 0,
        id: FourCC(*b"LTPB"),
        reader_version: version,
        writer_version: 73,
    };
    let mut out = Vec::new();
    h.write(&mut out, &body, Endian::Little);
    out
}

fn empty_meta() -> Vec<u8> {
    let mut m = Vec::new();
    for v in [0u32, 0, 0, 0] {
        push_u32(&mut m, v, Endian::Little);
    }
    m
}

fn header() -> Vec<u8> {
    let mut h = Vec::new();
    for v in [1u32, 2, 0x3F80_0000, 0, 0x4000_0000] {
        push_u32(&mut h, v, Endian::Little);
    }
    for v in [1u16, 2, 3, 4, 5, 6] {
        push_u16(&mut h, v, Endian::Little);
    }
    h
}

#[test]
fn bundle_without_textures_gives_its_header() {
    let data = bundle(66, &[(b"PTEX", vec![]), (b"PHDR", header())]);
    let p = LightProbeData::slice(&data, &empty_meta(), Endian::Little).unwrap();
    assert_eq!((p.head.unk1, p.head.unk2), (1, 2));
    assert_eq!(p.head.unk_vec, [0x3F80_0000, 0, 0x4000_0000]);
    assert_eq!((p.head.grid_idx1.x, p.head.grid_idx2.z), (1, 6));
    assert!(p.textures.is_empty() && p.extra.is_empty());
}

#[test]
fn bundle_without_header_is_refused() {
    let data = bundle(66, &[(b"PTEX", vec![])]);
    let r = LightProbeData::slice(&data, &empty_meta(), Endian::Little);
    assert_eq!(r.unwrap_err(), FormatError::MissingChunk(0x5048_4452));
}

#[test]
fn bundle_with_unknown_chunk_is_refused() {
    let data = bundle(66, &[(b"XXXX", vec![])]);
    let r = LightProbeData::slice(&data, &empty_meta(), Endian::Little);
    assert_eq!(r.unwrap_err(), FormatError::UnexpectedChunk(u32::from_be_bytes(*b"XXXX")));
}

#[test]
fn bundle_of_other_version_is_refused() {
    let data = bundle(65, &[(b"PHDR", header())]);
    let r = LightProbeData::slice(&data, &empty_meta(), Endian::Little);
    assert_eq!(r.unwrap_err(), FormatError::UnexpectedForm);
}

#[test]
fn bundle_with_uneven_offset_lists_is_refused() {
    let data = bundle(66, &[(b"PHDR", header())]);
    let mut meta = Vec::new();
    for v in [0u32, 0, 0, 1] {
        push_u32(&mut meta, v, Endian::Little);
    }
    meta.extend_from_slice(&[0u8; 8]);
    let r = LightProbeData::slice(&data, &meta, Endian::Little);
    assert_eq!(r.unwrap_err(), FormatError::InvalidData);
}

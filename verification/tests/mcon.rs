use retrolib::format::chunk::ChunkDescriptor;
use retrolib::format::mcon::ModConData;
use retrolib::format::rfrm::FormDescriptor;
use retrolib::format::{FormatError, FourCC};
use retrolib::util::read::Endian;
use retrolib::util::write::{push_u16, push_u32};

const E: Endian = Endian::Little;

fn chunk(id: &[u8; 4], data: &[u8]) -> Vec<u8> {
    let mut out = Vec::new();
    ChunkDescriptor { id: FourCC(*id), size: 0, unk: 0, skip: 0 }.write(&mut out, data, E);
    out
}

fn mcon_v(rv: u32, wv: u32, body: &[u8]) -> Vec<u8> {
    let h = FormDescriptor {
        magic: FourCC(*b"RFRM"),
        size: 0,
        unk: 0,
        id: FourCC(*b"MCON"),
        reader_version: rv,
        writer_version: wv,
    };
    let mut out = Vec::new();
    h.write(&mut out, body, E);
    out
}

fn mcon(body: &[u8]) -> Vec<u8> {
    mcon_v(72, 72, body)
}

fn code(id: &[u8; 4]) -> u32 {
    u32::from_be_bytes(*id)
}

/// Visual data with one model, one transform, one unknown record, two bytes in
/// the first byte list and one short in the first short list.
fn visual_bytes() -> Vec<u8> {
    let mut v = Vec::new();
    // models
    push_u32(&mut v, 1, E);
    v.extend(1..=16u8);
    // ids_2, colors
    push_u32(&mut v, 0, E);
    push_u32(&mut v, 0, E);
    // transforms: one 3x4 of words 100..111
    push_u32(&mut v, 1, E);
    for w in 100..112u32 {
        push_u32(&mut v, w, E);
    }
    // object_transforms
    push_u32(&mut v, 0, E);
    // unknowns: one record with two words
    push_u32(&mut v, 1, E);
    push_u32(&mut v, 0x3F80_0000, E);
    push_u32(&mut v, 0x4000_0000, E);
    push_u32(&mut v, 2, E);
    push_u32(&mut v, 9, E);
    push_u32(&mut v, 10, E);
    // bytes_2
    push_u32(&mut v, 2, E);
    v.extend([5u8, 6]);
    // bytes_3 .. bytes_6
    for _ in 0..4 {
        push_u32(&mut v, 0, E);
    }
    // shorts_1
    push_u32(&mut v, 1, E);
    push_u16(&mut v, 0x0708, E);
    // shorts_2, bytes_7, bytes_8
    for _ in 0..3 {
        push_u32(&mut v, 0, E);
    }
    v
}

fn empty_visual_bytes() -> Vec<u8> {
    vec![0u8; 15 * 4]
}

#[test]
fn model_container_reads_visual_data() {
    let data = mcon(&chunk(b"MCVD", &visual_bytes()));
    let m = ModConData::slice(&data, E).unwrap();
    let vd = m.visual_data.unwrap();
    assert_eq!(vd.models.len(), 1);
    let id: [u8; 16] = (1..=16u8).collect::<Vec<u8>>().try_into().unwrap();
    assert_eq!(vd.models[0].0, uuid::Uuid::from_bytes_le(id).as_u128());
    assert!(vd.ids_2.is_empty());
    assert!(vd.colors.is_empty());
    assert_eq!(vd.transforms.len(), 1);
    assert_eq!(vd.transforms[0].m0.x, 100);
    assert_eq!(vd.transforms[0].m1.y, 105);
    assert_eq!(vd.transforms[0].m2.w, 111);
    assert!(vd.object_transforms.is_empty());
    assert_eq!(vd.unknowns.len(), 1);
    assert_eq!(vd.unknowns[0].f0, 0x3F80_0000);
    assert_eq!(vd.unknowns[0].f1, 0x4000_0000);
    assert_eq!(vd.unknowns[0].ints, vec![9, 10]);
    assert_eq!(vd.bytes_2, vec![5, 6]);
    assert!(vd.bytes_3.is_empty());
    assert_eq!(vd.shorts_1, vec![0x0708]);
    assert!(vd.shorts_2.is_empty());
    assert!(vd.bytes_8.is_empty());
}

#[test]
fn model_container_without_chunks_has_no_visual_data() {
    let m = ModConData::slice(&mcon(&[]), E).unwrap();
    assert!(m.visual_data.is_none());
}

#[test]
fn model_container_passes_over_header_chunks_and_stops_at_peek() {
    let mut body = chunk(b"MCHD", &[1, 2, 3]);
    body.extend(chunk(b"MCVD", &empty_visual_bytes()));
    body.extend(chunk(b"MCCD", &[4]));
    body.extend(b"PEEK");
    body.extend([0xFFu8; 7]);
    let m = ModConData::slice(&mcon(&body), E).unwrap();
    let vd = m.visual_data.unwrap();
    assert!(vd.models.is_empty());
    assert!(vd.unknowns.is_empty());
    assert!(vd.bytes_8.is_empty());
}

#[test]
fn model_container_refuses_unknown_chunks() {
    let data = mcon(&chunk(b"ABCD", &[]));
    assert_eq!(ModConData::slice(&data, E).unwrap_err(), FormatError::UnexpectedChunk(code(b"ABCD")));
}

#[test]
fn model_container_refuses_other_versions() {
    let data = mcon_v(72, 71, &[]);
    assert_eq!(ModConData::slice(&data, E).unwrap_err(), FormatError::UnexpectedForm);
}

#[test]
fn model_container_refuses_short_visual_data() {
    let data = mcon(&chunk(b"MCVD", &[0u8; 10]));
    assert_eq!(ModConData::slice(&data, E).unwrap_err(), FormatError::InvalidData);
}

use std::io::Write;

use retrolib::format::mtrl::MaterialData;
use retrolib::format::rfrm::FormDescriptor;
use retrolib::format::{FormatError, FourCC};
use retrolib::util::read::Endian;
use retrolib::util::write::push_u32;

fn zlib(data: &[u8]) -> Vec<u8> {
    let mut enc = flate2::write::ZlibEncoder::new(Vec::new(), flate2::Compression::default());
    enc.write_all(data).unwrap();
    enc.finish().unwrap()
}

fn material(id: &[u8; 4], version: u32, body: &[u8]) -> Vec<u8> {
    let h = FormDescriptor {
        magic: FourCC(*b"RFRM"),
        size: 0,
        unk: 0,
        id: FourCC(*id),
        reader_version: version,
        writer_version: version,
    };
    let mut out = Vec::new();
    h.write(&mut out, body, Endian::Little);
    out
}

fn meta(compressed: u32, size: u32, offset: u32) -> Vec<u8> {
    let mut m = Vec::new();
    for v in [1, 168, compressed, size, offset] {
        push_u32(&mut m, v, Endian::Little);
    }
    m
}

#[test]
fn material_is_inflated_from_where_metadata_points() {
    let text = b"material parameters";
    let packed = zlib(text);
    let data = material(b"MTRL", 168, &packed);
    let m = MaterialData::slice(&data, &meta(packed.len() as u32, text.len() as u32, 32), Endian::Little)
        .unwrap();
    assert_eq!(m.decompressed, text.to_vec());
}

#[test]
fn material_asking_too_much_fails() {
    let text = b"short";
    let packed = zlib(text);
    let data = material(b"MTRL", 168, &packed);
    let r = MaterialData::slice(&data, &meta(packed.len() as u32, 100, 32), Endian::Little);
    assert_eq!(r.unwrap_err(), FormatError::InvalidData);
}

#[test]
fn material_of_other_version_is_refused() {
    let data = material(b"MTRL", 167, &[]);
    let r = MaterialData::slice(&data, &meta(0, 0, 32), Endian::Little);
    assert_eq!(r.unwrap_err(), FormatError::UnexpectedForm);
}

#[test]
fn material_with_short_metadata_is_refused() {
    let data = material(b"MTRL", 168, &[]);
    let r = MaterialData::slice(&data, &[0u8; 19], Endian::Little);
    assert_eq!(r.unwrap_err(), FormatError::InvalidData);
}

use retrolib::format::chunk::ChunkDescriptor;
use retrolib::format::rfrm::FormDescriptor;
use retrolib::format::texture_data::texture_fits_check;
use retrolib::format::FourCC;
use retrolib::util::read::Endian;
use retrolib::util::write::push_u32;

const E: Endian = Endian::Little;

/// A 2D R8 texture header of `w` x `h` texels with one mip level.
fn header(w: u32, h: u32) -> Vec<u8> {
    let mut v = Vec::new();
    push_u32(&mut v, 1, E);
    push_u32(&mut v, 0, E);
    push_u32(&mut v, w, E);
    push_u32(&mut v, h, E);
    push_u32(&mut v, 1, E);
    v.extend([0u8; 4]);
    push_u32(&mut v, 1, E);
    push_u32(&mut v, w * h, E);
    v.extend([0u8; 10]);
    v
}

/// A texture resource: the TXTR form with its HEAD chunk, then `gpu` bytes.
fn texture(w: u32, h: u32, gpu: &[u8]) -> Vec<u8> {
    let mut body = Vec::new();
    ChunkDescriptor { id: FourCC(*b"HEAD"), size: 0, unk: 0, skip: 0 }.write(&mut body, &header(w, h), E);
    let f = FormDescriptor {
        magic: FourCC(*b"RFRM"),
        size: 0,
        unk: 0,
        id: FourCC(*b"TXTR"),
        reader_version: 65,
        writer_version: 66,
    };
    let mut out = Vec::new();
    f.write(&mut out, &body, E);
    out.extend_from_slice(gpu);
    out
}

/// Metadata with one read buffer at `offset` of `size` bytes, expanded into the
/// first `out` bytes of a texel buffer of `total` bytes.
fn meta(offset: u32, size: u32, out: u32, total: u32) -> Vec<u8> {
    let mut v = Vec::new();
    for _ in 0..5 {
        push_u32(&mut v, 0, E);
    }
    push_u32(&mut v, total, E);
    push_u32(&mut v, 1, E);
    v.push(0);
    push_u32(&mut v, offset, E);
    push_u32(&mut v, size, E);
    for x in [0, size, 0, out, 0, 0, 0, 0, 0, 0, 0, 0] {
        push_u32(&mut v, x, E);
    }
    v
}

#[test]
fn texture_check_accepts_buffers_inside_the_file() {
    let mut gpu = vec![0u8; 4];
    gpu.extend([7u8; 16]);
    let data = texture(4, 4, &gpu);
    let start = (data.len() - gpu.len()) as u32;
    assert!(texture_fits_check(&data, &meta(start, 20, 16, 16), E));
}

#[test]
fn texture_check_refuses_a_buffer_past_the_file() {
    let gpu = vec![0u8; 20];
    let data = texture(4, 4, &gpu);
    let start = (data.len() - gpu.len()) as u32;
    assert!(!texture_fits_check(&data, &meta(start, 21, 16, 16), E));
}

#[test]
fn texture_check_refuses_an_expansion_past_the_texel_buffer() {
    let gpu = vec![0u8; 20];
    let data = texture(4, 4, &gpu);
    let start = (data.len() - gpu.len()) as u32;
    assert!(!texture_fits_check(&data, &meta(start, 20, 16, 8), E));
}

#[test]
fn texture_check_refuses_a_form_past_the_end() {
    let data = texture(4, 4, &[]);
    assert!(!texture_fits_check(&data[..data.len() - 1], &meta(0, 0, 0, 0), E));
}

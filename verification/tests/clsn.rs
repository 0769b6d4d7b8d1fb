use retrolib::format::clsn::collision_fits_check;
use retrolib::format::chunk::ChunkDescriptor;
use retrolib::format::clsn::CollisionData;
use retrolib::format::rfrm::FormDescriptor;
use retrolib::format::{FormatError, FourCC};
use retrolib::util::read::Endian;
use retrolib::util::write::{push_u16, push_u32};

const E: Endian = Endian::Little;

fn chunk(id: &[u8; 4], data: &[u8]) -> Vec<u8> {
    let mut out = Vec::new();
    ChunkDescriptor { id: FourCC(*id), size: 0, unk: 0, skip: 0 }.write(&mut out, data, E);
    out
}

fn form(id: &[u8; 4], rv: u32, wv: u32, items: &[Vec<u8>]) -> Vec<u8> {
    let body: Vec<u8> = items.concat();
    let h = FormDescriptor {
        magic: FourCC(*b"RFRM"),
        size: 0,
        unk: 0,
        id: FourCC(*id),
        reader_version: rv,
        writer_version: wv,
    };
    let mut out = Vec::new();
    h.write(&mut out, &body, E);
    out
}

fn vertices() -> Vec<u8> {
    let mut v = Vec::new();
    for w in [2u32, 0x3F80_0000, 0, 0, 0, 0x4000_0000, 0] {
        push_u32(&mut v, w, E);
    }
    v
}

fn triangles() -> Vec<u8> {
    let mut t = Vec::new();
    for w in [1u32, 0, 1, 1] {
        push_u32(&mut t, w, E);
    }
    push_u16(&mut t, 3, E);
    push_u16(&mut t, 4, E);
    t
}

fn collision(id: &[u8; 4], rv: u32, wv: u32, chunks: &[Vec<u8>]) -> Vec<u8> {
    let mut data = form(id, rv, wv, chunks);
    data.extend(form(b"FOOT", 1, 1, &[]));
    data
}

#[test]
fn collision_gives_vertices_and_triangles() {
    let data = collision(
        b"CLSN",
        11,
        22,
        &[chunk(b"VERT", &vertices()), chunk(b"MTRL", &[1, 2, 3]), chunk(b"TRIS", &triangles()), chunk(b"TREE", &[])],
    );
    let c = CollisionData::slice(&data).unwrap();
    let v = c.vertices.unwrap();
    assert_eq!(v.count, 2);
    assert_eq!((v.vertices[0].x, v.vertices[1].y), (0x3F80_0000, 0x4000_0000));
    let t = c.triangles.unwrap();
    assert_eq!(t.count, 1);
    assert_eq!((t.triangles[0].idx2, t.triangles[0].idx3, t.triangles[0].material, t.triangles[0].unk), (1, 1, 3, 4));
}

#[test]
fn oriented_collision_of_other_version_is_refused() {
    let data = collision(b"DCLN", 9, 19, &[chunk(b"VERT", &vertices())]);
    assert_eq!(CollisionData::slice(&data).unwrap_err(), FormatError::UnexpectedForm);
}

#[test]
fn other_forms_are_read_whatever_their_version() {
    let data = collision(b"ABCD", 0, 0, &[chunk(b"VERT", &vertices())]);
    let c = CollisionData::slice(&data).unwrap();
    assert_eq!(c.vertices.unwrap().vertices.len(), 2);
    assert!(c.triangles.is_none());
}

#[test]
fn collision_with_trailing_bytes_is_refused() {
    let mut data = collision(b"CLSN", 11, 22, &[]);
    data.push(0);
    assert_eq!(CollisionData::slice(&data).unwrap_err(), FormatError::TrailingData);
}

#[test]
fn short_vertex_chunk_is_refused() {
    let mut v = vertices();
    v.truncate(20);
    let data = collision(b"CLSN", 11, 22, &[chunk(b"VERT", &v)]);
    assert_eq!(CollisionData::slice(&data).unwrap_err(), FormatError::InvalidData);
}

#[test]
fn collision_fit_check_tells_chunks_that_run_past_the_form() {
    let data = collision(b"CLSN", 11, 22, &[chunk(b"VERT", &vertices())]);
    assert!(collision_fits_check(&data));
    let mut bad = chunk(b"VERT", &vertices());
    bad[4] = 0xFF;
    let data = collision(b"CLSN", 11, 22, &[bad]);
    assert!(!collision_fits_check(&data));
}

//! Reading a collision resource (an axis- or oriented-box collision tree): its
//! vertices and triangles. Floats are held as their bits.
use vstd::prelude::*;
use crate::format::chunk::ChunkDescriptor;
use crate::format::foot::K_FORM_FOOT;
use crate::format::model::CVector3f;
use crate::format::rfrm::{FormDescriptor, form_fits, form_fits_check, spec_form_slice};
use crate::format::walk::{chunk_seq_fits, chunk_seq_fits_check, lemma_walk_chunk_seq, walk_chunk_seq};
use crate::format::{FormatError, four_cc_value};
use crate::util::read::{
    Endian, FixedRecord, lemma_records_none_means_short, read_records, read_u16, read_u32,
    spec_parse_records, spec_u16, spec_u32,
};

verus! {

/// Code of the axis-aligned box collision tree form.
pub const K_FORM_CLSN: u32 = 0x434C_534E;

/// Code of the oriented box collision tree form.
pub const K_FORM_DCLN: u32 = 0x4443_4C4E;

/// Code of the vertex chunk.
pub const K_CHUNK_VERT: u32 = 0x5645_5254;

/// Code of the material chunk.
pub const K_CHUNK_MTRL: u32 = 0x4D54_524C;

/// Code of the triangle chunk.
pub const K_CHUNK_TRIS: u32 = 0x5452_4953;

/// Versions of the axis-aligned box collision tree form.
pub const K_CLSN_READER_VERSION: u32 = 11;
pub const K_CLSN_WRITER_VERSION: u32 = 22;

/// Versions of the oriented box collision tree form.
pub const K_DCLN_READER_VERSION: u32 = 9;
pub const K_DCLN_WRITER_VERSION: u32 = 18;

impl FixedRecord for CVector3f {
    open spec fn spec_size() -> int {
        12
    }

    open spec fn spec_parse(s: Seq<u8>, pos: int, e: Endian) -> Option<CVector3f> {
        Some(
            CVector3f {
                x: spec_u32(s, pos, e) as u32,
                y: spec_u32(s, pos + 4, e) as u32,
                z: spec_u32(s, pos + 8, e) as u32,
            },
        )
    }

    fn size() -> (r: usize) {
        12
    }

    fn parse(data: &[u8], pos: usize, e: Endian) -> (r: Option<CVector3f>) {
        let _len = data.len();
        Some(
            CVector3f {
                x: read_u32(data, pos, e).unwrap(),
                y: read_u32(data, pos + 4, e).unwrap(),
                z: read_u32(data, pos + 8, e).unwrap(),
            },
        )
    }
}

/// A triangle: the indices of its three vertices, its material and a number.
#[derive(Copy, Clone, Debug, PartialEq, Eq, Structural)]
pub struct CIndexedTriangle {
    pub idx1: u32,
    pub idx2: u32,
    pub idx3: u32,
    pub material: u16,
    pub unk: u16,
}

impl FixedRecord for CIndexedTriangle {
    open spec fn spec_size() -> int {
        16
    }

    open spec fn spec_parse(s: Seq<u8>, pos: int, e: Endian) -> Option<CIndexedTriangle> {
        Some(
            CIndexedTriangle {
                idx1: spec_u32(s, pos, e) as u32,
                idx2: spec_u32(s, pos + 4, e) as u32,
                idx3: spec_u32(s, pos + 8, e) as u32,
                material: spec_u16(s, pos + 12, e) as u16,
                unk: spec_u16(s, pos + 14, e) as u16,
            },
        )
    }

    fn size() -> (r: usize) {
        16
    }

    fn parse(data: &[u8], pos: usize, e: Endian) -> (r: Option<CIndexedTriangle>) {
        let _len = data.len();
        Some(
            CIndexedTriangle {
                idx1: read_u32(data, pos, e).unwrap(),
                idx2: read_u32(data, pos + 4, e).unwrap(),
                idx3: read_u32(data, pos + 8, e).unwrap(),
                material: read_u16(data, pos + 12, e).unwrap(),
                unk: read_u16(data, pos + 14, e).unwrap(),
            },
        )
    }
}

/// The vertices of a collision resource: their count and the vertices.
#[derive(Clone, Debug)]
pub struct Vertices {
    pub count: u32,
    pub vertices: Vec<CVector3f>,
}

/// The triangles of a collision resource: their count and the triangles.
#[derive(Clone, Debug)]
pub struct Triangles {
    pub count: u32,
    pub triangles: Vec<CIndexedTriangle>,
}

/// The little-endian records in `s`: a count and that many records.
pub open spec fn spec_counted<T: FixedRecord>(s: Seq<u8>) -> Option<(u32, Seq<T>)> {
    if s.len() < 4 {
        None
    } else {
        match spec_parse_records::<T>(s, 4, spec_u32(s, 0, Endian::Little), Endian::Little) {
            Some(l) => Some((spec_u32(s, 0, Endian::Little) as u32, l)),
            None => None,
        }
    }
}

fn read_counted<T: FixedRecord>(s: &[u8]) -> (r: Option<(u32, Vec<T>)>)
    requires
        forall|p: int| #[trigger] T::spec_parse(s@, p, Endian::Little) is Some,
    ensures
        match r {
            Some((n, v)) => spec_counted::<T>(s@) == Some((n, v@)),
            None => spec_counted::<T>(s@) is None,
        },
{
    let n = read_u32(s, 0, Endian::Little)?;
    let v = read_records::<T>(s, 4, n as usize, Endian::Little)?;
    Some((n, v))
}

/// What the collision form's chunks have given so far: the vertices and the
/// triangles.
pub type CollisionView = (Option<(u32, Seq<CVector3f>)>, Option<(u32, Seq<CIndexedTriangle>)>);

/// One chunk of the collision form: a VERT chunk gives the vertices, a TRIS chunk
/// the triangles, each in place of an earlier one; other chunks are passed over.
#[verifier::opaque]
pub open spec fn collision_item(st: CollisionView, h: ChunkDescriptor, b: Seq<u8>) -> Result<CollisionView, FormatError> {
    let id = four_cc_value(h.id.0);
    if id == K_CHUNK_VERT {
        match spec_counted::<CVector3f>(b) {
            Some(x) => Ok((Some(x), st.1)),
            None => Err(FormatError::InvalidData),
        }
    } else if id == K_CHUNK_TRIS {
        match spec_counted::<CIndexedTriangle>(b) {
            Some(x) => Ok((st.0, Some(x))),
            None => Err(FormatError::InvalidData),
        }
    } else {
        Ok(st)
    }
}

pub open spec fn collision_step() -> spec_fn(CollisionView, ChunkDescriptor, Seq<u8>) -> Result<CollisionView, FormatError> {
    |st: CollisionView, h: ChunkDescriptor, b: Seq<u8>| collision_item(st, h, b)
}

/// The versions that the collision form `h` must have, where it is one of the two
/// collision forms (any other form is read as it is).
pub open spec fn collision_versions_ok(h: FormDescriptor) -> bool {
    let id = four_cc_value(h.id.0);
    &&& id == K_FORM_DCLN ==> h.reader_version == K_DCLN_READER_VERSION && h.writer_version == K_DCLN_WRITER_VERSION
    &&& id == K_FORM_CLSN ==> h.reader_version == K_CLSN_READER_VERSION && h.writer_version == K_CLSN_WRITER_VERSION
}

/// The collision resource `data` (little-endian): the collision form (see
/// `collision_versions_ok`), then the footer form (FOOT, versions 1 and 1) with
/// nothing after it, then the collision form's chunks (see `collision_item`).
pub open spec fn spec_collision(data: Seq<u8>) -> Result<CollisionView, FormatError> {
    match spec_form_slice(data, Endian::Little) {
        Err(x) => Err(x),
        Ok((h, body, rest)) => if !collision_versions_ok(h) {
            Err(FormatError::UnexpectedForm)
        } else {
            match spec_form_slice(rest, Endian::Little) {
                Err(x) => Err(x),
                Ok((foot, _, tail)) => if four_cc_value(foot.id.0) != K_FORM_FOOT || foot.reader_version != 1
                    || foot.writer_version != 1 {
                    Err(FormatError::UnexpectedForm)
                } else if tail.len() != 0 {
                    Err(FormatError::TrailingData)
                } else {
                    walk_chunk_seq(body, Endian::Little, (None, None), collision_step())
                },
            }
        },
    }
}

/// Every form and chunk that reading the collision resource `data` reaches lies
/// inside its bytes.
pub open spec fn collision_fits(data: Seq<u8>) -> bool {
    &&& form_fits(data, Endian::Little)
    &&& (spec_form_slice(data, Endian::Little) matches Ok((h, body, rest)) ==> (collision_versions_ok(h) ==> {
        &&& form_fits(rest, Endian::Little)
        &&& chunk_seq_fits(body, Endian::Little)
    }))
}

/// The vertices and triangles of a collision resource, where it has them.
#[derive(Clone, Debug)]
pub struct CollisionData {
    pub vertices: Option<Vertices>,
    pub triangles: Option<Triangles>,
}

pub open spec fn collision_view(c: CollisionData) -> CollisionView {
    (
        match c.vertices {
            Some(v) => Some((v.count, v.vertices@)),
            None => None,
        },
        match c.triangles {
            Some(t) => Some((t.count, t.triangles@)),
            None => None,
        },
    )
}

/// Reads one chunk of the collision form (see `collision_item`).
fn read_collision_item(c: CollisionData, ch: ChunkDescriptor, b: &[u8]) -> (r: Result<CollisionData, FormatError>)
    ensures
        match r {
            Ok(x) => collision_item(collision_view(c), ch, b@) == Ok::<_, FormatError>(collision_view(x)),
            Err(x) => collision_item(collision_view(c), ch, b@) == Err::<CollisionView, _>(x),
        },
{
    proof {
        reveal(collision_item);
    }
    let mut c = c;
    let cid = ch.id.as_u32();
    if cid == K_CHUNK_VERT {
        match read_counted::<CVector3f>(b) {
            Some((count, vertices)) => {
                c.vertices = Some(Vertices { count, vertices });
            },
            None => {
                return Err(FormatError::InvalidData);
            },
        }
    } else if cid == K_CHUNK_TRIS {
        match read_counted::<CIndexedTriangle>(b) {
            Some((count, triangles)) => {
                c.triangles = Some(Triangles { count, triangles });
            },
            None => {
                return Err(FormatError::InvalidData);
            },
        }
    }
    Ok(c)
}

impl CollisionData {
    /// Reads the collision resource `data` (see `spec_collision`).
    pub fn slice(data: &[u8]) -> (r: Result<CollisionData, FormatError>)
        requires
            collision_fits(data@),
        ensures
            match r {
                Ok(c) => spec_collision(data@) == Ok::<_, FormatError>(collision_view(c)),
                Err(x) => spec_collision(data@) == Err::<CollisionView, _>(x),
            },
    {
        let e = Endian::Little;
        let (h, body, rest) = FormDescriptor::slice(data, e)?;
        let id = h.id.as_u32();
        if id == K_FORM_DCLN && (h.reader_version != K_DCLN_READER_VERSION || h.writer_version != K_DCLN_WRITER_VERSION) {
            return Err(FormatError::UnexpectedForm);
        }
        if id == K_FORM_CLSN && (h.reader_version != K_CLSN_READER_VERSION || h.writer_version != K_CLSN_WRITER_VERSION) {
            return Err(FormatError::UnexpectedForm);
        }
        let (foot, _, tail) = FormDescriptor::slice(rest, e)?;
        if foot.id.as_u32() != K_FORM_FOOT || foot.reader_version != 1 || foot.writer_version != 1 {
            return Err(FormatError::UnexpectedForm);
        }
        if tail.len() != 0 {
            return Err(FormatError::TrailingData);
        }
        let mut c = CollisionData { vertices: None, triangles: None };
        let mut s = body;
        assert(spec_collision(data@) == walk_chunk_seq(s@, e, collision_view(c), collision_step()));
        while s.len() > 0
            invariant
                e == Endian::Little,
                chunk_seq_fits(s@, e),
                spec_collision(data@) == walk_chunk_seq(s@, e, collision_view(c), collision_step()),
            decreases s@.len(),
        {
            proof {
                lemma_walk_chunk_seq(s@, e, collision_view(c), collision_step());
            }
            let (ch, b, remain) = ChunkDescriptor::slice(s, e)?;
            if remain.len() >= s.len() {
                return Err(FormatError::InvalidChunkHeader);
            }
            c = read_collision_item(c, ch, b)?;
            s = remain;
        }
        proof {
            lemma_walk_chunk_seq(s@, e, collision_view(c), collision_step());
        }
        Ok(c)
    }
}

/// Whether every form and chunk that reading the collision resource `data` reaches
/// lies inside it (see `collision_fits`).
pub fn collision_fits_check(data: &[u8]) -> (r: bool)
    ensures
        r == collision_fits(data@),
{
    let e = Endian::Little;
    if !form_fits_check(data, e) {
        return false;
    }
    match FormDescriptor::slice(data, e) {
        Err(_) => true,
        Ok((h, body, rest)) => {
            let id = h.id.as_u32();
            let versions_ok = (id != K_FORM_DCLN || (h.reader_version == K_DCLN_READER_VERSION
                && h.writer_version == K_DCLN_WRITER_VERSION)) && (id != K_FORM_CLSN || (h.reader_version
                == K_CLSN_READER_VERSION && h.writer_version == K_CLSN_WRITER_VERSION));
            !versions_ok || (form_fits_check(rest, e) && chunk_seq_fits_check(body, e))
        },
    }
}

} // verus!

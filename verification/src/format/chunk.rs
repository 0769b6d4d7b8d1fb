//! Chunk headers inside a resource form.
use vstd::prelude::*;
use crate::format::{FourCC, four_cc_at, spec_four_cc_at, FormatError};
use crate::util::read::{Endian, read_u32, read_u64, spec_u32, spec_u64};
use crate::util::write::{
    lemma_u32_bytes_round_trip, lemma_u64_bytes_round_trip, push_bytes, push_u32, push_u64,
    spec_u32_bytes, spec_u64_bytes,
};

verus! {

/// Size in bytes of a chunk header.
pub const CHUNK_HEADER_SIZE: usize = 24;

/// Header of a chunk: its code, the size of its data, an unknown word and the
/// number of bytes between the header and the data.
#[derive(Copy, Clone, Debug, Default)]
pub struct ChunkDescriptor {
    pub id: FourCC,
    pub size: u64,
    pub unk: u32,
    pub skip: u64,
}

/// The chunk header stored at the start of `s`.
pub open spec fn spec_chunk_header(s: Seq<u8>, e: Endian) -> ChunkDescriptor {
    ChunkDescriptor {
        id: spec_four_cc_at(s, 0),
        size: spec_u64(s, 4, e) as u64,
        unk: spec_u32(s, 12, e) as u32,
        skip: spec_u64(s, 16, e) as u64,
    }
}

/// Offset of the chunk's data from the start of its header.
pub open spec fn spec_chunk_data_start(h: ChunkDescriptor) -> int {
    CHUNK_HEADER_SIZE + h.skip
}

/// Offset of the end of the chunk's data from the start of its header.
pub open spec fn spec_chunk_end(h: ChunkDescriptor) -> int {
    CHUNK_HEADER_SIZE + h.skip + h.size
}

/// The data of a chunk whose header is complete lies inside `s`.
pub open spec fn chunk_fits(s: Seq<u8>, e: Endian) -> bool {
    s.len() >= CHUNK_HEADER_SIZE ==> spec_chunk_end(spec_chunk_header(s, e)) <= s.len()
}

/// Whether the chunk at the start of `data` lies inside it (see `chunk_fits`).
pub fn chunk_fits_check(data: &[u8], e: Endian) -> (r: bool)
    ensures
        r == chunk_fits(data@, e),
{
    if data.len() < CHUNK_HEADER_SIZE {
        return true;
    }
    let size = read_u64(data, 4, e).unwrap();
    let skip = read_u64(data, 16, e).unwrap();
    let room = (data.len() - CHUNK_HEADER_SIZE) as u64;
    skip <= room && size <= room - skip
}

/// Splitting `s` into the chunk header at its start, the chunk's data and what
/// follows the chunk.
pub open spec fn spec_chunk_slice(s: Seq<u8>, e: Endian) -> Result<
    (ChunkDescriptor, Seq<u8>, Seq<u8>),
    FormatError,
> {
    if s.len() < CHUNK_HEADER_SIZE {
        Err(FormatError::InvalidChunkHeader)
    } else {
        let h = spec_chunk_header(s, e);
        Ok(
            (
                h,
                s.subrange(spec_chunk_data_start(h), spec_chunk_end(h)),
                s.subrange(spec_chunk_end(h), s.len() as int),
            ),
        )
    }
}

/// The view of a split chunk.
pub open spec fn chunk_slice_view(r: Result<(ChunkDescriptor, &[u8], &[u8]), FormatError>) -> Result<
    (ChunkDescriptor, Seq<u8>, Seq<u8>),
    FormatError,
> {
    match r {
        Ok((h, body, rest)) => Ok((h, body@, rest@)),
        Err(e) => Err(e),
    }
}

impl ChunkDescriptor {
    /// Splits `data` into the chunk header at its start, the chunk's data and
    /// what follows the chunk.
    pub fn slice(data: &[u8], e: Endian) -> (r: Result<(ChunkDescriptor, &[u8], &[u8]), FormatError>)
        requires
            chunk_fits(data@, e),
        ensures
            chunk_slice_view(r) == spec_chunk_slice(data@, e),
    {
        if data.len() < CHUNK_HEADER_SIZE {
            return Err(FormatError::InvalidChunkHeader);
        }
        let header = ChunkDescriptor {
            id: four_cc_at(data, 0),
            size: read_u64(data, 4, e).unwrap(),
            unk: read_u32(data, 12, e).unwrap(),
            skip: read_u64(data, 16, e).unwrap(),
        };
        let start = CHUNK_HEADER_SIZE + header.skip as usize;
        let end = start + header.size as usize;
        Ok((header, &data[start..end], &data[end..data.len()]))
    }
}

/// The 24 bytes of the chunk header `h`.
pub open spec fn spec_chunk_header_bytes(h: ChunkDescriptor, e: Endian) -> Seq<u8> {
    h.id.0@ + spec_u64_bytes(h.size as int, e) + spec_u32_bytes(h.unk as int, e) + spec_u64_bytes(
        h.skip as int,
        e,
    )
}

/// The bytes of a chunk written with header `h` and data `body`: the header with the
/// data's size, `h.skip` zero bytes, the data.
pub open spec fn spec_chunk_bytes(h: ChunkDescriptor, body: Seq<u8>, e: Endian) -> Seq<u8> {
    spec_chunk_header_bytes(ChunkDescriptor { size: body.len() as u64, ..h }, e) + Seq::new(
        h.skip as nat,
        |i: int| 0u8,
    ) + body
}

impl ChunkDescriptor {
    /// Appends the chunk: its header, carrying the size of `body`, `skip` zero bytes,
    /// then `body`.
    pub fn write(&self, w: &mut Vec<u8>, body: &[u8], e: Endian)
        requires
            self.skip <= usize::MAX,
        ensures
            final(w)@ == old(w)@ + spec_chunk_bytes(*self, body@, e),
    {
        let size = body.len() as u64;
        push_bytes(w, &self.id.0);
        push_u64(w, size, e);
        push_u32(w, self.unk, e);
        push_u64(w, self.skip, e);
        let gap: Vec<u8> = vec![0u8; self.skip as usize];
        push_bytes(w, gap.as_slice());
        push_bytes(w, body);
        assert(gap@ =~= Seq::new(self.skip as nat, |i: int| 0u8));
        assert(w@ =~= old(w)@ + spec_chunk_bytes(*self, body@, e));
    }
}

proof fn lemma_chunk_header_bytes(h: ChunkDescriptor, e: Endian)
    ensures
        spec_chunk_header_bytes(h, e).len() == 24,
        spec_chunk_header(spec_chunk_header_bytes(h, e), e) == h,
{
    let hb = spec_chunk_header_bytes(h, e);
    assert(hb.subrange(4, 12) =~= spec_u64_bytes(h.size as int, e));
    assert(hb.subrange(12, 16) =~= spec_u32_bytes(h.unk as int, e));
    assert(hb.subrange(16, 24) =~= spec_u64_bytes(h.skip as int, e));
    lemma_u64_bytes_round_trip(h.size as int, e, hb, 4);
    lemma_u32_bytes_round_trip(h.unk as int, e, hb, 12);
    lemma_u64_bytes_round_trip(h.skip as int, e, hb, 16);
    assert(spec_chunk_header(hb, e).id.0 =~= h.id.0);
}

/// Reading a chunk written with header `h` and data `body` from the start of its
/// bytes gives back `h` (with the data's size), `body` and what follows.
#[verifier::rlimit(30)]
pub proof fn lemma_chunk_write_slice(h: ChunkDescriptor, body: Seq<u8>, rest: Seq<u8>, e: Endian)
    requires
        body.len() <= u64::MAX,
    ensures
        chunk_fits(spec_chunk_bytes(h, body, e) + rest, e),
        spec_chunk_slice(spec_chunk_bytes(h, body, e) + rest, e) == Ok::<
            (ChunkDescriptor, Seq<u8>, Seq<u8>),
            FormatError,
        >((ChunkDescriptor { size: body.len() as u64, ..h }, body, rest)),
{
    let h2 = ChunkDescriptor { size: body.len() as u64, ..h };
    let hb = spec_chunk_header_bytes(h2, e);
    let s = spec_chunk_bytes(h, body, e) + rest;
    lemma_chunk_header_bytes(h2, e);
    assert forall|k: int| 0 <= k < 24 implies #[trigger] s[k] == hb[k] by {}
    assert(spec_chunk_header(s, e) == spec_chunk_header(hb, e));
    assert(s.subrange(24 + h.skip, 24 + h.skip + body.len()) =~= body);
    assert(s.subrange(24 + h.skip + body.len(), s.len() as int) =~= rest);
}

} // verus!

//! Resource form headers.
use vstd::prelude::*;
use crate::format::{FourCC, four_cc_at, four_cc_value, spec_four_cc_at, FormatError};
use crate::util::read::{Endian, read_u32, read_u64, spec_u32, spec_u64};
use crate::util::write::{
    lemma_u32_bytes_round_trip, lemma_u64_bytes_round_trip, push_bytes, push_u32, push_u64,
    spec_u32_bytes, spec_u64_bytes,
};

verus! {

/// Size in bytes of a form header.
pub const FORM_HEADER_SIZE: usize = 32;

/// Magic of every form header.
pub const K_CHUNK_RFRM: u32 = 0x5246_524D;

/// Header of a resource form: the magic, the size of its data, an unknown word,
/// the form's code and the versions of its reader and writer.
#[derive(Copy, Clone, Debug)]
pub struct FormDescriptor {
    pub magic: FourCC,
    pub size: u64,
    pub unk: u64,
    pub id: FourCC,
    pub reader_version: u32,
    pub writer_version: u32,
}

/// The form header stored at the start of `s`.
pub open spec fn spec_form_header(s: Seq<u8>, e: Endian) -> FormDescriptor {
    FormDescriptor {
        magic: spec_four_cc_at(s, 0),
        size: spec_u64(s, 4, e) as u64,
        unk: spec_u64(s, 12, e) as u64,
        id: spec_four_cc_at(s, 20),
        reader_version: spec_u32(s, 24, e) as u32,
        writer_version: spec_u32(s, 28, e) as u32,
    }
}

/// Offset of the end of the form's data from the start of its header.
pub open spec fn spec_form_end(h: FormDescriptor) -> int {
    FORM_HEADER_SIZE + h.size
}

/// A complete form header that carries the magic announces data that lies inside `s`.
pub open spec fn form_fits(s: Seq<u8>, e: Endian) -> bool {
    (s.len() >= FORM_HEADER_SIZE && four_cc_value(spec_form_header(s, e).magic.0) == K_CHUNK_RFRM) ==> spec_form_end(
        spec_form_header(s, e),
    ) <= s.len()
}

/// Splitting `s` into the form header at its start, the form's data and what
/// follows the form.
pub open spec fn spec_form_slice(s: Seq<u8>, e: Endian) -> Result<
    (FormDescriptor, Seq<u8>, Seq<u8>),
    FormatError,
> {
    if s.len() < FORM_HEADER_SIZE {
        Err(FormatError::InvalidFormHeader)
    } else {
        let h = spec_form_header(s, e);
        if four_cc_value(h.magic.0) != K_CHUNK_RFRM {
            Err(FormatError::BadMagic)
        } else {
            Ok(
                (
                    h,
                    s.subrange(FORM_HEADER_SIZE as int, spec_form_end(h)),
                    s.subrange(spec_form_end(h), s.len() as int),
                ),
            )
        }
    }
}

/// The view of a split form.
pub open spec fn form_slice_view(r: Result<(FormDescriptor, &[u8], &[u8]), FormatError>) -> Result<
    (FormDescriptor, Seq<u8>, Seq<u8>),
    FormatError,
> {
    match r {
        Ok((h, body, rest)) => Ok((h, body@, rest@)),
        Err(e) => Err(e),
    }
}

impl FormDescriptor {
    /// Splits `data` into the form header at its start, the form's data and what
    /// follows the form.
    pub fn slice(data: &[u8], e: Endian) -> (r: Result<(FormDescriptor, &[u8], &[u8]), FormatError>)
        requires
            form_fits(data@, e),
        ensures
            form_slice_view(r) == spec_form_slice(data@, e),
    {
        if data.len() < FORM_HEADER_SIZE {
            return Err(FormatError::InvalidFormHeader);
        }
        let header = FormDescriptor {
            magic: four_cc_at(data, 0),
            size: read_u64(data, 4, e).unwrap(),
            unk: read_u64(data, 12, e).unwrap(),
            id: four_cc_at(data, 20),
            reader_version: read_u32(data, 24, e).unwrap(),
            writer_version: read_u32(data, 28, e).unwrap(),
        };
        if header.magic.as_u32() != K_CHUNK_RFRM {
            return Err(FormatError::BadMagic);
        }
        let end = FORM_HEADER_SIZE + header.size as usize;
        Ok((header, &data[FORM_HEADER_SIZE..end], &data[end..data.len()]))
    }
}

/// The 32 bytes of the form header `h`.
#[verifier::opaque]
pub open spec fn spec_form_header_bytes(h: FormDescriptor, e: Endian) -> Seq<u8> {
    h.magic.0@ + spec_u64_bytes(h.size as int, e) + spec_u64_bytes(h.unk as int, e) + h.id.0@
        + spec_u32_bytes(h.reader_version as int, e) + spec_u32_bytes(h.writer_version as int, e)
}

/// `h` with the size of a form data of `n` bytes.
pub open spec fn with_size(h: FormDescriptor, n: int) -> FormDescriptor {
    FormDescriptor { size: n as u64, ..h }
}

impl FormDescriptor {
    /// Appends the form: its header, carrying the size of `body`, then `body`.
    pub fn write(&self, w: &mut Vec<u8>, body: &[u8], e: Endian)
        ensures
            final(w)@ == old(w)@ + spec_form_header_bytes(with_size(*self, body@.len() as int), e)
                + body@,
    {
        let size = body.len() as u64;
        proof {
            reveal(spec_form_header_bytes);
        }
        push_bytes(w, &self.magic.0);
        push_u64(w, size, e);
        push_u64(w, self.unk, e);
        push_bytes(w, &self.id.0);
        push_u32(w, self.reader_version, e);
        push_u32(w, self.writer_version, e);
        push_bytes(w, body);
        assert(w@ =~= old(w)@ + spec_form_header_bytes(with_size(*self, body@.len() as int), e) + body@);
    }
}

proof fn lemma_form_header_bytes(h: FormDescriptor, e: Endian)
    ensures
        spec_form_header_bytes(h, e).len() == 32,
        spec_form_header(spec_form_header_bytes(h, e), e) == h,
{
    reveal(spec_form_header_bytes);
    let hb = spec_form_header_bytes(h, e);
    assert(hb.subrange(4, 12) =~= spec_u64_bytes(h.size as int, e));
    assert(hb.subrange(12, 20) =~= spec_u64_bytes(h.unk as int, e));
    assert(hb.subrange(24, 28) =~= spec_u32_bytes(h.reader_version as int, e));
    assert(hb.subrange(28, 32) =~= spec_u32_bytes(h.writer_version as int, e));
    lemma_u64_bytes_round_trip(h.size as int, e, hb, 4);
    lemma_u64_bytes_round_trip(h.unk as int, e, hb, 12);
    lemma_u32_bytes_round_trip(h.reader_version as int, e, hb, 24);
    lemma_u32_bytes_round_trip(h.writer_version as int, e, hb, 28);
    assert(spec_form_header(hb, e).magic.0 =~= h.magic.0);
    assert(spec_form_header(hb, e).id.0 =~= h.id.0);
}

/// Reading a form written with header `h` (carrying the RFRM magic and the size of
/// `body`) from the start of its bytes gives back `h`, `body` and what follows.
#[verifier::rlimit(30)]
pub proof fn lemma_form_write_slice(h: FormDescriptor, body: Seq<u8>, rest: Seq<u8>, e: Endian)
    requires
        four_cc_value(h.magic.0) == K_CHUNK_RFRM,
        h.size == body.len(),
    ensures
        form_fits(spec_form_header_bytes(h, e) + body + rest, e),
        spec_form_slice(spec_form_header_bytes(h, e) + body + rest, e) == Ok::<
            (FormDescriptor, Seq<u8>, Seq<u8>),
            FormatError,
        >((h, body, rest)),
{
    let hb = spec_form_header_bytes(h, e);
    let s = hb + body + rest;
    lemma_form_header_bytes(h, e);
    assert forall|k: int| 0 <= k < 32 implies #[trigger] s[k] == hb[k] by {}
    assert(spec_form_header(s, e) == spec_form_header(hb, e));
    assert(s.subrange(32, 32 + h.size) =~= body);
    assert(s.subrange(32 + h.size, s.len() as int) =~= rest);
}

/// Whether the form at the start of `data` lies inside it (see `form_fits`).
pub fn form_fits_check(data: &[u8], e: Endian) -> (r: bool)
    ensures
        r == form_fits(data@, e),
{
    if data.len() < FORM_HEADER_SIZE || four_cc_at(data, 0).as_u32() != K_CHUNK_RFRM {
        return true;
    }
    let size = read_u64(data, 4, e).unwrap();
    size <= (data.len() - FORM_HEADER_SIZE) as u64
}

impl Default for FormDescriptor {
    /// An empty form header: the RFRM magic, everything else zero.
    fn default() -> (r: Self)
        ensures
            four_cc_value(r.magic.0) == K_CHUNK_RFRM,
            r.size == 0 && r.unk == 0 && r.reader_version == 0 && r.writer_version == 0,
            r.id.0@ == seq![0u8, 0u8, 0u8, 0u8],
    {
        let r = FormDescriptor {
            magic: FourCC([0x52, 0x46, 0x52, 0x4D]),
            size: 0,
            unk: 0,
            id: FourCC([0, 0, 0, 0]),
            reader_version: 0,
            writer_version: 0,
        };
        assert(r.id.0@ =~= seq![0u8, 0u8, 0u8, 0u8]);
        r
    }
}

} // verus!

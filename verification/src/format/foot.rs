//! The footer form that extracted resources carry after their own form.
use vstd::prelude::*;
use crate::format::{four_cc_value, FormatError};
use crate::format::chunk::{
    ChunkDescriptor, chunk_fits, chunk_fits_check, chunk_slice_view, spec_chunk_end, spec_chunk_header,
    spec_chunk_slice, CHUNK_HEADER_SIZE,
};
use crate::format::rfrm::{FormDescriptor, form_fits, form_fits_check, spec_form_slice};
use crate::format::pack::{read_uuid, spec_uuid_at};
use crate::util::read::Endian;

verus! {

/// Code of the footer form.
pub const K_FORM_FOOT: u32 = 0x464F_4F54;

/// Code of the asset information chunk.
pub const K_CHUNK_AINF: u32 = 0x4149_4E46;

/// Code of the asset name chunk.
pub const K_CHUNK_NAME: u32 = 0x4E41_4D45;

/// Code of the metadata chunk.
pub const K_CHUNK_META: u32 = 0x4D45_5441;

/// The data of the first chunk with code `id` in the chunk sequence `s`.
pub open spec fn spec_locate_chunk(s: Seq<u8>, e: Endian, id: u32) -> Result<Seq<u8>, FormatError>
    decreases s.len(),
{
    if s.len() == 0 {
        Err(FormatError::MissingChunk(id))
    } else if s.len() < CHUNK_HEADER_SIZE {
        Err(FormatError::InvalidChunkHeader)
    } else {
        let h = spec_chunk_header(s, e);
        if spec_chunk_end(h) > s.len() {
            Err(FormatError::InvalidChunkHeader)
        } else if four_cc_value(h.id.0) == id {
            Ok(spec_chunk_slice(s, e)->Ok_0.1)
        } else {
            spec_locate_chunk(s.subrange(spec_chunk_end(h), s.len() as int), e, id)
        }
    }
}

/// Every chunk that the search for `id` in `s` reads lies inside `s`.
pub open spec fn chunks_fit_until(s: Seq<u8>, e: Endian, id: u32) -> bool
    decreases s.len(),
{
    if s.len() < CHUNK_HEADER_SIZE {
        true
    } else {
        let h = spec_chunk_header(s, e);
        &&& spec_chunk_end(h) <= s.len()
        &&& (four_cc_value(h.id.0) != id ==> chunks_fit_until(
            s.subrange(spec_chunk_end(h), s.len() as int),
            e,
            id,
        ))
    }
}

/// The view of a located chunk.
pub open spec fn located_view(r: Result<&[u8], FormatError>) -> Result<Seq<u8>, FormatError> {
    match r {
        Ok(b) => Ok(b@),
        Err(e) => Err(e),
    }
}

/// The data of the first chunk with code `id` in the chunk sequence `data`.
fn locate_chunk(data: &[u8], e: Endian, id: u32) -> (r: Result<&[u8], FormatError>)
    requires
        chunks_fit_until(data@, e, id),
    ensures
        located_view(r) == spec_locate_chunk(data@, e, id),
{
    let mut rest = data;
    while rest.len() > 0
        invariant
            chunks_fit_until(rest@, e, id),
            spec_locate_chunk(rest@, e, id) == spec_locate_chunk(data@, e, id),
        decreases rest@.len(),
    {
        let (desc, body, remain) = ChunkDescriptor::slice(rest, e)?;
        if desc.id.as_u32() == id {
            return Ok(body);
        }
        rest = remain;
    }
    Err(FormatError::MissingChunk(id))
}

/// The chunk sequence inside the footer form that follows the resource form in `s`.
pub open spec fn spec_foot_body(s: Seq<u8>, e: Endian) -> Result<Seq<u8>, FormatError> {
    match spec_form_slice(s, e) {
        Err(x) => Err(x),
        Ok((_, _, rest)) => match spec_form_slice(rest, e) {
            Err(x) => Err(x),
            Ok((foot, body, tail)) => if four_cc_value(foot.id.0) != K_FORM_FOOT
                || foot.reader_version != 1 || foot.writer_version != 1 {
                Err(FormatError::UnexpectedForm)
            } else if tail.len() != 0 {
                Err(FormatError::TrailingData)
            } else {
                Ok(body)
            },
        },
    }
}

/// Both forms of an extracted resource, and the chunks that a search for `id`
/// reads in its footer, lie inside `s`.
pub open spec fn foot_fits(s: Seq<u8>, e: Endian, id: u32) -> bool {
    &&& form_fits(s, e)
    &&& (spec_form_slice(s, e) matches Ok((_, _, rest)) ==> form_fits(rest, e))
    &&& (spec_foot_body(s, e) matches Ok(body) ==> chunks_fit_until(body, e, id))
}

/// Result of a search for chunk `id` in the footer of an extracted resource.
pub open spec fn spec_locate_in_foot(s: Seq<u8>, e: Endian, id: u32) -> Result<Seq<u8>, FormatError> {
    match spec_foot_body(s, e) {
        Err(x) => Err(x),
        Ok(body) => spec_locate_chunk(body, e, id),
    }
}

fn foot_body(file_data: &[u8], e: Endian) -> (r: Result<&[u8], FormatError>)
    requires
        form_fits(file_data@, e),
        spec_form_slice(file_data@, e) matches Ok((_, _, rest)) ==> form_fits(rest, e),
    ensures
        located_view(r) == spec_foot_body(file_data@, e),
{
    let (_, _, remain) = FormDescriptor::slice(file_data, e)?;
    let (foot_desc, foot_data, remain) = FormDescriptor::slice(remain, e)?;
    if foot_desc.id.as_u32() != K_FORM_FOOT || foot_desc.reader_version != 1
        || foot_desc.writer_version != 1 {
        return Err(FormatError::UnexpectedForm);
    }
    if remain.len() != 0 {
        return Err(FormatError::TrailingData);
    }
    Ok(foot_data)
}

/// Locates the metadata chunk in the footer of an extracted resource.
pub fn locate_meta(file_data: &[u8], e: Endian) -> (r: Result<&[u8], FormatError>)
    requires
        foot_fits(file_data@, e, K_CHUNK_META),
    ensures
        located_view(r) == spec_locate_in_foot(file_data@, e, K_CHUNK_META),
{
    let foot_data = foot_body(file_data, e)?;
    locate_chunk(foot_data, e, K_CHUNK_META)
}

/// The asset ID in the footer of an extracted resource: the first 16 bytes of the
/// asset information chunk, a little-endian UUID; the chunk must hold a whole asset
/// information record (28 bytes).
pub open spec fn spec_asset_id_in_foot(s: Seq<u8>, e: Endian) -> Result<u128, FormatError> {
    match spec_locate_in_foot(s, e, K_CHUNK_AINF) {
        Err(x) => Err(x),
        Ok(body) => if body.len() < 28 {
            Err(FormatError::InvalidData)
        } else {
            Ok(spec_uuid_at(body, 0, Endian::Little))
        },
    }
}

/// Locates the asset ID in the footer of an extracted resource.
pub fn locate_asset_id(file_data: &[u8], e: Endian) -> (r: Result<u128, FormatError>)
    requires
        foot_fits(file_data@, e, K_CHUNK_AINF),
    ensures
        r == spec_asset_id_in_foot(file_data@, e),
{
    let foot_data = foot_body(file_data, e)?;
    let data = locate_chunk(foot_data, e, K_CHUNK_AINF)?;
    if data.len() < 28 {
        return Err(FormatError::InvalidData);
    }
    Ok(read_uuid(data, 0, Endian::Little))
}

/// Whether every chunk that the search for `id` in `data` reads lies inside it (see
/// `chunks_fit_until`).
pub fn chunks_fit_until_check(data: &[u8], e: Endian, id: u32) -> (r: bool)
    ensures
        r == chunks_fit_until(data@, e, id),
{
    let mut s = data;
    while s.len() >= CHUNK_HEADER_SIZE
        invariant
            chunks_fit_until(data@, e, id) == chunks_fit_until(s@, e, id),
        decreases s@.len(),
    {
        if !chunk_fits_check(s, e) {
            return false;
        }
        let (h, _, rest) = ChunkDescriptor::slice(s, e).unwrap();
        proof {
            assert(rest@ == s@.subrange(spec_chunk_end(h), s@.len() as int));
        }
        if h.id.as_u32() == id {
            return true;
        }
        s = rest;
    }
    true
}

/// Whether both forms of the extracted resource `data`, and the chunks that a search
/// for `id` reads in its footer, lie inside it (see `foot_fits`).
pub fn foot_fits_check(data: &[u8], e: Endian, id: u32) -> (r: bool)
    ensures
        r == foot_fits(data@, e, id),
{
    if !form_fits_check(data, e) {
        return false;
    }
    let rest = match FormDescriptor::slice(data, e) {
        Ok((_, _, rest)) => rest,
        Err(_) => {
            return true;
        },
    };
    if !form_fits_check(rest, e) {
        return false;
    }
    match foot_body(data, e) {
        Ok(body) => chunks_fit_until_check(body, e, id),
        Err(_) => true,
    }
}

} // verus!

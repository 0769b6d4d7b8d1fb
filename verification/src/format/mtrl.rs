//! Material resources: an MTRL form whose material data is stored zlib-compressed at
//! a place given by the resource's metadata.
use vstd::prelude::*;
use crate::format::{FormatError, four_cc_value};
use crate::format::rfrm::{FormDescriptor, form_fits, form_slice_view, spec_form_slice};
use crate::util::read::{Endian, read_u32, spec_u32};

verus! {

/// Code of the material form.
pub const K_FORM_MTRL: u32 = 0x4D54_524C;

/// The bytes that a zlib stream read from the start of `data` gives when exactly
/// `size` bytes are asked of it with `flate2::bufread::ZlibDecoder` and `read_exact`,
/// or `None` when the stream fails or ends before.
pub uninterp spec fn zlib_read_exact(data: Seq<u8>, size: nat) -> Option<Seq<u8>>;

/// Reads exactly `size` bytes from a `flate2::bufread::ZlibDecoder` over `data`
/// (`std::io::Read::read_exact`); the bytes, or failure, are named by `zlib_read_exact`,
/// and on success there are `size` of them.
#[verifier::external_body]
fn inflate_exact(data: &[u8], size: usize) -> (r: Option<Vec<u8>>)
    ensures
        r matches Some(v) ==> v@.len() == size && zlib_read_exact(data@, size as nat) == Some(v@),
        r is None ==> zlib_read_exact(data@, size as nat) is None,
{
    let mut out = vec![0u8; size];
    match std::io::Read::read_exact(&mut flate2::bufread::ZlibDecoder::new(data), &mut out) {
        Ok(()) => Some(out),
        Err(_) => None,
    }
}

/// A material: its decompressed data.
#[derive(Clone, Debug)]
pub struct MaterialData {
    pub decompressed: Vec<u8>,
}

/// The metadata fields that place the compressed material: compressed size,
/// decompressed size and offset in the resource (little-endian, after two unknown words).
pub open spec fn spec_material_meta(meta: Seq<u8>) -> (int, int, int) {
    (spec_u32(meta, 8, Endian::Little), spec_u32(meta, 12, Endian::Little), spec_u32(meta, 16, Endian::Little))
}

/// The material of the resource `data` with metadata `meta`.
pub open spec fn spec_material(data: Seq<u8>, meta: Seq<u8>, e: Endian) -> Result<Seq<u8>, FormatError> {
    match spec_form_slice(data, e) {
        Err(x) => Err(x),
        Ok((h, _, _)) => if four_cc_value(h.id.0) != K_FORM_MTRL || h.reader_version != 168
            || h.writer_version != 168 {
            Err(FormatError::UnexpectedForm)
        } else if meta.len() < 20 {
            Err(FormatError::InvalidData)
        } else {
            let (compressed, size, offset) = spec_material_meta(meta);
            match zlib_read_exact(data.subrange(offset, offset + compressed), size as nat) {
                Some(bytes) => Ok(bytes),
                None => Err(FormatError::InvalidData),
            }
        },
    }
}

/// The form lies inside `data`, and where the form checks out, the compressed
/// material that the metadata places lies inside it too, its end within 32 bits.
pub open spec fn material_fits(data: Seq<u8>, meta: Seq<u8>, e: Endian) -> bool {
    &&& form_fits(data, e)
    &&& (spec_form_slice(data, e) matches Ok((h, _, _)) && four_cc_value(h.id.0) == K_FORM_MTRL
        && h.reader_version == 168 && h.writer_version == 168 && meta.len() >= 20) ==> {
        let (compressed, size, offset) = spec_material_meta(meta);
        offset + compressed <= u32::MAX && offset + compressed <= data.len()
    }
}

pub open spec fn material_view(r: Result<MaterialData, FormatError>) -> Result<Seq<u8>, FormatError> {
    match r {
        Ok(m) => Ok(m.decompressed@),
        Err(e) => Err(e),
    }
}

impl MaterialData {
    /// Reads the material resource `data` (an MTRL form, versions 168 and 168) with its
    /// metadata `meta`: inflates `decompressed_size` bytes from the zlib stream that
    /// the metadata places in `data`.
    pub fn slice(data: &[u8], meta: &[u8], e: Endian) -> (r: Result<MaterialData, FormatError>)
        requires
            material_fits(data@, meta@, e),
        ensures
            material_view(r) == spec_material(data@, meta@, e),
    {
        let (h, _, _) = FormDescriptor::slice(data, e)?;
        if h.id.as_u32() != K_FORM_MTRL || h.reader_version != 168 || h.writer_version != 168 {
            return Err(FormatError::UnexpectedForm);
        }
        if meta.len() < 20 {
            return Err(FormatError::InvalidData);
        }
        let compressed = read_u32(meta, 8, Endian::Little).unwrap();
        let size = read_u32(meta, 12, Endian::Little).unwrap();
        let offset = read_u32(meta, 16, Endian::Little).unwrap();
        let end = offset + compressed;
        match inflate_exact(&data[offset as usize..end as usize], size as usize) {
            Some(decompressed) => Ok(MaterialData { decompressed }),
            None => Err(FormatError::InvalidData),
        }
    }
}

} // verus!

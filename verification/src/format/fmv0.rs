//! Videos (FMV0): the video data held in the form, and putting new video data in
//! place of it.
use vstd::prelude::*;
use crate::format::foot::K_FORM_FOOT;
use crate::format::rfrm::{
    FormDescriptor, K_CHUNK_RFRM, form_fits, form_fits_check, lemma_form_write_slice, spec_form_header_bytes,
    spec_form_slice, with_size,
};
use crate::format::{FormatError, four_cc_value};
use crate::util::read::Endian;

verus! {

/// Code of the video form.
pub const K_FORM_FMV0: u32 = 0x464D_5630;

pub open spec fn bytes_result(r: Result<&[u8], FormatError>) -> Result<Seq<u8>, FormatError> {
    match r {
        Ok(b) => Ok(b@),
        Err(x) => Err(x),
    }
}

/// The video data of the video resource `data`: the body of its form, which must be
/// an FMV0 form.
pub open spec fn spec_fmv0_video(data: Seq<u8>, e: Endian) -> Result<Seq<u8>, FormatError> {
    match spec_form_slice(data, e) {
        Err(x) => Err(x),
        Ok((h, body, _)) => if four_cc_value(h.id.0) != K_FORM_FMV0 {
            Err(FormatError::UnexpectedForm)
        } else {
            Ok(body)
        },
    }
}

/// Takes the video data out of the video resource `data` (see `spec_fmv0_video`).
pub fn fmv0_video(data: &[u8], e: Endian) -> (r: Result<&[u8], FormatError>)
    requires
        form_fits(data@, e),
    ensures
        bytes_result(r) == spec_fmv0_video(data@, e),
{
    let (h, body, _) = FormDescriptor::slice(data, e)?;
    if h.id.as_u32() != K_FORM_FMV0 {
        return Err(FormatError::UnexpectedForm);
    }
    Ok(body)
}

/// The video resource `fmv0` with `video` in place of its video data: its FMV0 form
/// header (with the new size) and `video`, then its footer form (a FOOT form) as it
/// was; what follows the footer is dropped.
pub open spec fn spec_replace_video(fmv0: Seq<u8>, video: Seq<u8>, e: Endian) -> Result<Seq<u8>, FormatError> {
    match spec_form_slice(fmv0, e) {
        Err(x) => Err(x),
        Ok((h, _, rest)) => if four_cc_value(h.id.0) != K_FORM_FMV0 {
            Err(FormatError::UnexpectedForm)
        } else {
            match spec_form_slice(rest, e) {
                Err(x) => Err(x),
                Ok((f, fd, _)) => if four_cc_value(f.id.0) != K_FORM_FOOT {
                    Err(FormatError::UnexpectedForm)
                } else {
                    Ok(
                        spec_form_header_bytes(with_size(h, video.len() as int), e) + video
                            + spec_form_header_bytes(with_size(f, fd.len() as int), e) + fd,
                    )
                },
            }
        },
    }
}

/// Both forms that replacing the video of `fmv0` reads lie inside its bytes.
pub open spec fn replace_fits(fmv0: Seq<u8>, e: Endian) -> bool {
    &&& form_fits(fmv0, e)
    &&& (spec_form_slice(fmv0, e) matches Ok((_, _, rest)) ==> form_fits(rest, e))
}

pub open spec fn vec_result(r: Result<Vec<u8>, FormatError>) -> Result<Seq<u8>, FormatError> {
    match r {
        Ok(b) => Ok(b@),
        Err(x) => Err(x),
    }
}

/// The video resource `fmv0` with `video` in place of its video data (see
/// `spec_replace_video`).
pub fn replace_fmv0_video(fmv0: &[u8], video: &[u8], e: Endian) -> (r: Result<Vec<u8>, FormatError>)
    requires
        replace_fits(fmv0@, e),
    ensures
        vec_result(r) == spec_replace_video(fmv0@, video@, e),
{
    let (h, _, rest) = FormDescriptor::slice(fmv0, e)?;
    if h.id.as_u32() != K_FORM_FMV0 {
        return Err(FormatError::UnexpectedForm);
    }
    let (f, fd, _) = FormDescriptor::slice(rest, e)?;
    if f.id.as_u32() != K_FORM_FOOT {
        return Err(FormatError::UnexpectedForm);
    }
    let mut out: Vec<u8> = Vec::new();
    h.write(&mut out, video, e);
    f.write(&mut out, fd, e);
    assert(out@ =~= spec_form_header_bytes(with_size(h, video@.len() as int), e) + video@
        + spec_form_header_bytes(with_size(f, fd@.len() as int), e) + fd@);
    Ok(out)
}

/// Putting a video in place of another and taking it out again gives the video back.
pub proof fn lemma_replace_then_take(fmv0: Seq<u8>, video: Seq<u8>, e: Endian)
    requires
        spec_replace_video(fmv0, video, e) is Ok,
        video.len() <= u64::MAX,
    ensures
        form_fits(spec_replace_video(fmv0, video, e)->Ok_0, e),
        spec_fmv0_video(spec_replace_video(fmv0, video, e)->Ok_0, e) == Ok::<_, FormatError>(video),
{
    let (h, _, rest) = spec_form_slice(fmv0, e)->Ok_0;
    let (f, fd, _) = spec_form_slice(rest, e)->Ok_0;
    let tail = spec_form_header_bytes(with_size(f, fd.len() as int), e) + fd;
    let hv = with_size(h, video.len() as int);
    assert(four_cc_value(h.magic.0) == K_CHUNK_RFRM);
    lemma_form_write_slice(hv, video, tail, e);
    assert(spec_replace_video(fmv0, video, e)->Ok_0 =~= spec_form_header_bytes(hv, e) + video + tail);
}

/// Putting a video in place of another keeps the footer form: after the new video
/// form comes the footer form of `fmv0`, with the same header and data, and nothing
/// after it.
pub proof fn lemma_replace_keeps_footer(fmv0: Seq<u8>, video: Seq<u8>, e: Endian)
    requires
        replace_fits(fmv0, e),
        spec_replace_video(fmv0, video, e) is Ok,
        video.len() <= u64::MAX,
    ensures
        ({
            let rest = (spec_form_slice(fmv0, e)->Ok_0).2;
            let foot = spec_form_slice(rest, e)->Ok_0;
            let out = spec_replace_video(fmv0, video, e)->Ok_0;
            &&& four_cc_value(foot.0.id.0) == K_FORM_FOOT
            &&& spec_form_slice(out, e) is Ok
            &&& spec_form_slice((spec_form_slice(out, e)->Ok_0).2, e) == Ok::<_, FormatError>(
                (foot.0, foot.1, Seq::<u8>::empty()),
            )
        }),
{
    let (h, _, rest) = spec_form_slice(fmv0, e)->Ok_0;
    let (f, fd, _) = spec_form_slice(rest, e)->Ok_0;
    assert(fd.len() == f.size);
    assert(with_size(f, fd.len() as int) == f);
    let tail = spec_form_header_bytes(f, e) + fd;
    let hv = with_size(h, video.len() as int);
    assert(four_cc_value(h.magic.0) == K_CHUNK_RFRM);
    lemma_form_write_slice(hv, video, tail, e);
    assert(spec_replace_video(fmv0, video, e)->Ok_0 =~= spec_form_header_bytes(hv, e) + video + tail);
    lemma_form_write_slice(f, fd, Seq::<u8>::empty(), e);
    assert(tail + Seq::<u8>::empty() =~= tail);
}

/// Whether both forms that replacing the video of `fmv0` reads lie inside it (see
/// `replace_fits`).
pub fn replace_fits_check(fmv0: &[u8], e: Endian) -> (r: bool)
    ensures
        r == replace_fits(fmv0@, e),
{
    if !form_fits_check(fmv0, e) {
        return false;
    }
    match FormDescriptor::slice(fmv0, e) {
        Ok((_, _, rest)) => form_fits_check(rest, e),
        Err(_) => true,
    }
}

} // verus!

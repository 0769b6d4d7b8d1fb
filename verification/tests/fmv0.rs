use retrolib::format::rfrm::form_fits_check;
use retrolib::format::fmv0::replace_fits_check;
use retrolib::format::fmv0::{fmv0_video, replace_fmv0_video};
use retrolib::format::rfrm::FormDescriptor;
use retrolib::format::{FormatError, FourCC};
use retrolib::util::read::Endian;

const E: Endian = Endian::Little;

fn form(id: &[u8; 4], body: &[u8]) -> Vec<u8> {
    let h = FormDescriptor { magic: FourCC(*b"RFRM"), size: 0, unk: 7, id: FourCC(*id), reader_version: 1, writer_version: 2 };
    let mut out = Vec::new();
    h.write(&mut out, body, E);
    out
}

fn video_resource(video: &[u8]) -> Vec<u8> {
    let mut data = form(b"FMV0", video);
    data.extend(form(b"FOOT", b"footer"));
    data
}

#[test]
fn video_is_the_form_body() {
    let data = video_resource(b"movie");
    assert_eq!(fmv0_video(&data, E).unwrap(), b"movie");
}

#[test]
fn other_form_has_no_video() {
    let data = form(b"TXTR", b"x");
    assert_eq!(fmv0_video(&data, E).unwrap_err(), FormatError::UnexpectedForm);
}

#[test]
fn replaced_video_is_taken_back_and_footer_kept() {
    let data = video_resource(b"old video");
    let out = replace_fmv0_video(&data, b"new", E).unwrap();
    assert_eq!(fmv0_video(&out, E).unwrap(), b"new");
    assert_eq!(out, video_resource(b"new"));
}

#[test]
fn replacing_without_footer_is_refused() {
    let mut data = form(b"FMV0", b"v");
    data.extend(form(b"META", b""));
    assert_eq!(replace_fmv0_video(&data, b"w", E).unwrap_err(), FormatError::UnexpectedForm);
}

#[test]
fn fit_checks_tell_forms_that_run_past_the_end() {
    let data = video_resource(b"movie");
    assert!(form_fits_check(&data, E));
    assert!(replace_fits_check(&data, E));
    let cut = &data[..data.len() - 1];
    assert!(form_fits_check(cut, E));
    assert!(!replace_fits_check(cut, E));
    assert!(!form_fits_check(&data[..36], E));
}

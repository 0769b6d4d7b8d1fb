use retrolib::util::compression::{decompress_buffer, decompress_into, CompressionError};
use retrolib::util::lzss::decompress;

#[test]
fn lzss_mode1_literals() {
    let input = [0x00u8, b'a', b'b', b'c', b'd', b'e', b'f', b'g', b'h'];
    let mut out = [0u8; 8];
    assert!(decompress::<1>(&input, &mut out));
    assert_eq!(&out, b"abcdefgh");
}

#[test]
fn lzss_mode1_back_reference_repeats_output() {
    // Two literals, then a reference to distance 2 repeating 3 units (count 0 + 3).
    let input = [0x20u8, b'x', b'y', 0x00, 0x02];
    let mut out = [0u8; 5];
    assert!(decompress::<1>(&input, &mut out));
    assert_eq!(&out, b"xyxyx");
}

#[test]
fn lzss_mode1_short_output_reports_false() {
    let input = [0x00u8, b'a', b'b'];
    let mut out = [0u8; 3];
    assert!(!decompress::<1>(&input, &mut out));
    assert_eq!(&out[..2], b"ab");
}

#[test]
fn lzss_mode2_literals_are_pairs() {
    let input = [0x00u8, 1, 2, 3, 4];
    let mut out = [0u8; 4];
    assert!(decompress::<2>(&input, &mut out));
    assert_eq!(out, [1, 2, 3, 4]);
}

#[test]
fn stored_mode_copies_payload() {
    let data = [0u8, 0, 0, 0, 9, 8, 7];
    let mut out = [0u8; 3];
    assert_eq!(decompress_into(&data, &mut out), Ok(0));
    assert_eq!(out, [9, 8, 7]);
}

#[test]
fn stored_mode_wrong_size_fails() {
    let data = [0u8, 0, 0, 0, 9, 8, 7];
    let mut out = [0u8; 2];
    assert_eq!(decompress_into(&data, &mut out), Err(CompressionError::DecompressionFailed));
}

#[test]
fn short_buffer_is_invalid_size() {
    let mut out = [0u8; 2];
    assert_eq!(decompress_into(&[1, 2], &mut out), Err(CompressionError::InvalidSize(2)));
    assert_eq!(decompress_buffer(&[1, 2, 3], 4).unwrap_err(), CompressionError::InvalidSize(3));
}

#[test]
fn unknown_mode_is_unsupported() {
    let mut out = [0u8; 2];
    assert_eq!(decompress_into(&[7, 0, 0, 0, 1], &mut out), Err(CompressionError::UnsupportedMode(7)));
}

#[test]
fn lzss_mode_through_decompress_buffer() {
    let data = [1u8, 0, 0, 0, 0x00, b'a', b'b', b'c', b'd', b'e', b'f', b'g', b'h'];
    let (mode, out) = decompress_buffer(&data, 8).unwrap();
    assert_eq!(mode, 1);
    assert_eq!(out, b"abcdefgh".to_vec());
}

#[test]
fn decompress_buffer_stored_ignores_size() {
    let (mode, out) = decompress_buffer(&[0, 0, 0, 0, 5, 6], 100).unwrap();
    assert_eq!(mode, 0);
    assert_eq!(out, vec![5, 6]);
}

#[test]
fn buffer_expansion_is_expansion_into_zeros() {
    let data = [1u8, 0, 0, 0, 0x00, b'a', b'b', b'c', b'd', b'e', b'f', b'g', b'h'];
    let (mode, bytes) = decompress_buffer(&data, 8).unwrap();
    let mut out = vec![0u8; 8];
    assert_eq!(decompress_into(&data, &mut out), Ok(1));
    assert_eq!((mode, bytes.to_vec()), (1, out));
}

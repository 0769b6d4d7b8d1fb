use retrolib::format::texture_image::decompress_image_fits_check;
use retrolib::format::texture_image::{decompress_image, DecodedImage, PixelLayout};
use retrolib::format::txtr::{ETextureFormat, ETextureType};
use retrolib::format::FormatError;
use retrolib::util::bcdec::{bcdec_bc1, bcdec_bc3, bcdec_bc6h_half, bcdec_bc7};
use retrolib::util::dds::to_dxgi_format;

fn bytes_of(img: DecodedImage) -> (PixelLayout, u32, u32, Vec<u8>) {
    match img {
        DecodedImage::Bytes { layout, width, height, data } => (layout, width, height, data),
        DecodedImage::Halves { .. } => panic!("expected a byte image"),
    }
}

#[test]
fn raw_gray_image_keeps_its_bytes() {
    let data = [1u8, 2, 3, 4, 5];
    let img = decompress_image(ETextureFormat::R8Unorm, 2, 2, &data).unwrap();
    assert_eq!(bytes_of(img), (PixelLayout::Luma8, 2, 2, vec![1, 2, 3, 4, 5]));
}

#[test]
fn raw_rgba_image_too_short_is_refused() {
    let data = [0u8; 15];
    let r = decompress_image(ETextureFormat::Rgba8Srgb, 2, 2, &data);
    assert_eq!(r.unwrap_err(), FormatError::ImageSize);
}

#[test]
fn raw_rgb_image_exact_size() {
    let data: Vec<u8> = (0..12).collect();
    let img = decompress_image(ETextureFormat::Rgb8Unorm, 2, 2, &data).unwrap();
    assert_eq!(bytes_of(img), (PixelLayout::Rgb8, 2, 2, data));
}

#[test]
fn unsupported_format_is_refused() {
    let r = decompress_image(ETextureFormat::R32Uint, 1, 1, &[0u8; 4]);
    assert_eq!(r.unwrap_err(), FormatError::UnsupportedFormat);
}

#[test]
fn bc1_block_matches_reference_decoder() {
    let block = [0x00u8, 0xF8, 0x1F, 0x00, 0xE4, 0x1B, 0x4E, 0xB1];
    let img = decompress_image(ETextureFormat::RgbaBc1Unorm, 4, 4, &block).unwrap();
    let (layout, w, h, data) = bytes_of(img);
    assert_eq!((layout, w, h), (PixelLayout::Rgba8, 4, 4));
    let mut expected = [0u8; 64];
    bcdec_bc1(&block, &mut expected, 16);
    assert_eq!(data, expected.to_vec());
    // Index 0 of the first texel is the first endpoint: pure red.
    assert_eq!(&data[0..4], &[255, 0, 0, 255]);
}

#[test]
fn bc1_small_image_is_one_block() {
    let block = [0u8; 8];
    let img = decompress_image(ETextureFormat::RgbaBc1Srgb, 2, 1, &block).unwrap();
    let (_, w, h, data) = bytes_of(img);
    assert_eq!((w, h, data.len()), (4, 4, 64));
}

#[test]
fn bc1_wrong_length_is_refused() {
    let r = decompress_image(ETextureFormat::RgbaBc1Unorm, 8, 4, &[0u8; 8]);
    assert_eq!(r.unwrap_err(), FormatError::ImageSize);
}

#[test]
fn bc3_two_blocks_land_side_by_side() {
    let mut data = [0u8; 32];
    // First block: alpha 0xFF everywhere, white color.
    data[0] = 0xFF;
    data[1] = 0xFF;
    data[8] = 0xFF;
    data[9] = 0xFF;
    data[10] = 0xFF;
    data[11] = 0xFF;
    // Second block: alpha 0, black color.
    let img = decompress_image(ETextureFormat::RgbaBc3Unorm, 8, 4, &data).unwrap();
    let (_, w, h, pixels) = bytes_of(img);
    assert_eq!((w, h), (8, 4));
    for row in 0..4 {
        for col in 0..8 {
            let p = &pixels[(row * 8 + col) * 4..(row * 8 + col) * 4 + 4];
            if col < 4 {
                assert_eq!(p, &[255, 255, 255, 255]);
            } else {
                assert_eq!(p, &[0, 0, 0, 0]);
            }
        }
    }
    let mut first = [0u8; 64];
    bcdec_bc3(&data[0..16], &mut first, 16);
    assert_eq!(&first[0..4], &pixels[0..4]);
}

#[test]
fn bc4_flat_block_is_gray() {
    let block = [100u8, 100, 0, 0, 0, 0, 0, 0];
    let img = decompress_image(ETextureFormat::RgbaBc4Unorm, 4, 4, &block).unwrap();
    assert_eq!(bytes_of(img), (PixelLayout::Luma8, 4, 4, vec![100u8; 16]));
}

#[test]
fn bc5_flat_block_is_two_channels() {
    let block = [10u8, 10, 0, 0, 0, 0, 0, 0, 200, 200, 0, 0, 0, 0, 0, 0];
    let img = decompress_image(ETextureFormat::RgbaBc5Unorm, 4, 4, &block).unwrap();
    let expected: Vec<u8> = (0..32).map(|i| if i % 2 == 0 { 10 } else { 200 }).collect();
    assert_eq!(bytes_of(img), (PixelLayout::LumaA8, 4, 4, expected));
}

#[test]
fn bc7_block_matches_reference_decoder() {
    let block = [
        0x40u8, 0xC0, 0x1F, 0x78, 0x00, 0xE0, 0xFF, 0x03, 0x12, 0x34, 0x56, 0x78, 0x9A, 0xBC, 0xDE, 0xF0,
    ];
    let img = decompress_image(ETextureFormat::BptcUnorm, 4, 4, &block).unwrap();
    let (_, _, _, data) = bytes_of(img);
    let mut expected = [0u8; 64];
    bcdec_bc7(&block, &mut expected, 16);
    assert_eq!(data, expected.to_vec());
}

#[test]
fn bc7_reserved_mode_is_zero() {
    let block = [0u8; 16];
    let img = decompress_image(ETextureFormat::BptcUnormSrgb, 4, 4, &block).unwrap();
    assert_eq!(bytes_of(img).3, vec![0u8; 64]);
}

#[test]
fn bc6h_block_matches_reference_decoder() {
    let block = [
        0x03u8, 0x11, 0x22, 0x33, 0x44, 0x55, 0x66, 0x77, 0x88, 0x99, 0xAA, 0xBB, 0xCC, 0xDD, 0xEE, 0xFF,
    ];
    let img = decompress_image(ETextureFormat::BptcUfloat, 4, 4, &block).unwrap();
    match img {
        DecodedImage::Halves { width, height, data } => {
            assert_eq!((width, height), (4, 4));
            let mut expected = [0u16; 48];
            bcdec_bc6h_half(&block, &mut expected, 12, false);
            assert_eq!(data, expected.to_vec());
        }
        _ => panic!("expected half floats"),
    }
}

#[test]
fn astc_void_extent_block_is_one_color() {
    let block = [
        0xFCu8, 0xFD, 0xFF, 0xFF, 0xFF, 0xFF, 0xFF, 0xFF, 0x34, 0x12, 0x78, 0x56, 0xBC, 0x9A, 0xFF, 0xFF,
    ];
    let img = decompress_image(ETextureFormat::RgbaAstc4x4, 4, 4, &block).unwrap();
    let (layout, w, h, data) = bytes_of(img);
    assert_eq!((layout, w, h), (PixelLayout::Rgba8, 4, 4));
    for t in data.chunks(4) {
        assert_eq!(t, &[0x12, 0x56, 0x9A, 0xFF]);
    }
}

#[test]
fn astc_partial_blocks_are_clipped() {
    let mut data = Vec::new();
    for _ in 0..2 {
        data.extend_from_slice(&[
            0xFCu8, 0xFD, 0xFF, 0xFF, 0xFF, 0xFF, 0xFF, 0xFF, 0x00, 0x20, 0x00, 0x40, 0x00, 0x60, 0x00,
            0x80,
        ]);
    }
    let img = decompress_image(ETextureFormat::RgbaAstc4x4Srgb, 5, 3, &data).unwrap();
    let (_, w, h, pixels) = bytes_of(img);
    assert_eq!((w, h, pixels.len()), (5, 3, 60));
    assert_eq!(&pixels[56..60], &[0x20, 0x40, 0x60, 0x80]);
}

#[test]
fn astc_wrong_length_is_refused() {
    let r = decompress_image(ETextureFormat::RgbaAstc8x8, 16, 16, &[0u8; 16]);
    assert_eq!(r.unwrap_err(), FormatError::ImageSize);
}

#[test]
fn dxgi_numbers_of_formats() {
    assert_eq!(to_dxgi_format(ETextureFormat::Rgba8Unorm), 28);
    assert_eq!(to_dxgi_format(ETextureFormat::Rgba8Srgb), 29);
    assert_eq!(to_dxgi_format(ETextureFormat::RgbaBc1Unorm), 71);
    assert_eq!(to_dxgi_format(ETextureFormat::BptcSfloat), 96);
    assert_eq!(to_dxgi_format(ETextureFormat::RgbaAstc12x12Srgb), 187);
    assert_eq!(to_dxgi_format(ETextureFormat::Rgb8Unorm), 0);
    assert_eq!(to_dxgi_format(ETextureFormat::Unknown), 0);
}

#[test]
fn texture_format_names() {
    assert_eq!(ETextureFormat::Rgba8Srgb.to_string(), "RGBA8 UNORM (sRGB)");
    assert_eq!(ETextureFormat::RgbaAstc10x8.to_string(), "ASTC 10x8");
    assert_eq!(ETextureFormat::Depth16Unorm2.name(), "D16 UNORM");
    assert_eq!(ETextureFormat::Unknown.name(), "[unknown]");
    assert_eq!(ETextureFormat::BptcUfloat.name(), "BC6H UFLOAT");
}

#[test]
fn texture_type_names() {
    assert_eq!(ETextureType::D2Array.to_string(), "2D Array");
    assert_eq!(ETextureType::CubeArray.name(), "Cube Array");
    assert_eq!(ETextureType::D1.name(), "1D");
}

#[test]
fn decoding_fit_check() {
    assert!(!decompress_image_fits_check(ETextureFormat::R16Unorm, 4, 4, 32));
    assert!(decompress_image_fits_check(ETextureFormat::RgbaBc1Unorm, 4, 4, 8));
    assert!(!decompress_image_fits_check(ETextureFormat::RgbaBc1Unorm, 6, 4, 8));
    assert!(decompress_image_fits_check(ETextureFormat::RgbaAstc4x4, 8, 8, 64));
}

#[test]
fn format_names_mark_srgb_and_astc() {
    for f in [
        ETextureFormat::Rgba8Srgb,
        ETextureFormat::Rgba8Unorm,
        ETextureFormat::RgbaAstc6x5Srgb,
        ETextureFormat::RgbaAstc12x12,
        ETextureFormat::BptcUnormSrgb,
        ETextureFormat::Rg16Sint,
    ] {
        assert_eq!(f.name().ends_with(" (sRGB)"), f.is_srgb());
        assert_eq!(f.name().starts_with("ASTC "), f.is_astc());
    }
}

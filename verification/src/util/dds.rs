//! The DXGI pixel format number that a DDS file uses for each texture format.
use vstd::prelude::*;
use crate::format::txtr::{ETextureFormat, spec_block_size, spec_is_astc, spec_is_srgb};
use crate::format::texture_image::{BlockCodec, PixelLayout, spec_bcn_image, spec_decompress_image};

verus! {

/// The DXGI format number of `format` in a DDS file (0, unknown, where DXGI has none;
/// ASTC formats take the non-standard numbers that DDS tools use).
pub open spec fn spec_dxgi_format(format: ETextureFormat) -> u32 {
    match format {
        ETextureFormat::R8Unorm => 61,
        ETextureFormat::R8Snorm => 63,
        ETextureFormat::R8Uint => 62,
        ETextureFormat::R8Sint => 64,
        ETextureFormat::R16Unorm => 56,
        ETextureFormat::R16Snorm => 58,
        ETextureFormat::R16Uint => 57,
        ETextureFormat::R16Sint => 59,
        ETextureFormat::R16Float => 54,
        ETextureFormat::R32Uint => 42,
        ETextureFormat::R32Sint => 43,
        ETextureFormat::Rgb8Unorm => 0,
        ETextureFormat::Rgba8Unorm => 28,
        ETextureFormat::Rgba8Srgb => 29,
        ETextureFormat::Rgba16Float => 10,
        ETextureFormat::Rgba32Float => 2,
        ETextureFormat::Depth16Unorm => 55,
        ETextureFormat::Depth16Unorm2 => 55,
        ETextureFormat::Depth24S8Unorm => 45,
        ETextureFormat::Depth32Float => 40,
        ETextureFormat::RgbaBc1Unorm => 71,
        ETextureFormat::RgbaBc1Srgb => 72,
        ETextureFormat::RgbaBc2Unorm => 74,
        ETextureFormat::RgbaBc2Srgb => 75,
        ETextureFormat::RgbaBc3Unorm => 77,
        ETextureFormat::RgbaBc3Srgb => 78,
        ETextureFormat::RgbaBc4Unorm => 80,
        ETextureFormat::RgbaBc4Snorm => 81,
        ETextureFormat::RgbaBc5Unorm => 83,
        ETextureFormat::RgbaBc5Snorm => 84,
        ETextureFormat::Rg11B10Float => 26,
        ETextureFormat::R32Float => 41,
        ETextureFormat::Rg8Unorm => 49,
        ETextureFormat::Rg8Snorm => 51,
        ETextureFormat::Rg8Uint => 50,
        ETextureFormat::Rg8Sint => 52,
        ETextureFormat::Rg16Float => 34,
        ETextureFormat::Rg16Unorm => 35,
        ETextureFormat::Rg16Snorm => 37,
        ETextureFormat::Rg16Uint => 36,
        ETextureFormat::Rg16Sint => 38,
        ETextureFormat::Rgb10A2Unorm => 24,
        ETextureFormat::Rgb10A2Uint => 25,
        ETextureFormat::Rg32Uint => 17,
        ETextureFormat::Rg32Sint => 18,
        ETextureFormat::Rg32Float => 16,
        ETextureFormat::Rgba16Unorm => 11,
        ETextureFormat::Rgba16Snorm => 13,
        ETextureFormat::Rgba16Uint => 12,
        ETextureFormat::Rgba16Sint => 14,
        ETextureFormat::Rgba32Uint => 3,
        ETextureFormat::Rgba32Sint => 4,
        ETextureFormat::Unknown => 0,
        ETextureFormat::RgbaAstc4x4 => 134,
        ETextureFormat::RgbaAstc5x4 => 138,
        ETextureFormat::RgbaAstc5x5 => 142,
        ETextureFormat::RgbaAstc6x5 => 146,
        ETextureFormat::RgbaAstc6x6 => 150,
        ETextureFormat::RgbaAstc8x5 => 154,
        ETextureFormat::RgbaAstc8x6 => 158,
        ETextureFormat::RgbaAstc8x8 => 162,
        ETextureFormat::RgbaAstc10x5 => 166,
        ETextureFormat::RgbaAstc10x6 => 170,
        ETextureFormat::RgbaAstc10x8 => 174,
        ETextureFormat::RgbaAstc10x10 => 178,
        ETextureFormat::RgbaAstc12x10 => 182,
        ETextureFormat::RgbaAstc12x12 => 186,
        ETextureFormat::RgbaAstc4x4Srgb => 135,
        ETextureFormat::RgbaAstc5x4Srgb => 139,
        ETextureFormat::RgbaAstc5x5Srgb => 143,
        ETextureFormat::RgbaAstc6x5Srgb => 147,
        ETextureFormat::RgbaAstc6x6Srgb => 151,
        ETextureFormat::RgbaAstc8x5Srgb => 155,
        ETextureFormat::RgbaAstc8x6Srgb => 159,
        ETextureFormat::RgbaAstc8x8Srgb => 163,
        ETextureFormat::RgbaAstc10x5Srgb => 167,
        ETextureFormat::RgbaAstc10x6Srgb => 171,
        ETextureFormat::RgbaAstc10x8Srgb => 175,
        ETextureFormat::RgbaAstc10x10Srgb => 179,
        ETextureFormat::RgbaAstc12x10Srgb => 183,
        ETextureFormat::RgbaAstc12x12Srgb => 187,
        ETextureFormat::BptcUfloat => 95,
        ETextureFormat::BptcSfloat => 96,
        ETextureFormat::BptcUnorm => 98,
        ETextureFormat::BptcUnormSrgb => 99,
    }
}

/// The DXGI format number of `format` (see `spec_dxgi_format`).
pub fn to_dxgi_format(format: ETextureFormat) -> (r: u32)
    ensures
        r == spec_dxgi_format(format),
{
    match format {
        ETextureFormat::R8Unorm => 61,
        ETextureFormat::R8Snorm => 63,
        ETextureFormat::R8Uint => 62,
        ETextureFormat::R8Sint => 64,
        ETextureFormat::R16Unorm => 56,
        ETextureFormat::R16Snorm => 58,
        ETextureFormat::R16Uint => 57,
        ETextureFormat::R16Sint => 59,
        ETextureFormat::R16Float => 54,
        ETextureFormat::R32Uint => 42,
        ETextureFormat::R32Sint => 43,
        ETextureFormat::Rgb8Unorm => 0,
        ETextureFormat::Rgba8Unorm => 28,
        ETextureFormat::Rgba8Srgb => 29,
        ETextureFormat::Rgba16Float => 10,
        ETextureFormat::Rgba32Float => 2,
        ETextureFormat::Depth16Unorm => 55,
        ETextureFormat::Depth16Unorm2 => 55,
        ETextureFormat::Depth24S8Unorm => 45,
        ETextureFormat::Depth32Float => 40,
        ETextureFormat::RgbaBc1Unorm => 71,
        ETextureFormat::RgbaBc1Srgb => 72,
        ETextureFormat::RgbaBc2Unorm => 74,
        ETextureFormat::RgbaBc2Srgb => 75,
        ETextureFormat::RgbaBc3Unorm => 77,
        ETextureFormat::RgbaBc3Srgb => 78,
        ETextureFormat::RgbaBc4Unorm => 80,
        ETextureFormat::RgbaBc4Snorm => 81,
        ETextureFormat::RgbaBc5Unorm => 83,
        ETextureFormat::RgbaBc5Snorm => 84,
        ETextureFormat::Rg11B10Float => 26,
        ETextureFormat::R32Float => 41,
        ETextureFormat::Rg8Unorm => 49,
        ETextureFormat::Rg8Snorm => 51,
        ETextureFormat::Rg8Uint => 50,
        ETextureFormat::Rg8Sint => 52,
        ETextureFormat::Rg16Float => 34,
        ETextureFormat::Rg16Unorm => 35,
        ETextureFormat::Rg16Snorm => 37,
        ETextureFormat::Rg16Uint => 36,
        ETextureFormat::Rg16Sint => 38,
        ETextureFormat::Rgb10A2Unorm => 24,
        ETextureFormat::Rgb10A2Uint => 25,
        ETextureFormat::Rg32Uint => 17,
        ETextureFormat::Rg32Sint => 18,
        ETextureFormat::Rg32Float => 16,
        ETextureFormat::Rgba16Unorm => 11,
        ETextureFormat::Rgba16Snorm => 13,
        ETextureFormat::Rgba16Uint => 12,
        ETextureFormat::Rgba16Sint => 14,
        ETextureFormat::Rgba32Uint => 3,
        ETextureFormat::Rgba32Sint => 4,
        ETextureFormat::Unknown => 0,
        ETextureFormat::RgbaAstc4x4 => 134,
        ETextureFormat::RgbaAstc5x4 => 138,
        ETextureFormat::RgbaAstc5x5 => 142,
        ETextureFormat::RgbaAstc6x5 => 146,
        ETextureFormat::RgbaAstc6x6 => 150,
        ETextureFormat::RgbaAstc8x5 => 154,
        ETextureFormat::RgbaAstc8x6 => 158,
        ETextureFormat::RgbaAstc8x8 => 162,
        ETextureFormat::RgbaAstc10x5 => 166,
        ETextureFormat::RgbaAstc10x6 => 170,
        ETextureFormat::RgbaAstc10x8 => 174,
        ETextureFormat::RgbaAstc10x10 => 178,
        ETextureFormat::RgbaAstc12x10 => 182,
        ETextureFormat::RgbaAstc12x12 => 186,
        ETextureFormat::RgbaAstc4x4Srgb => 135,
        ETextureFormat::RgbaAstc5x4Srgb => 139,
        ETextureFormat::RgbaAstc5x5Srgb => 143,
        ETextureFormat::RgbaAstc6x5Srgb => 147,
        ETextureFormat::RgbaAstc6x6Srgb => 151,
        ETextureFormat::RgbaAstc8x5Srgb => 155,
        ETextureFormat::RgbaAstc8x6Srgb => 159,
        ETextureFormat::RgbaAstc8x8Srgb => 163,
        ETextureFormat::RgbaAstc10x5Srgb => 167,
        ETextureFormat::RgbaAstc10x6Srgb => 171,
        ETextureFormat::RgbaAstc10x8Srgb => 175,
        ETextureFormat::RgbaAstc10x10Srgb => 179,
        ETextureFormat::RgbaAstc12x10Srgb => 183,
        ETextureFormat::RgbaAstc12x12Srgb => 187,
        ETextureFormat::BptcUfloat => 95,
        ETextureFormat::BptcSfloat => 96,
        ETextureFormat::BptcUnorm => 98,
        ETextureFormat::BptcUnormSrgb => 99,
    }
}

/// The block-compressed formats of BC1 to BC5.
pub open spec fn is_bc1_to_bc5(f: ETextureFormat) -> bool {
    ||| f == ETextureFormat::RgbaBc1Unorm
    ||| f == ETextureFormat::RgbaBc1Srgb
    ||| f == ETextureFormat::RgbaBc2Unorm
    ||| f == ETextureFormat::RgbaBc2Srgb
    ||| f == ETextureFormat::RgbaBc3Unorm
    ||| f == ETextureFormat::RgbaBc3Srgb
    ||| f == ETextureFormat::RgbaBc4Unorm
    ||| f == ETextureFormat::RgbaBc4Snorm
    ||| f == ETextureFormat::RgbaBc5Unorm
    ||| f == ETextureFormat::RgbaBc5Snorm
}

/// DXGI numbers its BC1 to BC5 formats in groups of three from 70 (typeless, UNORM,
/// then SRGB or SNORM): the block codec of group `g`.
pub open spec fn dxgi_group_codec(g: int) -> BlockCodec {
    if g == 0 {
        BlockCodec::Bc1
    } else if g == 1 {
        BlockCodec::Bc2
    } else if g == 2 {
        BlockCodec::Bc3
    } else if g == 3 {
        BlockCodec::Bc4
    } else {
        BlockCodec::Bc5
    }
}

/// The texels that the block codec of DXGI group `g` decodes: colour with alpha for
/// BC1 to BC3, one channel for BC4, two for BC5.
pub open spec fn dxgi_group_layout(g: int) -> PixelLayout {
    if g <= 2 {
        PixelLayout::Rgba8
    } else if g == 3 {
        PixelLayout::Luma8
    } else {
        PixelLayout::LumaA8
    }
}

/// A BC1 to BC5 format is written to DDS under a DXGI number of the group whose block
/// codec decodes it (so a DDS reader decodes the texels as this library does), never
/// the typeless one of the group, and the SRGB or SNORM one exactly for the sRGB and
/// signed formats.
pub proof fn lemma_dxgi_bc_numbers(f: ETextureFormat, w: u32, h: u32, data: Seq<u8>)
    requires
        is_bc1_to_bc5(f),
    ensures
        ({
            let x = spec_dxgi_format(f) as int;
            let g = (x - 70) / 3;
            &&& 71 <= x <= 84
            &&& (x - 70) % 3 != 0
            &&& spec_decompress_image(f, w, h, data) == spec_bcn_image(
                dxgi_group_layout(g),
                dxgi_group_codec(g),
                w,
                h,
                data,
            )
            &&& ((x - 70) % 3 == 2 <==> (spec_is_srgb(f.spec_code()) || f == ETextureFormat::RgbaBc4Snorm
                || f == ETextureFormat::RgbaBc5Snorm))
        }),
{
}

/// Different BC1 to BC5 formats are written under different DXGI numbers.
pub proof fn lemma_dxgi_bc_distinct(f: ETextureFormat, g: ETextureFormat)
    requires
        is_bc1_to_bc5(f),
        is_bc1_to_bc5(g),
        f != g,
    ensures
        spec_dxgi_format(f) != spec_dxgi_format(g),
{
}

/// The place of the ASTC block footprint `bw` x `bh` in the order of DXGI's ASTC
/// numbers (4x4, 5x4, 5x5, 6x5, 6x6, 8x5, 8x6, 8x8, 10x5, 10x6, 10x8, 10x10, 12x10,
/// 12x12).
pub open spec fn dxgi_astc_index(bw: int, bh: int) -> int {
    if bw == 4 {
        0
    } else if bw == 5 {
        if bh == 4 {
            1
        } else {
            2
        }
    } else if bw == 6 {
        if bh == 5 {
            3
        } else {
            4
        }
    } else if bw == 8 {
        if bh == 5 {
            5
        } else if bh == 6 {
            6
        } else {
            7
        }
    } else if bw == 10 {
        if bh == 5 {
            8
        } else if bh == 6 {
            9
        } else if bh == 8 {
            10
        } else {
            11
        }
    } else if bh == 10 {
        12
    } else {
        13
    }
}

/// An ASTC format is written under the number that DDS tools give its block
/// footprint: four numbers per footprint from 133 (typeless, UNORM, SRGB, one spare),
/// the UNORM one for linear formats and the SRGB one for sRGB formats.
pub proof fn lemma_dxgi_astc_numbers(f: ETextureFormat)
    requires
        spec_is_astc(f.spec_code()),
    ensures
        ({
            let (bw, bh, _) = spec_block_size(f.spec_code());
            spec_dxgi_format(f) == 134 + 4 * dxgi_astc_index(bw as int, bh as int) + if spec_is_srgb(
                f.spec_code(),
            ) {
                1int
            } else {
                0int
            }
        }),
{
}

/// Different formats are written under different DXGI numbers, but for the two codes
/// of 16-bit depth (the same DXGI format) and the formats that DXGI has no number for
/// (written as 0).
#[verifier::spinoff_prover]
#[verifier::rlimit(100)]
pub proof fn lemma_dxgi_distinct(f: ETextureFormat, g: ETextureFormat)
    requires
        f != g,
        spec_dxgi_format(f) != 0,
        !(f == ETextureFormat::Depth16Unorm && g == ETextureFormat::Depth16Unorm2),
        !(f == ETextureFormat::Depth16Unorm2 && g == ETextureFormat::Depth16Unorm),
    ensures
        spec_dxgi_format(f) != spec_dxgi_format(g),
{
}

} // verus!

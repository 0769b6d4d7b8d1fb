//! Textures: header, sampler settings, pixel formats and mip layout.
use vstd::prelude::*;
pub use crate::format::texture_image::decompress_image;
use crate::format::FormatError;
use crate::util::read::{
    Endian, FixedRecord, lemma_records_none_means_short, lemma_records_some_fit, read_records,
    read_u32, spec_parse_records, spec_u32,
};

verus! {

/// Code of the texture form.
pub const K_FORM_TXTR: u32 = 0x5458_5452;

/// Code of the texture header chunk.
pub const K_CHUNK_HEAD: u32 = 0x4845_4144;

/// Code of the GPU data chunk.
pub const K_CHUNK_GPU: u32 = 0x4750_5520;


/// Dimensionality of a texture.
#[derive(Copy, Clone, Debug, PartialEq, Eq, Structural, Hash)]
pub enum ETextureType {
    D1,
    D2,
    D3,
    Cube,
    D1Array,
    D2Array,
    D2Multisample,
    D2MultisampleArray,
    CubeArray,
}

impl ETextureType {
    /// The number that stands for the value in a file.
    pub open spec fn spec_code(self) -> u32 {
        match self {
            ETextureType::D1 => 0,
            ETextureType::D2 => 1,
            ETextureType::D3 => 2,
            ETextureType::Cube => 3,
            ETextureType::D1Array => 4,
            ETextureType::D2Array => 5,
            ETextureType::D2Multisample => 6,
            ETextureType::D2MultisampleArray => 7,
            ETextureType::CubeArray => 8,
        }
    }

    /// The number that stands for the value in a file.
    pub fn to_u32(self) -> (r: u32)
        ensures
            r == self.spec_code(),
    {
        match self {
            ETextureType::D1 => 0,
            ETextureType::D2 => 1,
            ETextureType::D3 => 2,
            ETextureType::Cube => 3,
            ETextureType::D1Array => 4,
            ETextureType::D2Array => 5,
            ETextureType::D2Multisample => 6,
            ETextureType::D2MultisampleArray => 7,
            ETextureType::CubeArray => 8,
        }
    }

    /// The value that `value` stands for, if any.
    pub open spec fn spec_from_code(value: u32) -> Option<Self> {
        match value {
            0 => Some(ETextureType::D1),
            1 => Some(ETextureType::D2),
            2 => Some(ETextureType::D3),
            3 => Some(ETextureType::Cube),
            4 => Some(ETextureType::D1Array),
            5 => Some(ETextureType::D2Array),
            6 => Some(ETextureType::D2Multisample),
            7 => Some(ETextureType::D2MultisampleArray),
            8 => Some(ETextureType::CubeArray),
            _ => None,
        }
    }

    /// Reading back the code of a value gives the value.
    pub proof fn lemma_code_round_trip(self)
        ensures
            Self::spec_from_code(self.spec_code()) == Some(self),
    {
    }

    /// The value that `value` stands for, if any.
    pub fn from_u32(value: u32) -> (r: Option<Self>)
        ensures
            r == Self::spec_from_code(value),
            r matches Some(v) ==> v.spec_code() == value,
    {
        match value {
            0 => Some(ETextureType::D1),
            1 => Some(ETextureType::D2),
            2 => Some(ETextureType::D3),
            3 => Some(ETextureType::Cube),
            4 => Some(ETextureType::D1Array),
            5 => Some(ETextureType::D2Array),
            6 => Some(ETextureType::D2Multisample),
            7 => Some(ETextureType::D2MultisampleArray),
            8 => Some(ETextureType::CubeArray),
            _ => None,
        }
    }
}

/// Addressing mode outside the texture.
#[derive(Copy, Clone, Debug, PartialEq, Eq, Structural, Hash)]
pub enum ETextureWrap {
    ClampToEdge,
    Repeat,
    MirroredRepeat,
    MirrorClamp,
    ClampToBorder,
    Clamp,
}

impl ETextureWrap {
    /// The number that stands for the value in a file.
    pub open spec fn spec_code(self) -> u8 {
        match self {
            ETextureWrap::ClampToEdge => 0,
            ETextureWrap::Repeat => 1,
            ETextureWrap::MirroredRepeat => 2,
            ETextureWrap::MirrorClamp => 3,
            ETextureWrap::ClampToBorder => 4,
            ETextureWrap::Clamp => 5,
        }
    }

    /// The number that stands for the value in a file.
    pub fn to_u8(self) -> (r: u8)
        ensures
            r == self.spec_code(),
    {
        match self {
            ETextureWrap::ClampToEdge => 0,
            ETextureWrap::Repeat => 1,
            ETextureWrap::MirroredRepeat => 2,
            ETextureWrap::MirrorClamp => 3,
            ETextureWrap::ClampToBorder => 4,
            ETextureWrap::Clamp => 5,
        }
    }

    /// The value that `value` stands for, if any.
    pub open spec fn spec_from_code(value: u8) -> Option<Self> {
        match value {
            0 => Some(ETextureWrap::ClampToEdge),
            1 => Some(ETextureWrap::Repeat),
            2 => Some(ETextureWrap::MirroredRepeat),
            3 => Some(ETextureWrap::MirrorClamp),
            4 => Some(ETextureWrap::ClampToBorder),
            5 => Some(ETextureWrap::Clamp),
            _ => None,
        }
    }

    /// Reading back the code of a value gives the value.
    pub proof fn lemma_code_round_trip(self)
        ensures
            Self::spec_from_code(self.spec_code()) == Some(self),
    {
    }

    /// The value that `value` stands for, if any.
    pub fn from_u8(value: u8) -> (r: Option<Self>)
        ensures
            r == Self::spec_from_code(value),
            r matches Some(v) ==> v.spec_code() == value,
    {
        match value {
            0 => Some(ETextureWrap::ClampToEdge),
            1 => Some(ETextureWrap::Repeat),
            2 => Some(ETextureWrap::MirroredRepeat),
            3 => Some(ETextureWrap::MirrorClamp),
            4 => Some(ETextureWrap::ClampToBorder),
            5 => Some(ETextureWrap::Clamp),
            _ => None,
        }
    }
}

/// Filter used between texels.
#[derive(Copy, Clone, Debug, PartialEq, Eq, Structural, Hash)]
pub enum ETextureFilter {
    Nearest,
    Linear,
}

impl ETextureFilter {
    /// The number that stands for the value in a file.
    pub open spec fn spec_code(self) -> u8 {
        match self {
            ETextureFilter::Nearest => 0,
            ETextureFilter::Linear => 1,
        }
    }

    /// The number that stands for the value in a file.
    pub fn to_u8(self) -> (r: u8)
        ensures
            r == self.spec_code(),
    {
        match self {
            ETextureFilter::Nearest => 0,
            ETextureFilter::Linear => 1,
        }
    }

    /// The value that `value` stands for, if any.
    pub open spec fn spec_from_code(value: u8) -> Option<Self> {
        match value {
            0 => Some(ETextureFilter::Nearest),
            1 => Some(ETextureFilter::Linear),
            _ => None,
        }
    }

    /// Reading back the code of a value gives the value.
    pub proof fn lemma_code_round_trip(self)
        ensures
            Self::spec_from_code(self.spec_code()) == Some(self),
    {
    }

    /// The value that `value` stands for, if any.
    pub fn from_u8(value: u8) -> (r: Option<Self>)
        ensures
            r == Self::spec_from_code(value),
            r matches Some(v) ==> v.spec_code() == value,
    {
        match value {
            0 => Some(ETextureFilter::Nearest),
            1 => Some(ETextureFilter::Linear),
            _ => None,
        }
    }
}

/// Filter used between mip levels.
#[derive(Copy, Clone, Debug, PartialEq, Eq, Structural, Hash)]
pub enum ETextureMipFilter {
    Nearest,
    Linear,
}

impl ETextureMipFilter {
    /// The number that stands for the value in a file.
    pub open spec fn spec_code(self) -> u8 {
        match self {
            ETextureMipFilter::Nearest => 0,
            ETextureMipFilter::Linear => 1,
        }
    }

    /// The number that stands for the value in a file.
    pub fn to_u8(self) -> (r: u8)
        ensures
            r == self.spec_code(),
    {
        match self {
            ETextureMipFilter::Nearest => 0,
            ETextureMipFilter::Linear => 1,
        }
    }

    /// The value that `value` stands for, if any.
    pub open spec fn spec_from_code(value: u8) -> Option<Self> {
        match value {
            0 => Some(ETextureMipFilter::Nearest),
            1 => Some(ETextureMipFilter::Linear),
            _ => None,
        }
    }

    /// Reading back the code of a value gives the value.
    pub proof fn lemma_code_round_trip(self)
        ensures
            Self::spec_from_code(self.spec_code()) == Some(self),
    {
    }

    /// The value that `value` stands for, if any.
    pub fn from_u8(value: u8) -> (r: Option<Self>)
        ensures
            r == Self::spec_from_code(value),
            r matches Some(v) ==> v.spec_code() == value,
    {
        match value {
            0 => Some(ETextureMipFilter::Nearest),
            1 => Some(ETextureMipFilter::Linear),
            _ => None,
        }
    }
}

/// Anisotropic filtering ratio.
#[derive(Copy, Clone, Debug, PartialEq, Eq, Structural, Hash)]
pub enum ETextureAnisotropicRatio {
    Disabled,
    Ratio1,
    Ratio2,
    Ratio4,
    Ratio8,
    Ratio16,
}

impl ETextureAnisotropicRatio {
    /// The number that stands for the value in a file.
    pub open spec fn spec_code(self) -> u8 {
        match self {
            ETextureAnisotropicRatio::Disabled => 255,
            ETextureAnisotropicRatio::Ratio1 => 0,
            ETextureAnisotropicRatio::Ratio2 => 1,
            ETextureAnisotropicRatio::Ratio4 => 2,
            ETextureAnisotropicRatio::Ratio8 => 3,
            ETextureAnisotropicRatio::Ratio16 => 4,
        }
    }

    /// The number that stands for the value in a file.
    pub fn to_u8(self) -> (r: u8)
        ensures
            r == self.spec_code(),
    {
        match self {
            ETextureAnisotropicRatio::Disabled => 255,
            ETextureAnisotropicRatio::Ratio1 => 0,
            ETextureAnisotropicRatio::Ratio2 => 1,
            ETextureAnisotropicRatio::Ratio4 => 2,
            ETextureAnisotropicRatio::Ratio8 => 3,
            ETextureAnisotropicRatio::Ratio16 => 4,
        }
    }

    /// The value that `value` stands for, if any.
    pub open spec fn spec_from_code(value: u8) -> Option<Self> {
        match value {
            255 => Some(ETextureAnisotropicRatio::Disabled),
            0 => Some(ETextureAnisotropicRatio::Ratio1),
            1 => Some(ETextureAnisotropicRatio::Ratio2),
            2 => Some(ETextureAnisotropicRatio::Ratio4),
            3 => Some(ETextureAnisotropicRatio::Ratio8),
            4 => Some(ETextureAnisotropicRatio::Ratio16),
            _ => None,
        }
    }

    /// Reading back the code of a value gives the value.
    pub proof fn lemma_code_round_trip(self)
        ensures
            Self::spec_from_code(self.spec_code()) == Some(self),
    {
    }

    /// The value that `value` stands for, if any.
    pub fn from_u8(value: u8) -> (r: Option<Self>)
        ensures
            r == Self::spec_from_code(value),
            r matches Some(v) ==> v.spec_code() == value,
    {
        match value {
            255 => Some(ETextureAnisotropicRatio::Disabled),
            0 => Some(ETextureAnisotropicRatio::Ratio1),
            1 => Some(ETextureAnisotropicRatio::Ratio2),
            2 => Some(ETextureAnisotropicRatio::Ratio4),
            3 => Some(ETextureAnisotropicRatio::Ratio8),
            4 => Some(ETextureAnisotropicRatio::Ratio16),
            _ => None,
        }
    }
}

/// Pixel format of a texture.
#[derive(Copy, Clone, Debug, PartialEq, Eq, Structural, Hash)]
pub enum ETextureFormat {
    R8Unorm,
    R8Snorm,
    R8Uint,
    R8Sint,
    R16Unorm,
    R16Snorm,
    R16Uint,
    R16Sint,
    R16Float,
    R32Uint,
    R32Sint,
    Rgb8Unorm,
    Rgba8Unorm,
    Rgba8Srgb,
    Rgba16Float,
    Rgba32Float,
    Depth16Unorm,
    Depth16Unorm2,
    Depth24S8Unorm,
    Depth32Float,
    RgbaBc1Unorm,
    RgbaBc1Srgb,
    RgbaBc2Unorm,
    RgbaBc2Srgb,
    RgbaBc3Unorm,
    RgbaBc3Srgb,
    RgbaBc4Unorm,
    RgbaBc4Snorm,
    RgbaBc5Unorm,
    RgbaBc5Snorm,
    Rg11B10Float,
    R32Float,
    Rg8Unorm,
    Rg8Snorm,
    Rg8Uint,
    Rg8Sint,
    Rg16Float,
    Rg16Unorm,
    Rg16Snorm,
    Rg16Uint,
    Rg16Sint,
    Rgb10A2Unorm,
    Rgb10A2Uint,
    Rg32Uint,
    Rg32Sint,
    Rg32Float,
    Rgba16Unorm,
    Rgba16Snorm,
    Rgba16Uint,
    Rgba16Sint,
    Rgba32Uint,
    Rgba32Sint,
    Unknown,
    RgbaAstc4x4,
    RgbaAstc5x4,
    RgbaAstc5x5,
    RgbaAstc6x5,
    RgbaAstc6x6,
    RgbaAstc8x5,
    RgbaAstc8x6,
    RgbaAstc8x8,
    RgbaAstc10x5,
    RgbaAstc10x6,
    RgbaAstc10x8,
    RgbaAstc10x10,
    RgbaAstc12x10,
    RgbaAstc12x12,
    RgbaAstc4x4Srgb,
    RgbaAstc5x4Srgb,
    RgbaAstc5x5Srgb,
    RgbaAstc6x5Srgb,
    RgbaAstc6x6Srgb,
    RgbaAstc8x5Srgb,
    RgbaAstc8x6Srgb,
    RgbaAstc8x8Srgb,
    RgbaAstc10x5Srgb,
    RgbaAstc10x6Srgb,
    RgbaAstc10x8Srgb,
    RgbaAstc10x10Srgb,
    RgbaAstc12x10Srgb,
    RgbaAstc12x12Srgb,
    BptcUfloat,
    BptcSfloat,
    BptcUnorm,
    BptcUnormSrgb,
}

impl ETextureFormat {
    /// The number that stands for the value in a file.
    pub open spec fn spec_code(self) -> u32 {
        match self {
            ETextureFormat::R8Unorm => 0,
            ETextureFormat::R8Snorm => 1,
            ETextureFormat::R8Uint => 2,
            ETextureFormat::R8Sint => 3,
            ETextureFormat::R16Unorm => 4,
            ETextureFormat::R16Snorm => 5,
            ETextureFormat::R16Uint => 6,
            ETextureFormat::R16Sint => 7,
            ETextureFormat::R16Float => 8,
            ETextureFormat::R32Uint => 9,
            ETextureFormat::R32Sint => 10,
            ETextureFormat::Rgb8Unorm => 11,
            ETextureFormat::Rgba8Unorm => 12,
            ETextureFormat::Rgba8Srgb => 13,
            ETextureFormat::Rgba16Float => 14,
            ETextureFormat::Rgba32Float => 15,
            ETextureFormat::Depth16Unorm => 16,
            ETextureFormat::Depth16Unorm2 => 17,
            ETextureFormat::Depth24S8Unorm => 18,
            ETextureFormat::Depth32Float => 19,
            ETextureFormat::RgbaBc1Unorm => 20,
            ETextureFormat::RgbaBc1Srgb => 21,
            ETextureFormat::RgbaBc2Unorm => 22,
            ETextureFormat::RgbaBc2Srgb => 23,
            ETextureFormat::RgbaBc3Unorm => 24,
            ETextureFormat::RgbaBc3Srgb => 25,
            ETextureFormat::RgbaBc4Unorm => 26,
            ETextureFormat::RgbaBc4Snorm => 27,
            ETextureFormat::RgbaBc5Unorm => 28,
            ETextureFormat::RgbaBc5Snorm => 29,
            ETextureFormat::Rg11B10Float => 30,
            ETextureFormat::R32Float => 31,
            ETextureFormat::Rg8Unorm => 32,
            ETextureFormat::Rg8Snorm => 33,
            ETextureFormat::Rg8Uint => 34,
            ETextureFormat::Rg8Sint => 35,
            ETextureFormat::Rg16Float => 36,
            ETextureFormat::Rg16Unorm => 37,
            ETextureFormat::Rg16Snorm => 38,
            ETextureFormat::Rg16Uint => 39,
            ETextureFormat::Rg16Sint => 40,
            ETextureFormat::Rgb10A2Unorm => 41,
            ETextureFormat::Rgb10A2Uint => 42,
            ETextureFormat::Rg32Uint => 43,
            ETextureFormat::Rg32Sint => 44,
            ETextureFormat::Rg32Float => 45,
            ETextureFormat::Rgba16Unorm => 46,
            ETextureFormat::Rgba16Snorm => 47,
            ETextureFormat::Rgba16Uint => 48,
            ETextureFormat::Rgba16Sint => 49,
            ETextureFormat::Rgba32Uint => 50,
            ETextureFormat::Rgba32Sint => 51,
            ETextureFormat::Unknown => 52,
            ETextureFormat::RgbaAstc4x4 => 53,
            ETextureFormat::RgbaAstc5x4 => 54,
            ETextureFormat::RgbaAstc5x5 => 55,
            ETextureFormat::RgbaAstc6x5 => 56,
            ETextureFormat::RgbaAstc6x6 => 57,
            ETextureFormat::RgbaAstc8x5 => 58,
            ETextureFormat::RgbaAstc8x6 => 59,
            ETextureFormat::RgbaAstc8x8 => 60,
            ETextureFormat::RgbaAstc10x5 => 61,
            ETextureFormat::RgbaAstc10x6 => 62,
            ETextureFormat::RgbaAstc10x8 => 63,
            ETextureFormat::RgbaAstc10x10 => 64,
            ETextureFormat::RgbaAstc12x10 => 65,
            ETextureFormat::RgbaAstc12x12 => 66,
            ETextureFormat::RgbaAstc4x4Srgb => 67,
            ETextureFormat::RgbaAstc5x4Srgb => 68,
            ETextureFormat::RgbaAstc5x5Srgb => 69,
            ETextureFormat::RgbaAstc6x5Srgb => 70,
            ETextureFormat::RgbaAstc6x6Srgb => 71,
            ETextureFormat::RgbaAstc8x5Srgb => 72,
            ETextureFormat::RgbaAstc8x6Srgb => 73,
            ETextureFormat::RgbaAstc8x8Srgb => 74,
            ETextureFormat::RgbaAstc10x5Srgb => 75,
            ETextureFormat::RgbaAstc10x6Srgb => 76,
            ETextureFormat::RgbaAstc10x8Srgb => 77,
            ETextureFormat::RgbaAstc10x10Srgb => 78,
            ETextureFormat::RgbaAstc12x10Srgb => 79,
            ETextureFormat::RgbaAstc12x12Srgb => 80,
            ETextureFormat::BptcUfloat => 81,
            ETextureFormat::BptcSfloat => 82,
            ETextureFormat::BptcUnorm => 83,
            ETextureFormat::BptcUnormSrgb => 84,
        }
    }

    /// The number that stands for the value in a file.
    pub fn to_u32(self) -> (r: u32)
        ensures
            r == self.spec_code(),
    {
        match self {
            ETextureFormat::R8Unorm => 0,
            ETextureFormat::R8Snorm => 1,
            ETextureFormat::R8Uint => 2,
            ETextureFormat::R8Sint => 3,
            ETextureFormat::R16Unorm => 4,
            ETextureFormat::R16Snorm => 5,
            ETextureFormat::R16Uint => 6,
            ETextureFormat::R16Sint => 7,
            ETextureFormat::R16Float => 8,
            ETextureFormat::R32Uint => 9,
            ETextureFormat::R32Sint => 10,
            ETextureFormat::Rgb8Unorm => 11,
            ETextureFormat::Rgba8Unorm => 12,
            ETextureFormat::Rgba8Srgb => 13,
            ETextureFormat::Rgba16Float => 14,
            ETextureFormat::Rgba32Float => 15,
            ETextureFormat::Depth16Unorm => 16,
            ETextureFormat::Depth16Unorm2 => 17,
            ETextureFormat::Depth24S8Unorm => 18,
            ETextureFormat::Depth32Float => 19,
            ETextureFormat::RgbaBc1Unorm => 20,
            ETextureFormat::RgbaBc1Srgb => 21,
            ETextureFormat::RgbaBc2Unorm => 22,
            ETextureFormat::RgbaBc2Srgb => 23,
            ETextureFormat::RgbaBc3Unorm => 24,
            ETextureFormat::RgbaBc3Srgb => 25,
            ETextureFormat::RgbaBc4Unorm => 26,
            ETextureFormat::RgbaBc4Snorm => 27,
            ETextureFormat::RgbaBc5Unorm => 28,
            ETextureFormat::RgbaBc5Snorm => 29,
            ETextureFormat::Rg11B10Float => 30,
            ETextureFormat::R32Float => 31,
            ETextureFormat::Rg8Unorm => 32,
            ETextureFormat::Rg8Snorm => 33,
            ETextureFormat::Rg8Uint => 34,
            ETextureFormat::Rg8Sint => 35,
            ETextureFormat::Rg16Float => 36,
            ETextureFormat::Rg16Unorm => 37,
            ETextureFormat::Rg16Snorm => 38,
            ETextureFormat::Rg16Uint => 39,
            ETextureFormat::Rg16Sint => 40,
            ETextureFormat::Rgb10A2Unorm => 41,
            ETextureFormat::Rgb10A2Uint => 42,
            ETextureFormat::Rg32Uint => 43,
            ETextureFormat::Rg32Sint => 44,
            ETextureFormat::Rg32Float => 45,
            ETextureFormat::Rgba16Unorm => 46,
            ETextureFormat::Rgba16Snorm => 47,
            ETextureFormat::Rgba16Uint => 48,
            ETextureFormat::Rgba16Sint => 49,
            ETextureFormat::Rgba32Uint => 50,
            ETextureFormat::Rgba32Sint => 51,
            ETextureFormat::Unknown => 52,
            ETextureFormat::RgbaAstc4x4 => 53,
            ETextureFormat::RgbaAstc5x4 => 54,
            ETextureFormat::RgbaAstc5x5 => 55,
            ETextureFormat::RgbaAstc6x5 => 56,
            ETextureFormat::RgbaAstc6x6 => 57,
            ETextureFormat::RgbaAstc8x5 => 58,
            ETextureFormat::RgbaAstc8x6 => 59,
            ETextureFormat::RgbaAstc8x8 => 60,
            ETextureFormat::RgbaAstc10x5 => 61,
            ETextureFormat::RgbaAstc10x6 => 62,
            ETextureFormat::RgbaAstc10x8 => 63,
            ETextureFormat::RgbaAstc10x10 => 64,
            ETextureFormat::RgbaAstc12x10 => 65,
            ETextureFormat::RgbaAstc12x12 => 66,
            ETextureFormat::RgbaAstc4x4Srgb => 67,
            ETextureFormat::RgbaAstc5x4Srgb => 68,
            ETextureFormat::RgbaAstc5x5Srgb => 69,
            ETextureFormat::RgbaAstc6x5Srgb => 70,
            ETextureFormat::RgbaAstc6x6Srgb => 71,
            ETextureFormat::RgbaAstc8x5Srgb => 72,
            ETextureFormat::RgbaAstc8x6Srgb => 73,
            ETextureFormat::RgbaAstc8x8Srgb => 74,
            ETextureFormat::RgbaAstc10x5Srgb => 75,
            ETextureFormat::RgbaAstc10x6Srgb => 76,
            ETextureFormat::RgbaAstc10x8Srgb => 77,
            ETextureFormat::RgbaAstc10x10Srgb => 78,
            ETextureFormat::RgbaAstc12x10Srgb => 79,
            ETextureFormat::RgbaAstc12x12Srgb => 80,
            ETextureFormat::BptcUfloat => 81,
            ETextureFormat::BptcSfloat => 82,
            ETextureFormat::BptcUnorm => 83,
            ETextureFormat::BptcUnormSrgb => 84,
        }
    }

    /// The value that `value` stands for, if any.
    pub open spec fn spec_from_code(value: u32) -> Option<Self> {
        match value {
            0 => Some(ETextureFormat::R8Unorm),
            1 => Some(ETextureFormat::R8Snorm),
            2 => Some(ETextureFormat::R8Uint),
            3 => Some(ETextureFormat::R8Sint),
            4 => Some(ETextureFormat::R16Unorm),
            5 => Some(ETextureFormat::R16Snorm),
            6 => Some(ETextureFormat::R16Uint),
            7 => Some(ETextureFormat::R16Sint),
            8 => Some(ETextureFormat::R16Float),
            9 => Some(ETextureFormat::R32Uint),
            10 => Some(ETextureFormat::R32Sint),
            11 => Some(ETextureFormat::Rgb8Unorm),
            12 => Some(ETextureFormat::Rgba8Unorm),
            13 => Some(ETextureFormat::Rgba8Srgb),
            14 => Some(ETextureFormat::Rgba16Float),
            15 => Some(ETextureFormat::Rgba32Float),
            16 => Some(ETextureFormat::Depth16Unorm),
            17 => Some(ETextureFormat::Depth16Unorm2),
            18 => Some(ETextureFormat::Depth24S8Unorm),
            19 => Some(ETextureFormat::Depth32Float),
            20 => Some(ETextureFormat::RgbaBc1Unorm),
            21 => Some(ETextureFormat::RgbaBc1Srgb),
            22 => Some(ETextureFormat::RgbaBc2Unorm),
            23 => Some(ETextureFormat::RgbaBc2Srgb),
            24 => Some(ETextureFormat::RgbaBc3Unorm),
            25 => Some(ETextureFormat::RgbaBc3Srgb),
            26 => Some(ETextureFormat::RgbaBc4Unorm),
            27 => Some(ETextureFormat::RgbaBc4Snorm),
            28 => Some(ETextureFormat::RgbaBc5Unorm),
            29 => Some(ETextureFormat::RgbaBc5Snorm),
            30 => Some(ETextureFormat::Rg11B10Float),
            31 => Some(ETextureFormat::R32Float),
            32 => Some(ETextureFormat::Rg8Unorm),
            33 => Some(ETextureFormat::Rg8Snorm),
            34 => Some(ETextureFormat::Rg8Uint),
            35 => Some(ETextureFormat::Rg8Sint),
            36 => Some(ETextureFormat::Rg16Float),
            37 => Some(ETextureFormat::Rg16Unorm),
            38 => Some(ETextureFormat::Rg16Snorm),
            39 => Some(ETextureFormat::Rg16Uint),
            40 => Some(ETextureFormat::Rg16Sint),
            41 => Some(ETextureFormat::Rgb10A2Unorm),
            42 => Some(ETextureFormat::Rgb10A2Uint),
            43 => Some(ETextureFormat::Rg32Uint),
            44 => Some(ETextureFormat::Rg32Sint),
            45 => Some(ETextureFormat::Rg32Float),
            46 => Some(ETextureFormat::Rgba16Unorm),
            47 => Some(ETextureFormat::Rgba16Snorm),
            48 => Some(ETextureFormat::Rgba16Uint),
            49 => Some(ETextureFormat::Rgba16Sint),
            50 => Some(ETextureFormat::Rgba32Uint),
            51 => Some(ETextureFormat::Rgba32Sint),
            52 => Some(ETextureFormat::Unknown),
            53 => Some(ETextureFormat::RgbaAstc4x4),
            54 => Some(ETextureFormat::RgbaAstc5x4),
            55 => Some(ETextureFormat::RgbaAstc5x5),
            56 => Some(ETextureFormat::RgbaAstc6x5),
            57 => Some(ETextureFormat::RgbaAstc6x6),
            58 => Some(ETextureFormat::RgbaAstc8x5),
            59 => Some(ETextureFormat::RgbaAstc8x6),
            60 => Some(ETextureFormat::RgbaAstc8x8),
            61 => Some(ETextureFormat::RgbaAstc10x5),
            62 => Some(ETextureFormat::RgbaAstc10x6),
            63 => Some(ETextureFormat::RgbaAstc10x8),
            64 => Some(ETextureFormat::RgbaAstc10x10),
            65 => Some(ETextureFormat::RgbaAstc12x10),
            66 => Some(ETextureFormat::RgbaAstc12x12),
            67 => Some(ETextureFormat::RgbaAstc4x4Srgb),
            68 => Some(ETextureFormat::RgbaAstc5x4Srgb),
            69 => Some(ETextureFormat::RgbaAstc5x5Srgb),
            70 => Some(ETextureFormat::RgbaAstc6x5Srgb),
            71 => Some(ETextureFormat::RgbaAstc6x6Srgb),
            72 => Some(ETextureFormat::RgbaAstc8x5Srgb),
            73 => Some(ETextureFormat::RgbaAstc8x6Srgb),
            74 => Some(ETextureFormat::RgbaAstc8x8Srgb),
            75 => Some(ETextureFormat::RgbaAstc10x5Srgb),
            76 => Some(ETextureFormat::RgbaAstc10x6Srgb),
            77 => Some(ETextureFormat::RgbaAstc10x8Srgb),
            78 => Some(ETextureFormat::RgbaAstc10x10Srgb),
            79 => Some(ETextureFormat::RgbaAstc12x10Srgb),
            80 => Some(ETextureFormat::RgbaAstc12x12Srgb),
            81 => Some(ETextureFormat::BptcUfloat),
            82 => Some(ETextureFormat::BptcSfloat),
            83 => Some(ETextureFormat::BptcUnorm),
            84 => Some(ETextureFormat::BptcUnormSrgb),
            _ => None,
        }
    }

    /// Reading back the code of a value gives the value.
    pub proof fn lemma_code_round_trip(self)
        ensures
            Self::spec_from_code(self.spec_code()) == Some(self),
    {
    }

    /// The value that `value` stands for, if any.
    pub fn from_u32(value: u32) -> (r: Option<Self>)
        ensures
            r == Self::spec_from_code(value),
            r matches Some(v) ==> v.spec_code() == value,
    {
        match value {
            0 => Some(ETextureFormat::R8Unorm),
            1 => Some(ETextureFormat::R8Snorm),
            2 => Some(ETextureFormat::R8Uint),
            3 => Some(ETextureFormat::R8Sint),
            4 => Some(ETextureFormat::R16Unorm),
            5 => Some(ETextureFormat::R16Snorm),
            6 => Some(ETextureFormat::R16Uint),
            7 => Some(ETextureFormat::R16Sint),
            8 => Some(ETextureFormat::R16Float),
            9 => Some(ETextureFormat::R32Uint),
            10 => Some(ETextureFormat::R32Sint),
            11 => Some(ETextureFormat::Rgb8Unorm),
            12 => Some(ETextureFormat::Rgba8Unorm),
            13 => Some(ETextureFormat::Rgba8Srgb),
            14 => Some(ETextureFormat::Rgba16Float),
            15 => Some(ETextureFormat::Rgba32Float),
            16 => Some(ETextureFormat::Depth16Unorm),
            17 => Some(ETextureFormat::Depth16Unorm2),
            18 => Some(ETextureFormat::Depth24S8Unorm),
            19 => Some(ETextureFormat::Depth32Float),
            20 => Some(ETextureFormat::RgbaBc1Unorm),
            21 => Some(ETextureFormat::RgbaBc1Srgb),
            22 => Some(ETextureFormat::RgbaBc2Unorm),
            23 => Some(ETextureFormat::RgbaBc2Srgb),
            24 => Some(ETextureFormat::RgbaBc3Unorm),
            25 => Some(ETextureFormat::RgbaBc3Srgb),
            26 => Some(ETextureFormat::RgbaBc4Unorm),
            27 => Some(ETextureFormat::RgbaBc4Snorm),
            28 => Some(ETextureFormat::RgbaBc5Unorm),
            29 => Some(ETextureFormat::RgbaBc5Snorm),
            30 => Some(ETextureFormat::Rg11B10Float),
            31 => Some(ETextureFormat::R32Float),
            32 => Some(ETextureFormat::Rg8Unorm),
            33 => Some(ETextureFormat::Rg8Snorm),
            34 => Some(ETextureFormat::Rg8Uint),
            35 => Some(ETextureFormat::Rg8Sint),
            36 => Some(ETextureFormat::Rg16Float),
            37 => Some(ETextureFormat::Rg16Unorm),
            38 => Some(ETextureFormat::Rg16Snorm),
            39 => Some(ETextureFormat::Rg16Uint),
            40 => Some(ETextureFormat::Rg16Sint),
            41 => Some(ETextureFormat::Rgb10A2Unorm),
            42 => Some(ETextureFormat::Rgb10A2Uint),
            43 => Some(ETextureFormat::Rg32Uint),
            44 => Some(ETextureFormat::Rg32Sint),
            45 => Some(ETextureFormat::Rg32Float),
            46 => Some(ETextureFormat::Rgba16Unorm),
            47 => Some(ETextureFormat::Rgba16Snorm),
            48 => Some(ETextureFormat::Rgba16Uint),
            49 => Some(ETextureFormat::Rgba16Sint),
            50 => Some(ETextureFormat::Rgba32Uint),
            51 => Some(ETextureFormat::Rgba32Sint),
            52 => Some(ETextureFormat::Unknown),
            53 => Some(ETextureFormat::RgbaAstc4x4),
            54 => Some(ETextureFormat::RgbaAstc5x4),
            55 => Some(ETextureFormat::RgbaAstc5x5),
            56 => Some(ETextureFormat::RgbaAstc6x5),
            57 => Some(ETextureFormat::RgbaAstc6x6),
            58 => Some(ETextureFormat::RgbaAstc8x5),
            59 => Some(ETextureFormat::RgbaAstc8x6),
            60 => Some(ETextureFormat::RgbaAstc8x8),
            61 => Some(ETextureFormat::RgbaAstc10x5),
            62 => Some(ETextureFormat::RgbaAstc10x6),
            63 => Some(ETextureFormat::RgbaAstc10x8),
            64 => Some(ETextureFormat::RgbaAstc10x10),
            65 => Some(ETextureFormat::RgbaAstc12x10),
            66 => Some(ETextureFormat::RgbaAstc12x12),
            67 => Some(ETextureFormat::RgbaAstc4x4Srgb),
            68 => Some(ETextureFormat::RgbaAstc5x4Srgb),
            69 => Some(ETextureFormat::RgbaAstc5x5Srgb),
            70 => Some(ETextureFormat::RgbaAstc6x5Srgb),
            71 => Some(ETextureFormat::RgbaAstc6x6Srgb),
            72 => Some(ETextureFormat::RgbaAstc8x5Srgb),
            73 => Some(ETextureFormat::RgbaAstc8x6Srgb),
            74 => Some(ETextureFormat::RgbaAstc8x8Srgb),
            75 => Some(ETextureFormat::RgbaAstc10x5Srgb),
            76 => Some(ETextureFormat::RgbaAstc10x6Srgb),
            77 => Some(ETextureFormat::RgbaAstc10x8Srgb),
            78 => Some(ETextureFormat::RgbaAstc10x10Srgb),
            79 => Some(ETextureFormat::RgbaAstc12x10Srgb),
            80 => Some(ETextureFormat::RgbaAstc12x12Srgb),
            81 => Some(ETextureFormat::BptcUfloat),
            82 => Some(ETextureFormat::BptcSfloat),
            83 => Some(ETextureFormat::BptcUnorm),
            84 => Some(ETextureFormat::BptcUnormSrgb),
            _ => None,
        }
    }
}

/// Width, height and depth in texels of a block of the format with code `c`.
pub open spec fn spec_block_size(c: u32) -> (u8, u8, u8) {
    if (20 <= c <= 29) || (81 <= c <= 84) {
        (4, 4, 1)
    } else if 53 <= c <= 80 {
        spec_astc_footprint((c - 53) as int % 14)
    } else {
        (1, 1, 1)
    }
}

/// Block footprint of the `i`-th ASTC layout (in the order 4x4, 5x4, 5x5, 6x5, 6x6,
/// 8x5, 8x6, 8x8, 10x5, 10x6, 10x8, 10x10, 12x10, 12x12).
pub open spec fn spec_astc_footprint(i: int) -> (u8, u8, u8) {
    if i == 0 {
        (4, 4, 1)
    } else if i == 1 {
        (5, 4, 1)
    } else if i == 2 {
        (5, 5, 1)
    } else if i == 3 {
        (6, 5, 1)
    } else if i == 4 {
        (6, 6, 1)
    } else if i == 5 {
        (8, 5, 1)
    } else if i == 6 {
        (8, 6, 1)
    } else if i == 7 {
        (8, 8, 1)
    } else if i == 8 {
        (10, 5, 1)
    } else if i == 9 {
        (10, 6, 1)
    } else if i == 10 {
        (10, 8, 1)
    } else if i == 11 {
        (10, 10, 1)
    } else if i == 12 {
        (12, 10, 1)
    } else {
        (12, 12, 1)
    }
}

/// The format with code `c` is an ASTC format.
pub open spec fn spec_is_astc(c: u32) -> bool {
    53 <= c <= 80
}

/// The format with code `c` stores sRGB-encoded color.
pub open spec fn spec_is_srgb(c: u32) -> bool {
    c == 13 || c == 21 || c == 23 || c == 25 || (67 <= c <= 80) || c == 84
}

/// Bytes per texel (per block for block-compressed formats) of the format with code `c`.
pub open spec fn spec_bytes_per_pixel(c: u32) -> u32 {
    if c <= 3 {
        1
    } else if c <= 8 {
        2
    } else if c <= 10 {
        4
    } else if c == 11 {
        3
    } else if c <= 13 {
        4
    } else if c == 14 {
        8
    } else if c == 15 {
        16
    } else if c <= 17 {
        2
    } else if c <= 19 {
        4
    } else if c <= 21 {
        8
    } else if c <= 25 {
        16
    } else if c <= 27 {
        8
    } else if c <= 29 {
        16
    } else if c <= 31 {
        4
    } else if c <= 35 {
        2
    } else if c <= 42 {
        4
    } else if c <= 45 {
        8
    } else if c <= 49 {
        64
    } else if c <= 51 {
        128
    } else if c == 52 {
        0
    } else {
        16
    }
}

impl ETextureFormat {
    /// Width, height and depth in texels of one block of the format.
    pub fn block_size(self) -> (r: (u8, u8, u8))
        ensures
            r == spec_block_size(self.spec_code()),
    {
        match self {
            ETextureFormat::RgbaBc1Unorm
            | ETextureFormat::RgbaBc1Srgb
            | ETextureFormat::RgbaBc2Unorm
            | ETextureFormat::RgbaBc2Srgb
            | ETextureFormat::RgbaBc3Unorm
            | ETextureFormat::RgbaBc3Srgb
            | ETextureFormat::RgbaBc4Unorm
            | ETextureFormat::RgbaBc4Snorm
            | ETextureFormat::RgbaBc5Unorm
            | ETextureFormat::RgbaBc5Snorm
            | ETextureFormat::BptcUfloat
            | ETextureFormat::BptcSfloat
            | ETextureFormat::BptcUnorm
            | ETextureFormat::BptcUnormSrgb => (4, 4, 1),
            ETextureFormat::RgbaAstc4x4 | ETextureFormat::RgbaAstc4x4Srgb => (4, 4, 1),
            ETextureFormat::RgbaAstc5x4 | ETextureFormat::RgbaAstc5x4Srgb => (5, 4, 1),
            ETextureFormat::RgbaAstc5x5 | ETextureFormat::RgbaAstc5x5Srgb => (5, 5, 1),
            ETextureFormat::RgbaAstc6x5 | ETextureFormat::RgbaAstc6x5Srgb => (6, 5, 1),
            ETextureFormat::RgbaAstc6x6 | ETextureFormat::RgbaAstc6x6Srgb => (6, 6, 1),
            ETextureFormat::RgbaAstc8x5 | ETextureFormat::RgbaAstc8x5Srgb => (8, 5, 1),
            ETextureFormat::RgbaAstc8x6 | ETextureFormat::RgbaAstc8x6Srgb => (8, 6, 1),
            ETextureFormat::RgbaAstc8x8 | ETextureFormat::RgbaAstc8x8Srgb => (8, 8, 1),
            ETextureFormat::RgbaAstc10x5 | ETextureFormat::RgbaAstc10x5Srgb => (10, 5, 1),
            ETextureFormat::RgbaAstc10x6 | ETextureFormat::RgbaAstc10x6Srgb => (10, 6, 1),
            ETextureFormat::RgbaAstc10x8 | ETextureFormat::RgbaAstc10x8Srgb => (10, 8, 1),
            ETextureFormat::RgbaAstc10x10 | ETextureFormat::RgbaAstc10x10Srgb => (10, 10, 1),
            ETextureFormat::RgbaAstc12x10 | ETextureFormat::RgbaAstc12x10Srgb => (12, 10, 1),
            ETextureFormat::RgbaAstc12x12 | ETextureFormat::RgbaAstc12x12Srgb => (12, 12, 1),
            _ => (1, 1, 1),
        }
    }

    /// Whether the format is an ASTC format.
    pub fn is_astc(self) -> (r: bool)
        ensures
            r == spec_is_astc(self.spec_code()),
    {
        match self {
            ETextureFormat::RgbaAstc4x4
            | ETextureFormat::RgbaAstc5x4
            | ETextureFormat::RgbaAstc5x5
            | ETextureFormat::RgbaAstc6x5
            | ETextureFormat::RgbaAstc6x6
            | ETextureFormat::RgbaAstc8x5
            | ETextureFormat::RgbaAstc8x6
            | ETextureFormat::RgbaAstc8x8
            | ETextureFormat::RgbaAstc10x5
            | ETextureFormat::RgbaAstc10x6
            | ETextureFormat::RgbaAstc10x8
            | ETextureFormat::RgbaAstc10x10
            | ETextureFormat::RgbaAstc12x10
            | ETextureFormat::RgbaAstc12x12
            | ETextureFormat::RgbaAstc4x4Srgb
            | ETextureFormat::RgbaAstc5x4Srgb
            | ETextureFormat::RgbaAstc5x5Srgb
            | ETextureFormat::RgbaAstc6x5Srgb
            | ETextureFormat::RgbaAstc6x6Srgb
            | ETextureFormat::RgbaAstc8x5Srgb
            | ETextureFormat::RgbaAstc8x6Srgb
            | ETextureFormat::RgbaAstc8x8Srgb
            | ETextureFormat::RgbaAstc10x5Srgb
            | ETextureFormat::RgbaAstc10x6Srgb
            | ETextureFormat::RgbaAstc10x8Srgb
            | ETextureFormat::RgbaAstc10x10Srgb
            | ETextureFormat::RgbaAstc12x10Srgb
            | ETextureFormat::RgbaAstc12x12Srgb => true,
            _ => false,
        }
    }

    /// Whether the format stores sRGB-encoded color.
    pub fn is_srgb(self) -> (r: bool)
        ensures
            r == spec_is_srgb(self.spec_code()),
    {
        match self {
            ETextureFormat::Rgba8Srgb
            | ETextureFormat::RgbaBc1Srgb
            | ETextureFormat::RgbaBc2Srgb
            | ETextureFormat::RgbaBc3Srgb
            | ETextureFormat::RgbaAstc4x4Srgb
            | ETextureFormat::RgbaAstc5x4Srgb
            | ETextureFormat::RgbaAstc5x5Srgb
            | ETextureFormat::RgbaAstc6x5Srgb
            | ETextureFormat::RgbaAstc6x6Srgb
            | ETextureFormat::RgbaAstc8x5Srgb
            | ETextureFormat::RgbaAstc8x6Srgb
            | ETextureFormat::RgbaAstc8x8Srgb
            | ETextureFormat::RgbaAstc10x5Srgb
            | ETextureFormat::RgbaAstc10x6Srgb
            | ETextureFormat::RgbaAstc10x8Srgb
            | ETextureFormat::RgbaAstc10x10Srgb
            | ETextureFormat::RgbaAstc12x10Srgb
            | ETextureFormat::RgbaAstc12x12Srgb
            | ETextureFormat::BptcUnormSrgb => true,
            _ => false,
        }
    }

    /// Bytes per texel, or per block for block-compressed formats.
    pub fn bytes_per_pixel(self) -> (r: u32)
        ensures
            r == spec_bytes_per_pixel(self.spec_code()),
    {
        match self {
            ETextureFormat::R8Unorm
            | ETextureFormat::R8Snorm
            | ETextureFormat::R8Uint
            | ETextureFormat::R8Sint => 1,
            ETextureFormat::R16Unorm
            | ETextureFormat::R16Snorm
            | ETextureFormat::R16Uint
            | ETextureFormat::R16Sint
            | ETextureFormat::R16Float
            | ETextureFormat::Depth16Unorm
            | ETextureFormat::Depth16Unorm2
            | ETextureFormat::Rg8Unorm
            | ETextureFormat::Rg8Snorm
            | ETextureFormat::Rg8Uint
            | ETextureFormat::Rg8Sint => 2,
            ETextureFormat::R32Uint
            | ETextureFormat::R32Sint
            | ETextureFormat::Rgba8Unorm
            | ETextureFormat::Rgba8Srgb
            | ETextureFormat::Depth24S8Unorm
            | ETextureFormat::Depth32Float
            | ETextureFormat::Rg11B10Float
            | ETextureFormat::R32Float
            | ETextureFormat::Rg16Float
            | ETextureFormat::Rg16Unorm
            | ETextureFormat::Rg16Snorm
            | ETextureFormat::Rg16Uint
            | ETextureFormat::Rg16Sint
            | ETextureFormat::Rgb10A2Unorm
            | ETextureFormat::Rgb10A2Uint => 4,
            ETextureFormat::Rgb8Unorm => 3,
            ETextureFormat::Rgba16Float
            | ETextureFormat::RgbaBc1Unorm
            | ETextureFormat::RgbaBc1Srgb
            | ETextureFormat::RgbaBc4Unorm
            | ETextureFormat::RgbaBc4Snorm
            | ETextureFormat::Rg32Uint
            | ETextureFormat::Rg32Sint
            | ETextureFormat::Rg32Float => 8,
            ETextureFormat::Rgba32Float
            | ETextureFormat::RgbaBc2Unorm
            | ETextureFormat::RgbaBc2Srgb
            | ETextureFormat::RgbaBc3Unorm
            | ETextureFormat::RgbaBc3Srgb
            | ETextureFormat::RgbaBc5Unorm
            | ETextureFormat::RgbaBc5Snorm
            | ETextureFormat::RgbaAstc4x4
            | ETextureFormat::RgbaAstc5x4
            | ETextureFormat::RgbaAstc5x5
            | ETextureFormat::RgbaAstc6x5
            | ETextureFormat::RgbaAstc6x6
            | ETextureFormat::RgbaAstc8x5
            | ETextureFormat::RgbaAstc8x6
            | ETextureFormat::RgbaAstc8x8
            | ETextureFormat::RgbaAstc10x5
            | ETextureFormat::RgbaAstc10x6
            | ETextureFormat::RgbaAstc10x8
            | ETextureFormat::RgbaAstc10x10
            | ETextureFormat::RgbaAstc12x10
            | ETextureFormat::RgbaAstc12x12
            | ETextureFormat::RgbaAstc4x4Srgb
            | ETextureFormat::RgbaAstc5x4Srgb
            | ETextureFormat::RgbaAstc5x5Srgb
            | ETextureFormat::RgbaAstc6x5Srgb
            | ETextureFormat::RgbaAstc6x6Srgb
            | ETextureFormat::RgbaAstc8x5Srgb
            | ETextureFormat::RgbaAstc8x6Srgb
            | ETextureFormat::RgbaAstc8x8Srgb
            | ETextureFormat::RgbaAstc10x5Srgb
            | ETextureFormat::RgbaAstc10x6Srgb
            | ETextureFormat::RgbaAstc10x8Srgb
            | ETextureFormat::RgbaAstc10x10Srgb
            | ETextureFormat::RgbaAstc12x10Srgb
            | ETextureFormat::RgbaAstc12x12Srgb
            | ETextureFormat::BptcUfloat
            | ETextureFormat::BptcSfloat
            | ETextureFormat::BptcUnorm
            | ETextureFormat::BptcUnormSrgb => 16,
            ETextureFormat::Rgba16Unorm
            | ETextureFormat::Rgba16Snorm
            | ETextureFormat::Rgba16Uint
            | ETextureFormat::Rgba16Sint => 64,
            ETextureFormat::Rgba32Uint
            | ETextureFormat::Rgba32Sint => 128,
            ETextureFormat::Unknown => 0,
        }
    }
}

/// Sampler settings stored with a texture.
#[derive(Copy, Clone, Debug, PartialEq, Eq, Structural)]
pub struct STextureSamplerData {
    pub unk: u32,
    pub filter: ETextureFilter,
    pub mip_filter: ETextureMipFilter,
    pub wrap_x: ETextureWrap,
    pub wrap_y: ETextureWrap,
    pub wrap_z: ETextureWrap,
    pub aniso: ETextureAnisotropicRatio,
}

impl FixedRecord for STextureSamplerData {
    open spec fn spec_size() -> int {
        10
    }

    open spec fn spec_parse(s: Seq<u8>, pos: int, e: Endian) -> Option<STextureSamplerData> {
        if s[pos + 4] <= 1 && s[pos + 5] <= 1 && s[pos + 6] <= 5 && s[pos + 7] <= 5 && s[pos + 8]
            <= 5 && (s[pos + 9] <= 4 || s[pos + 9] == 255) {
            Some(
                STextureSamplerData {
                    unk: spec_u32(s, pos, e) as u32,
                    filter: ETextureFilter::spec_from_code(s[pos + 4])->Some_0,
                    mip_filter: ETextureMipFilter::spec_from_code(s[pos + 5])->Some_0,
                    wrap_x: ETextureWrap::spec_from_code(s[pos + 6])->Some_0,
                    wrap_y: ETextureWrap::spec_from_code(s[pos + 7])->Some_0,
                    wrap_z: ETextureWrap::spec_from_code(s[pos + 8])->Some_0,
                    aniso: ETextureAnisotropicRatio::spec_from_code(s[pos + 9])->Some_0,
                },
            )
        } else {
            None
        }
    }

    fn size() -> (r: usize) {
        10
    }

    fn parse(data: &[u8], pos: usize, e: Endian) -> (r: Option<STextureSamplerData>) {
        let _len = data.len();
        let unk = read_u32(data, pos, e).unwrap();
        let filter = ETextureFilter::from_u8(data[pos + 4])?;
        let mip_filter = ETextureMipFilter::from_u8(data[pos + 5])?;
        let wrap_x = ETextureWrap::from_u8(data[pos + 6])?;
        let wrap_y = ETextureWrap::from_u8(data[pos + 7])?;
        let wrap_z = ETextureWrap::from_u8(data[pos + 8])?;
        let aniso = ETextureAnisotropicRatio::from_u8(data[pos + 9])?;
        Some(STextureSamplerData { unk, filter, mip_filter, wrap_x, wrap_y, wrap_z, aniso })
    }
}

/// Texture header: kind, format, size, component mapping, the byte size of each
/// mip level (over all layers) and sampler settings.
#[derive(Clone, Debug)]
pub struct STextureHeader {
    pub kind: ETextureType,
    pub format: ETextureFormat,
    pub width: u32,
    pub height: u32,
    pub layers: u32,
    pub components: [u8; 4],
    pub mip_sizes: Vec<u32>,
    pub sampler_data: STextureSamplerData,
}

/// Where one GPU buffer of a texture lies in the resource: its index, offset and size.
#[derive(Copy, Clone, Debug, PartialEq, Eq, Structural)]
pub struct STextureReadInfo {
    pub index: u8,
    pub offset: u32,
    pub size: u32,
}

impl FixedRecord for STextureReadInfo {
    open spec fn spec_size() -> int {
        9
    }

    open spec fn spec_parse(s: Seq<u8>, pos: int, e: Endian) -> Option<STextureReadInfo> {
        Some(
            STextureReadInfo {
                index: s[pos],
                offset: spec_u32(s, pos + 1, e) as u32,
                size: spec_u32(s, pos + 5, e) as u32,
            },
        )
    }

    fn size() -> (r: usize) {
        9
    }

    fn parse(data: &[u8], pos: usize, e: Endian) -> (r: Option<STextureReadInfo>) {
        let _len = data.len();
        Some(
            STextureReadInfo {
                index: data[pos],
                offset: read_u32(data, pos + 1, e).unwrap(),
                size: read_u32(data, pos + 5, e).unwrap(),
            },
        )
    }
}

/// How the texel data is rebuilt from two compressed GPU buffers. The second buffer
/// may hold uncompressed bytes before and after its compressed part.
#[derive(Copy, Clone, Debug, PartialEq, Eq, Structural)]
pub struct STextureCompressedBufferInfo2 {
    pub first_index: u32,
    pub first_size: u32,
    pub first_dest_offset: u32,
    pub first_dest_size: u32,
    pub unk: u32,
    pub second_index: u32,
    pub second_size: u32,
    pub second_dest_offset: u32,
    pub second_dest_size: u32,
    pub second_decompressed_len: u32,
    pub second_compressed_len: u32,
    pub second_compressed_offset: u32,
}

impl FixedRecord for STextureCompressedBufferInfo2 {
    open spec fn spec_size() -> int {
        48
    }

    open spec fn spec_parse(s: Seq<u8>, pos: int, e: Endian) -> Option<STextureCompressedBufferInfo2> {
        Some(
            STextureCompressedBufferInfo2 {
                first_index: spec_u32(s, pos, e) as u32,
                first_size: spec_u32(s, pos + 4, e) as u32,
                first_dest_offset: spec_u32(s, pos + 8, e) as u32,
                first_dest_size: spec_u32(s, pos + 12, e) as u32,
                unk: spec_u32(s, pos + 16, e) as u32,
                second_index: spec_u32(s, pos + 20, e) as u32,
                second_size: spec_u32(s, pos + 24, e) as u32,
                second_dest_offset: spec_u32(s, pos + 28, e) as u32,
                second_dest_size: spec_u32(s, pos + 32, e) as u32,
                second_decompressed_len: spec_u32(s, pos + 36, e) as u32,
                second_compressed_len: spec_u32(s, pos + 40, e) as u32,
                second_compressed_offset: spec_u32(s, pos + 44, e) as u32,
            },
        )
    }

    fn size() -> (r: usize) {
        48
    }

    fn parse(data: &[u8], pos: usize, e: Endian) -> (r: Option<STextureCompressedBufferInfo2>) {
        let _len = data.len();
        Some(
            STextureCompressedBufferInfo2 {
                first_index: read_u32(data, pos, e).unwrap(),
                first_size: read_u32(data, pos + 4, e).unwrap(),
                first_dest_offset: read_u32(data, pos + 8, e).unwrap(),
                first_dest_size: read_u32(data, pos + 12, e).unwrap(),
                unk: read_u32(data, pos + 16, e).unwrap(),
                second_index: read_u32(data, pos + 20, e).unwrap(),
                second_size: read_u32(data, pos + 24, e).unwrap(),
                second_dest_offset: read_u32(data, pos + 28, e).unwrap(),
                second_dest_size: read_u32(data, pos + 32, e).unwrap(),
                second_decompressed_len: read_u32(data, pos + 36, e).unwrap(),
                second_compressed_len: read_u32(data, pos + 40, e).unwrap(),
                second_compressed_offset: read_u32(data, pos + 44, e).unwrap(),
            },
        )
    }
}

/// Texture metadata stored in the package: sizes and where the GPU buffers lie.
#[derive(Clone, Debug)]
pub struct STextureMetaData {
    pub unk1: u32,
    pub unk2: u32,
    pub alloc_category: u32,
    pub gpu_offset: u32,
    pub align: u32,
    pub decompressed_size: u32,
    pub info: Vec<STextureReadInfo>,
    pub buffers: STextureCompressedBufferInfo2,
}

/// Byte length of the texture metadata stored at the start of `s`.
pub open spec fn spec_texture_meta_len(s: Seq<u8>) -> int {
    28 + 9 * spec_u32(s, 24, Endian::Little) + 48
}

/// The bytes `s` start with a complete texture metadata record.
pub open spec fn spec_texture_meta_ok(s: Seq<u8>) -> bool {
    s.len() >= 28 && spec_texture_meta_len(s) <= s.len()
}

impl STextureMetaData {
    /// Reads the little-endian texture metadata at the start of `data`.
    pub fn read(data: &[u8]) -> (r: Result<STextureMetaData, FormatError>)
        ensures
            r is Ok <==> spec_texture_meta_ok(data@),
            r is Err ==> r == Err::<STextureMetaData, _>(FormatError::InvalidData),
            r matches Ok(m) ==> {
                let s = data@;
                let e = Endian::Little;
                &&& m.unk1 == spec_u32(s, 0, e)
                &&& m.unk2 == spec_u32(s, 4, e)
                &&& m.alloc_category == spec_u32(s, 8, e)
                &&& m.gpu_offset == spec_u32(s, 12, e)
                &&& m.align == spec_u32(s, 16, e)
                &&& m.decompressed_size == spec_u32(s, 20, e)
                &&& Some(m.info@) == spec_parse_records::<STextureReadInfo>(
                    s,
                    28,
                    spec_u32(s, 24, e),
                    e,
                )
                &&& Some(m.buffers) == STextureCompressedBufferInfo2::spec_parse(
                    s,
                    28 + 9 * spec_u32(s, 24, e),
                    e,
                )
            },
    {
        let e = Endian::Little;
        if data.len() < 28 {
            return Err(FormatError::InvalidData);
        }
        let count = read_u32(data, 24, e).unwrap();
        let info = match read_records::<STextureReadInfo>(data, 28, count as usize, e) {
            Some(v) => v,
            None => {
                proof {
                    lemma_records_none_means_short::<STextureReadInfo>(data@, 28, count as int, e);
                }
                return Err(FormatError::InvalidData);
            },
        };
        proof {
            lemma_records_some_fit::<STextureReadInfo>(data@, 28, count as int, e);
        }
        let at = 28 + 9 * count as usize;
        if data.len() - at < 48 {
            return Err(FormatError::InvalidData);
        }
        let buffers = STextureCompressedBufferInfo2::parse(data, at, e).unwrap();
        Ok(
            STextureMetaData {
                unk1: read_u32(data, 0, e).unwrap(),
                unk2: read_u32(data, 4, e).unwrap(),
                alloc_category: read_u32(data, 8, e).unwrap(),
                gpu_offset: read_u32(data, 12, e).unwrap(),
                align: read_u32(data, 16, e).unwrap(),
                decompressed_size: read_u32(data, 20, e).unwrap(),
                info,
                buffers,
            },
        )
    }
}

/// Byte length of the texture header stored at the start of `s`.
pub open spec fn spec_texture_header_len(s: Seq<u8>) -> int {
    28 + 4 * spec_u32(s, 24, Endian::Little) + 10
}

/// The bytes `s` start with a complete texture header with valid codes.
pub open spec fn spec_texture_header_ok(s: Seq<u8>) -> bool {
    let e = Endian::Little;
    &&& s.len() >= 28
    &&& ETextureType::spec_from_code(spec_u32(s, 0, e) as u32) is Some
    &&& ETextureFormat::spec_from_code(spec_u32(s, 4, e) as u32) is Some
    &&& spec_texture_header_len(s) <= s.len()
    &&& STextureSamplerData::spec_parse(s, 28 + 4 * spec_u32(s, 24, e), e) is Some
}

/// `h` is the header stored at the start of `s` (little-endian).
pub open spec fn spec_header_read(h: STextureHeader, s: Seq<u8>) -> bool {
    let e = Endian::Little;
    &&& h.kind.spec_code() == spec_u32(s, 0, e)
    &&& h.format.spec_code() == spec_u32(s, 4, e)
    &&& h.width == spec_u32(s, 8, e)
    &&& h.height == spec_u32(s, 12, e)
    &&& h.layers == spec_u32(s, 16, e)
    &&& h.components@ == s.subrange(20, 24)
    &&& Some(h.mip_sizes@) == spec_parse_records::<u32>(s, 28, spec_u32(s, 24, e), e)
    &&& Some(h.sampler_data) == STextureSamplerData::spec_parse(s, 28 + 4 * spec_u32(s, 24, e), e)
}

impl STextureHeader {
    /// Reads the little-endian texture header at the start of `data`.
    pub fn read(data: &[u8]) -> (r: Result<STextureHeader, FormatError>)
        ensures
            r is Ok <==> spec_texture_header_ok(data@),
            r is Err ==> r == Err::<STextureHeader, _>(FormatError::InvalidData),
            r matches Ok(h) ==> spec_header_read(h, data@),
    {
        let e = Endian::Little;
        if data.len() < 28 {
            return Err(FormatError::InvalidData);
        }
        let kind = match ETextureType::from_u32(read_u32(data, 0, e).unwrap()) {
            Some(k) => k,
            None => return Err(FormatError::InvalidData),
        };
        let format = match ETextureFormat::from_u32(read_u32(data, 4, e).unwrap()) {
            Some(f) => f,
            None => return Err(FormatError::InvalidData),
        };
        let count = read_u32(data, 24, e).unwrap();
        let mip_sizes = match read_records::<u32>(data, 28, count as usize, e) {
            Some(v) => v,
            None => {
                proof {
                    lemma_records_none_means_short::<u32>(data@, 28, count as int, e);
                }
                return Err(FormatError::InvalidData);
            },
        };
        proof {
            lemma_records_some_fit::<u32>(data@, 28, count as int, e);
        }
        let at = 28 + 4 * count as usize;
        if data.len() - at < 10 {
            return Err(FormatError::InvalidData);
        }
        let sampler_data = match STextureSamplerData::parse(data, at, e) {
            Some(sd) => sd,
            None => return Err(FormatError::InvalidData),
        };
        let components = [data[20], data[21], data[22], data[23]];
        proof {
            assert(components@ =~= data@.subrange(20, 24));
        }
        Ok(
            STextureHeader {
                kind,
                format,
                width: read_u32(data, 8, e).unwrap(),
                height: read_u32(data, 12, e).unwrap(),
                layers: read_u32(data, 16, e).unwrap(),
                components,
                mip_sizes,
                sampler_data,
            },
        )
    }
}

/// A texture: its header and its untiled texel data.
#[derive(Clone, Debug)]
pub struct TextureData {
    pub head: STextureHeader,
    pub data: Vec<u8>,
}

/// One layer of one mip level of a texture: its size in texels and where its bytes lie.
#[derive(Debug)]
pub struct TextureSlice {
    pub width: u32,
    pub height: u32,
    pub data_range: core::ops::Range<usize>,
}

/// Extent of mip level `m` of a side that is `x0` texels long at level 0: halved at
/// each level, but never below the block extent `b`.
pub open spec fn spec_mip_extent(x0: u32, b: u8, m: int) -> u32
    decreases m,
{
    if m <= 0 {
        x0
    } else {
        let prev = spec_mip_extent(x0, b, m - 1);
        if prev / 2 >= b as u32 {
            prev / 2
        } else {
            b as u32
        }
    }
}

/// Sum of the first `m` entries of `s`.
pub open spec fn spec_sum(s: Seq<u32>, m: int) -> int
    decreases m,
{
    if m <= 0 || m > s.len() {
        0
    } else {
        spec_sum(s, m - 1) + s[m - 1]
    }
}

/// Sum over the first `m` mip sizes of the size of one layer (`d` layers in all).
pub open spec fn spec_layer_sum(s: Seq<u32>, d: u32, m: int) -> int
    decreases m,
{
    if m <= 0 || m > s.len() {
        0
    } else {
        spec_layer_sum(s, d, m - 1) + s[m - 1] / d
    }
}

/// Every one of the first `m` mip levels of a volume texture splits evenly into its depth slices.
pub open spec fn spec_volume_splits(s: Seq<u32>, d0: u32, bd: u8, m: int) -> bool {
    forall|j: int|
        0 <= j < m ==> (#[trigger] s[j] / spec_mip_extent(d0, bd, j)) * spec_mip_extent(d0, bd, j)
            == s[j]
}

/// The slice of a texture with the given size and byte range.
pub open spec fn spec_slice(w: u32, h: u32, start: int, end: int) -> (u32, u32, int, int) {
    (w, h, start, end)
}

/// Size and byte range of slice `k` of mip level `m` of a texture with header `h`:
/// for a volume texture slice `k` is depth slice `k` of the level, which follows the
/// levels before it; otherwise slice `k` is layer `k`, and layers are stored one after
/// the other, each with all its mip levels.
pub open spec fn spec_texture_slice(h: STextureHeader, m: int, k: int) -> (u32, u32, int, int) {
    let s = h.mip_sizes@;
    let (bw, bh, bd) = spec_block_size(h.format.spec_code());
    let w = spec_mip_extent(h.width, bw, m);
    let ht = spec_mip_extent(h.height, bh, m);
    if h.kind == ETextureType::D3 {
        let d = spec_mip_extent(h.layers, bd, m);
        let ls = s[m] / d;
        (w, ht, spec_sum(s, m) + k * ls, spec_sum(s, m) + (k + 1) * ls)
    } else {
        let ls = s[m] / h.layers;
        let start = k * spec_layer_sum(s, h.layers, s.len() as int) + spec_layer_sum(s, h.layers, m);
        (w, ht, start, start + ls)
    }
}

/// The slices of mip level 0 have the header's width and height, and each further
/// level halves both, but never below the format's block width and height: width and
/// height are kept apart, for layers and depth slices alike.
pub proof fn lemma_slice_extents(h: STextureHeader, m: int, k: int)
    requires
        0 <= m,
    ensures
        m == 0 ==> spec_texture_slice(h, m, k).0 == h.width && spec_texture_slice(h, m, k).1 == h.height,
        m > 0 ==> {
            let bw = spec_block_size(h.format.spec_code()).0 as u32;
            let bh = spec_block_size(h.format.spec_code()).1 as u32;
            let pw = spec_texture_slice(h, m - 1, k).0;
            let ph = spec_texture_slice(h, m - 1, k).1;
            &&& spec_texture_slice(h, m, k).0 == if pw / 2 >= bw { pw / 2 } else { bw }
            &&& spec_texture_slice(h, m, k).1 == if ph / 2 >= bh { ph / 2 } else { bh }
        },
{
}

/// Every mip level of a texture of layers has one slice per layer; a volume texture
/// has one slice per depth slice of the level: the header's depth at level 0, then
/// halved at each level, but never below the format's block depth.
pub proof fn lemma_slice_counts(h: STextureHeader, m: int)
    requires
        0 <= m,
    ensures
        h.kind != ETextureType::D3 ==> spec_slice_count(h, m) == h.layers,
        h.kind == ETextureType::D3 && m == 0 ==> spec_slice_count(h, m) == h.layers,
        h.kind == ETextureType::D3 && m > 0 ==> {
            let bd = spec_block_size(h.format.spec_code()).2 as int;
            let p = spec_slice_count(h, m - 1);
            spec_slice_count(h, m) == if p / 2 >= bd { p / 2 } else { bd }
        },
{
}

/// The slices tile the texture data in order, with no gap and no overlap: the first
/// slice starts at 0; for a texture of layers, each layer holds all its mip levels one
/// after the other (a level's slice takes its share `size / layers` of the level's
/// size) and the next layer starts where the last level of the previous one ends; for
/// a volume texture, the depth slices of a level follow each other, and the next level
/// starts after the last depth slice of a level that splits evenly.
pub proof fn lemma_slice_ranges(h: STextureHeader, m: int, k: int)
    requires
        0 <= m < h.mip_sizes@.len(),
        0 <= k,
        h.layers > 0,
    ensures
        ({
            let s = h.mip_sizes@;
            let n = s.len() as int;
            let cur = spec_texture_slice(h, m, k);
            &&& spec_texture_slice(h, 0, 0).2 == 0
            &&& h.kind != ETextureType::D3 ==> {
                &&& cur.3 - cur.2 == s[m] / h.layers
                &&& m + 1 < n ==> cur.3 == spec_texture_slice(h, m + 1, k).2
                &&& m + 1 == n ==> cur.3 == spec_texture_slice(h, 0, k + 1).2
            }
            &&& h.kind == ETextureType::D3 ==> {
                let d = spec_mip_extent(h.layers, spec_block_size(h.format.spec_code()).2, m);
                &&& d > 0 ==> cur.3 - cur.2 == s[m] / d
                &&& cur.3 == spec_texture_slice(h, m, k + 1).2
                &&& (d > 0 && s[m] / d * d == s[m] && k + 1 == d && m + 1 < n) ==> cur.3 == spec_texture_slice(
                    h,
                    m + 1,
                    0,
                ).2
            }
        }),
{
    let s = h.mip_sizes@;
    let n = s.len() as int;
    if h.kind != ETextureType::D3 {
        let total = spec_layer_sum(s, h.layers, n);
        assert(spec_layer_sum(s, h.layers, m + 1) == spec_layer_sum(s, h.layers, m) + s[m] / h.layers);
        assert((k + 1) * total == k * total + total) by (nonlinear_arith);
        assert(spec_layer_sum(s, h.layers, 0) == 0);
    } else {
        let d = spec_mip_extent(h.layers, spec_block_size(h.format.spec_code()).2, m);
        let ls = s[m] / d;
        assert((k + 1) * ls == k * ls + ls) by (nonlinear_arith);
        assert(spec_sum(s, m + 1) == spec_sum(s, m) + s[m]);
        if d > 0 && s[m] / d * d == s[m] && k + 1 == d {
            assert((k + 1) * ls == s[m]) by (nonlinear_arith)
                requires
                    k + 1 == d,
                    ls == s[m] / d,
                    s[m] / d * d == s[m],
            ;
        }
    }
}

/// Number of slices of mip level `m` of a texture with header `h`.
pub open spec fn spec_slice_count(h: STextureHeader, m: int) -> int {
    if h.kind == ETextureType::D3 {
        spec_mip_extent(h.layers, spec_block_size(h.format.spec_code()).2, m) as int
    } else {
        h.layers as int
    }
}

/// The texture's mip levels can be split without a division by zero or an empty
/// volume slice: each level of a volume texture that is reached (all earlier levels
/// split evenly) has a depth above zero, and is not empty if it splits evenly.
pub open spec fn spec_texture_sliceable(h: STextureHeader) -> bool {
    let s = h.mip_sizes@;
    let bd = spec_block_size(h.format.spec_code()).2;
    &&& spec_sum(s, s.len() as int) <= usize::MAX
    &&& h.kind == ETextureType::D3 ==> forall|m: int|
        0 <= m < s.len() && spec_volume_splits(s, h.layers, bd, m) ==> {
            let d = spec_mip_extent(h.layers, bd, m);
            d > 0 && (s[m] / d * d == s[m] ==> s[m] != 0)
        }
}

/// The size and byte range of a slice.
pub open spec fn slice_view(t: TextureSlice) -> (u32, u32, int, int) {
    (t.width, t.height, t.data_range.start as int, t.data_range.end as int)
}

proof fn lemma_volume_split_fails(s: Seq<u32>, d0: u32, bd: u8, m: int, n: int)
    requires
        0 <= m < n,
        s[m] / spec_mip_extent(d0, bd, m) * spec_mip_extent(d0, bd, m) != s[m],
    ensures
        !spec_volume_splits(s, d0, bd, n),
{
    if spec_volume_splits(s, d0, bd, n) {
        assert((s[m] / spec_mip_extent(d0, bd, m)) * spec_mip_extent(d0, bd, m) == s[m]);
    }
}

proof fn lemma_mip_extent_positive(x0: u32, b: u8, m: int)
    requires
        b >= 1,
        m >= 1,
    ensures
        spec_mip_extent(x0, b, m) >= 1,
    decreases m,
{
    if m > 1 {
        lemma_mip_extent_positive(x0, b, m - 1);
    }
}

proof fn lemma_sum_step(s: Seq<u32>, m: int)
    requires
        0 <= m < s.len(),
    ensures
        spec_sum(s, m + 1) == spec_sum(s, m) + s[m],
        spec_sum(s, m) >= 0,
{
    lemma_sum_nonneg(s, m);
}

proof fn lemma_sum_nonneg(s: Seq<u32>, m: int)
    ensures
        spec_sum(s, m) >= 0,
    decreases m,
{
    if 0 < m <= s.len() {
        lemma_sum_nonneg(s, m - 1);
    }
}

proof fn lemma_sum_mono(s: Seq<u32>, a: int, b: int)
    requires
        0 <= a <= b <= s.len(),
    ensures
        spec_sum(s, a) <= spec_sum(s, b),
    decreases b - a,
{
    if a < b {
        lemma_sum_mono(s, a, b - 1);
    }
}

proof fn lemma_layer_sum_mono(s: Seq<u32>, d: u32, a: int, b: int)
    requires
        0 <= a <= b <= s.len(),
        d > 0,
    ensures
        0 <= spec_layer_sum(s, d, a) <= spec_layer_sum(s, d, b),
    decreases b - a,
{
    if a < b {
        lemma_layer_sum_mono(s, d, a, b - 1);
    } else {
        lemma_layer_sum_nonneg(s, d, a);
    }
}

proof fn lemma_layer_sum_nonneg(s: Seq<u32>, d: u32, m: int)
    requires
        d > 0,
    ensures
        spec_layer_sum(s, d, m) >= 0,
    decreases m,
{
    if 0 < m <= s.len() {
        lemma_layer_sum_nonneg(s, d, m - 1);
    }
}

proof fn lemma_layer_sum_bound(s: Seq<u32>, d: u32, m: int)
    requires
        d > 0,
        0 <= m <= s.len(),
    ensures
        spec_layer_sum(s, d, m) * d <= spec_sum(s, m),
    decreases m,
{
    if m > 0 {
        lemma_layer_sum_bound(s, d, m - 1);
        assert((s[m - 1] / d) * d <= s[m - 1]) by (nonlinear_arith)
            requires
                d > 0,
        ;
        assert(spec_layer_sum(s, d, m) * d == spec_layer_sum(s, d, m - 1) * d + (s[m - 1] / d)
            * d) by (nonlinear_arith)
            requires
                spec_layer_sum(s, d, m) == spec_layer_sum(s, d, m - 1) + s[m - 1] / d,
        ;
    }
}

/// Whether slicing a texture with header `h` stays within the machine's integers and
/// divides no level by zero (see `spec_texture_sliceable`).
pub fn texture_sliceable_check(h: &STextureHeader) -> (r: bool)
    ensures
        r == spec_texture_sliceable(*h),
{
    let ghost s = h.mip_sizes@;
    let n = h.mip_sizes.len();
    let mut total: u128 = 0;
    let mut i: usize = 0;
    while i < n
        invariant
            n == s.len(),
            s == h.mip_sizes@,
            i <= n,
            total == spec_sum(s, i as int),
            total <= i * 0x1_0000_0000,
        decreases n - i,
    {
        total = total + h.mip_sizes[i] as u128;
        i = i + 1;
    }
    if total > usize::MAX as u128 {
        return false;
    }
    let is_volume = match h.kind {
        ETextureType::D3 => true,
        _ => false,
    };
    if !is_volume {
        return true;
    }
    let (_, _, bd) = h.format.block_size();
    let mut d: u32 = h.layers;
    let mut m: usize = 0;
    while m < n
        invariant
            n == s.len(),
            s == h.mip_sizes@,
            h.kind == ETextureType::D3,
            bd == spec_block_size(h.format.spec_code()).2,
            spec_sum(s, s.len() as int) <= usize::MAX,
            m <= n,
            d == spec_mip_extent(h.layers, bd, m as int),
            spec_volume_splits(s, h.layers, bd, m as int),
            forall|j: int|
                0 <= j < m && spec_volume_splits(s, h.layers, bd, j) ==> {
                    let dj = spec_mip_extent(h.layers, bd, j);
                    dj > 0 && (s[j] / dj * dj == s[j] ==> s[j] != 0)
                },
        decreases n - m,
    {
        let size = h.mip_sizes[m];
        if d == 0 {
            return false;
        }
        assert((size / d) * d <= size) by (nonlinear_arith)
            requires
                d > 0,
        ;
        let whole = size / d * d == size;
        if whole && size == 0 {
            return false;
        }
        if !whole {
            assert forall|k: int|
                0 <= k < n && spec_volume_splits(s, h.layers, bd, k) implies {
                    let dk = spec_mip_extent(h.layers, bd, k);
                    dk > 0 && (s[k] / dk * dk == s[k] ==> s[k] != 0)
                } by {
                if k > m {
                    assert((s[m as int] / spec_mip_extent(h.layers, bd, m as int)) * spec_mip_extent(
                        h.layers,
                        bd,
                        m as int,
                    ) == s[m as int]);
                }
            }
            return true;
        }
        assert(spec_volume_splits(s, h.layers, bd, m as int + 1)) by {
            assert forall|j: int| 0 <= j < m + 1 implies (#[trigger] s[j] / spec_mip_extent(h.layers, bd, j))
                * spec_mip_extent(h.layers, bd, j) == s[j] by {
                if j < m {
                    assert(spec_volume_splits(s, h.layers, bd, m as int));
                }
            }
        }
        d = if d / 2 >= bd as u32 {
            d / 2
        } else {
            bd as u32
        };
        m = m + 1;
    }
    true
}

/// Splits the data of a texture into one slice per layer (per depth slice for a
/// volume texture) and mip level, grouped by mip level.
pub fn slice_texture(texture: &TextureData) -> (r: Result<Vec<Vec<TextureSlice>>, FormatError>)
    requires
        spec_texture_sliceable(texture.head),
    ensures
        r is Err <==> texture.head.kind == ETextureType::D3 && !spec_volume_splits(
            texture.head.mip_sizes@,
            texture.head.layers,
            spec_block_size(texture.head.format.spec_code()).2,
            texture.head.mip_sizes@.len() as int,
        ),
        r is Err ==> r == Err::<Vec<Vec<TextureSlice>>, _>(FormatError::UnevenMipLevel),
        r matches Ok(out) ==> {
            &&& out@.len() == texture.head.mip_sizes@.len()
            &&& forall|m: int|
                0 <= m < out@.len() ==> #[trigger] out@[m]@.len() == spec_slice_count(
                    texture.head,
                    m,
                )
            &&& forall|m: int, k: int|
                0 <= m < out@.len() && 0 <= k < out@[m]@.len() ==> slice_view(
                    #[trigger] out@[m]@[k],
                ) == spec_texture_slice(texture.head, m, k)
        },
{
    let head = &texture.head;
    let (bw, bh, bd) = head.format.block_size();
    let n = head.mip_sizes.len();
    let ghost s = head.mip_sizes@;
    let mut out: Vec<Vec<TextureSlice>> = Vec::with_capacity(n);
    let mut w = head.width;
    let mut h = head.height;
    let mut d = head.layers;
    if head.kind == ETextureType::D3 {
        let mut start: usize = 0;
        let mut m: usize = 0;
        while m < n
            invariant
                n == s.len(),
                *head == texture.head,
                s == head.mip_sizes@,
                spec_texture_sliceable(*head),
                head.kind == ETextureType::D3,
                (bw, bh, bd) == spec_block_size(head.format.spec_code()),
                m <= n,
                out@.len() == m,
                w == spec_mip_extent(head.width, bw, m as int),
                h == spec_mip_extent(head.height, bh, m as int),
                d == spec_mip_extent(head.layers, bd, m as int),
                start == spec_sum(s, m as int),
                spec_volume_splits(s, head.layers, bd, m as int),
                forall|j: int| 0 <= j < m ==> #[trigger] out@[j]@.len() == spec_slice_count(*head, j),
                forall|j: int, k: int|
                    0 <= j < m && 0 <= k < out@[j]@.len() ==> slice_view(#[trigger] out@[j]@[k])
                        == spec_texture_slice(*head, j, k),
            decreases n - m,
        {
            let size = head.mip_sizes[m] as usize;
            proof {
                lemma_sum_step(s, m as int);
                lemma_sum_mono(s, m as int + 1, n as int);
                assert(spec_volume_splits(
                    s,
                    head.layers,
                    spec_block_size(head.format.spec_code()).2,
                    m as int,
                ));
                assert(d > 0 && (s[m as int] / d * d == s[m as int] ==> s[m as int] != 0));
                assert((size / (d as usize)) * (d as usize) <= size) by (nonlinear_arith)
                    requires
                        d > 0,
                ;
            }
            let layer_size = size / d as usize;
            if layer_size * d as usize != size {
                proof {
                    lemma_volume_split_fails(s, head.layers, bd, m as int, n as int);
                }
                return Err(FormatError::UnevenMipLevel);
            }
            let mut slices: Vec<TextureSlice> = Vec::with_capacity(d as usize);
            let mut k: usize = 0;
            while k < d as usize
                invariant
                    k <= d,
                    d > 0,
                    layer_size * d == size,
                    start + size <= usize::MAX,
                    slices@.len() == k,
                    forall|i: int|
                        0 <= i < k ==> slice_view(#[trigger] slices@[i]) == spec_slice(
                            w,
                            h,
                            start + i * layer_size,
                            start + (i + 1) * layer_size,
                        ),
                decreases d - k,
            {
                assert(k * layer_size + layer_size <= size) by (nonlinear_arith)
                    requires
                        k < d,
                        layer_size * d == size,
                ;
                let layer_start = start + k * layer_size;
                slices.push(TextureSlice {
                    width: w,
                    height: h,
                    data_range: layer_start..layer_start + layer_size,
                });
                proof {
                    assert(layer_start + layer_size == start + (k + 1) * layer_size) by (nonlinear_arith)
                        requires
                            layer_start == start + k * layer_size,
                    ;
                }
                k = k + 1;
            }
            out.push(slices);
            start = start + size;
            w = if w / 2 >= bw as u32 {
                w / 2
            } else {
                bw as u32
            };
            h = if h / 2 >= bh as u32 {
                h / 2
            } else {
                bh as u32
            };
            d = if d / 2 >= bd as u32 {
                d / 2
            } else {
                bd as u32
            };
            m = m + 1;
        }
    } else {
        let ghost total = spec_layer_sum(s, d, n as int);
        let mut m: usize = 0;
        let mut prefix: usize = 0;
        let mut layer_total: usize = 0;
        if d > 0 {
            let mut j: usize = 0;
            while j < n
                invariant
                    d > 0,
                    n == s.len(),
                    s == head.mip_sizes@,
                    spec_sum(s, n as int) <= usize::MAX,
                    j <= n,
                    layer_total == spec_layer_sum(s, d, j as int),
                decreases n - j,
            {
                proof {
                    lemma_layer_sum_bound(s, d, j as int + 1);
                    lemma_sum_mono(s, j as int + 1, n as int);
                    assert(spec_layer_sum(s, d, j as int + 1) <= spec_layer_sum(s, d, j as int + 1) * d) by (nonlinear_arith)
                        requires
                            d > 0,
                            spec_layer_sum(s, d, j as int + 1) >= 0,
                    ;
                    lemma_layer_sum_nonneg(s, d, j as int + 1);
                }
                layer_total = layer_total + head.mip_sizes[j] as usize / d as usize;
                j = j + 1;
            }
            proof {
                lemma_layer_sum_bound(s, d, n as int);
            }
        }
        while m < n
            invariant
                n == s.len(),
                *head == texture.head,
                s == head.mip_sizes@,
                spec_texture_sliceable(*head),
                head.kind != ETextureType::D3,
                d == head.layers,
                (bw, bh, bd) == spec_block_size(head.format.spec_code()),
                m <= n,
                out@.len() == m,
                d > 0 ==> layer_total == total && total == spec_layer_sum(s, d, n as int) && total
                    * d <= spec_sum(s, n as int),
                d > 0 ==> prefix == spec_layer_sum(s, d, m as int),
                w == spec_mip_extent(head.width, bw, m as int),
                h == spec_mip_extent(head.height, bh, m as int),
                forall|j: int| 0 <= j < m ==> #[trigger] out@[j]@.len() == spec_slice_count(*head, j),
                forall|j: int, k: int|
                    0 <= j < m && 0 <= k < out@[j]@.len() ==> slice_view(#[trigger] out@[j]@[k])
                        == spec_texture_slice(*head, j, k),
            decreases n - m,
        {
            let mut slices: Vec<TextureSlice> = Vec::with_capacity(d as usize);
            if d > 0 {
                let layer_size = head.mip_sizes[m] as usize / d as usize;
                proof {
                    lemma_layer_sum_mono(s, d, m as int + 1, n as int);
                }
                let mut k: usize = 0;
                while k < d as usize
                    invariant
                        d > 0,
                        k <= d,
                        slices@.len() == k,
                        prefix + layer_size <= total,
                        total * d <= usize::MAX,
                        layer_size == s[m as int] / d,
                        layer_total == total,
                        forall|i: int|
                            0 <= i < k ==> slice_view(#[trigger] slices@[i]) == spec_slice(
                                w,
                                h,
                                i * total + prefix,
                                i * total + prefix + layer_size,
                            ),
                    decreases d - k,
                {
                    assert(k * total + total <= total * d) by (nonlinear_arith)
                        requires
                            k < d,
                            total >= 0,
                    ;
                    let layer_start = k * layer_total + prefix;
                    slices.push(TextureSlice {
                        width: w,
                        height: h,
                        data_range: layer_start..layer_start + layer_size,
                    });
                    k = k + 1;
                }
                prefix = prefix + layer_size;
            }
            out.push(slices);
            w = if w / 2 >= bw as u32 {
                w / 2
            } else {
                bw as u32
            };
            h = if h / 2 >= bh as u32 {
                h / 2
            } else {
                bh as u32
            };
            m = m + 1;
        }
    }
    Ok(out)
}

/// The name of a texture type: its dimensions, and whether it is an array, a cube
/// or multisampled.
pub open spec fn texture_type_name(x: ETextureType) -> &'static str {
    match x {
        ETextureType::D1 => "1D",
        ETextureType::D2 => "2D",
        ETextureType::D3 => "3D",
        ETextureType::Cube => "Cube",
        ETextureType::D1Array => "1D Array",
        ETextureType::D2Array => "2D Array",
        ETextureType::D2Multisample => "2D Multisample",
        ETextureType::D2MultisampleArray => "2D Multisample Array",
        ETextureType::CubeArray => "Cube Array",
    }
}

impl ETextureType {
    /// The name under which the texture type is shown (see `texture_type_name`).
    pub fn name(&self) -> (r: &'static str)
        ensures
            r == texture_type_name(*self),
    {
        match self {
            ETextureType::D1 => "1D",
            ETextureType::D2 => "2D",
            ETextureType::D3 => "3D",
            ETextureType::Cube => "Cube",
            ETextureType::D1Array => "1D Array",
            ETextureType::D2Array => "2D Array",
            ETextureType::D2Multisample => "2D Multisample",
            ETextureType::D2MultisampleArray => "2D Multisample Array",
            ETextureType::CubeArray => "Cube Array",
        }
    }

    /// The name of the value, as an owned string (see `texture_type_name`).
    pub fn to_string(&self) -> (r: String)
        ensures
            r@ == texture_type_name(*self)@,
    {
        self.name().to_owned()
    }
}

/// The name of a texture format: its channels, bits and kind of number, and its
/// colour space where it is sRGB.
pub open spec fn texture_format_name(x: ETextureFormat) -> &'static str {
    match x {
        ETextureFormat::R8Unorm => "R8 UNORM",
        ETextureFormat::R8Snorm => "R8 SNORM",
        ETextureFormat::R8Uint => "R8 UINT",
        ETextureFormat::R8Sint => "R8 SINT",
        ETextureFormat::R16Unorm => "R16 UNORM",
        ETextureFormat::R16Snorm => "R16 SNORM",
        ETextureFormat::R16Uint => "R16 UINT",
        ETextureFormat::R16Sint => "R16 SINT",
        ETextureFormat::R16Float => "R16 FLOAT",
        ETextureFormat::R32Uint => "R32 UINT",
        ETextureFormat::R32Sint => "R32 SINT",
        ETextureFormat::Rgb8Unorm => "RGB8 UNORM",
        ETextureFormat::Rgba8Unorm => "RGBA8 UNORM",
        ETextureFormat::Rgba8Srgb => "RGBA8 UNORM (sRGB)",
        ETextureFormat::Rgba16Float => "RGBA16 FLOAT",
        ETextureFormat::Rgba32Float => "RGBA32 FLOAT",
        ETextureFormat::Depth16Unorm | ETextureFormat::Depth16Unorm2 => "D16 UNORM",
        ETextureFormat::Depth24S8Unorm => "D24S8 UNORM",
        ETextureFormat::Depth32Float => "D32 FLOAT",
        ETextureFormat::RgbaBc1Unorm => "BC1 UNORM",
        ETextureFormat::RgbaBc1Srgb => "BC1 UNORM (sRGB)",
        ETextureFormat::RgbaBc2Unorm => "BC2 UNORM",
        ETextureFormat::RgbaBc2Srgb => "BC2 UNORM (sRGB)",
        ETextureFormat::RgbaBc3Unorm => "BC3 UNORM",
        ETextureFormat::RgbaBc3Srgb => "BC3 UNORM (sRGB)",
        ETextureFormat::RgbaBc4Unorm => "BC4 UNORM",
        ETextureFormat::RgbaBc4Snorm => "BC4 SNORM",
        ETextureFormat::RgbaBc5Unorm => "BC5 UNORM",
        ETextureFormat::RgbaBc5Snorm => "BC5 SNORM",
        ETextureFormat::Rg11B10Float => "RG11B10 FLOAT",
        ETextureFormat::R32Float => "R32 FLOAT",
        ETextureFormat::Rg8Unorm => "RG8 UNORM",
        ETextureFormat::Rg8Snorm => "RG8 SNORM",
        ETextureFormat::Rg8Uint => "RG8 UINT",
        ETextureFormat::Rg8Sint => "RG16 SINT",
        ETextureFormat::Rg16Float => "RG16 FLOAT",
        ETextureFormat::Rg16Unorm => "RG16 UNORM",
        ETextureFormat::Rg16Snorm => "RG16 SNORM",
        ETextureFormat::Rg16Uint => "RG16 UINT",
        ETextureFormat::Rg16Sint => "RG16 SINt",
        ETextureFormat::Rgb10A2Unorm => "RGB10A2 UNORM",
        ETextureFormat::Rgb10A2Uint => "RGB10A2 UINT",
        ETextureFormat::Rg32Uint => "RG32 UINT",
        ETextureFormat::Rg32Sint => "RG32 SINT",
        ETextureFormat::Rg32Float => "RG32 FLOAT",
        ETextureFormat::Rgba16Unorm => "RGBA16 UNORM",
        ETextureFormat::Rgba16Snorm => "RGBA16 SNORM",
        ETextureFormat::Rgba16Uint => "RGBA16 UINT",
        ETextureFormat::Rgba16Sint => "RGBA16 SINT",
        ETextureFormat::Rgba32Uint => "RGBA32 UINT",
        ETextureFormat::Rgba32Sint => "RGBA32 SINT",
        ETextureFormat::Unknown => "[unknown]",
        ETextureFormat::RgbaAstc4x4 => "ASTC 4x4",
        ETextureFormat::RgbaAstc5x4 => "ASTC 5x4",
        ETextureFormat::RgbaAstc5x5 => "ASTC 5x5",
        ETextureFormat::RgbaAstc6x5 => "ASTC 6x5",
        ETextureFormat::RgbaAstc6x6 => "ASTC 6x6",
        ETextureFormat::RgbaAstc8x5 => "ASTC 8x5",
        ETextureFormat::RgbaAstc8x6 => "ASTC 8x6",
        ETextureFormat::RgbaAstc8x8 => "ASTC 8x8",
        ETextureFormat::RgbaAstc10x5 => "ASTC 10x5",
        ETextureFormat::RgbaAstc10x6 => "ASTC 10x6",
        ETextureFormat::RgbaAstc10x8 => "ASTC 10x8",
        ETextureFormat::RgbaAstc10x10 => "ASTC 10x10",
        ETextureFormat::RgbaAstc12x10 => "ASTC 12x10",
        ETextureFormat::RgbaAstc12x12 => "ASTC 12x12",
        ETextureFormat::RgbaAstc4x4Srgb => "ASTC 4x4 (sRGB)",
        ETextureFormat::RgbaAstc5x4Srgb => "ASTC 5x4 (sRGB)",
        ETextureFormat::RgbaAstc5x5Srgb => "ASTC 5x5 (sRGB)",
        ETextureFormat::RgbaAstc6x5Srgb => "ASTC 6x5 (sRGB)",
        ETextureFormat::RgbaAstc6x6Srgb => "ASTC 6x6 (sRGB)",
        ETextureFormat::RgbaAstc8x5Srgb => "ASTC 8x5 (sRGB)",
        ETextureFormat::RgbaAstc8x6Srgb => "ASTC 8x6 (sRGB)",
        ETextureFormat::RgbaAstc8x8Srgb => "ASTC 8x8 (sRGB)",
        ETextureFormat::RgbaAstc10x5Srgb => "ASTC 10x5 (sRGB)",
        ETextureFormat::RgbaAstc10x6Srgb => "ASTC 10x6 (sRGB)",
        ETextureFormat::RgbaAstc10x8Srgb => "ASTC 10x8 (sRGB)",
        ETextureFormat::RgbaAstc10x10Srgb => "ASTC 10x10 (sRGB)",
        ETextureFormat::RgbaAstc12x10Srgb => "ASTC 12x10 (sRGB)",
        ETextureFormat::RgbaAstc12x12Srgb => "ASTC 12x12 (sRGB)",
        ETextureFormat::BptcUfloat => "BC6H UFLOAT",
        ETextureFormat::BptcSfloat => "BC6H SFLOAT",
        ETextureFormat::BptcUnorm => "BC7 UNORM",
        ETextureFormat::BptcUnormSrgb => "BC7 UNORM (sRGB)",
    }
}

impl ETextureFormat {
    /// The name under which the texture format is shown (see `texture_format_name`).
    pub fn name(&self) -> (r: &'static str)
        ensures
            r == texture_format_name(*self),
    {
        match self {
            ETextureFormat::R8Unorm => "R8 UNORM",
            ETextureFormat::R8Snorm => "R8 SNORM",
            ETextureFormat::R8Uint => "R8 UINT",
            ETextureFormat::R8Sint => "R8 SINT",
            ETextureFormat::R16Unorm => "R16 UNORM",
            ETextureFormat::R16Snorm => "R16 SNORM",
            ETextureFormat::R16Uint => "R16 UINT",
            ETextureFormat::R16Sint => "R16 SINT",
            ETextureFormat::R16Float => "R16 FLOAT",
            ETextureFormat::R32Uint => "R32 UINT",
            ETextureFormat::R32Sint => "R32 SINT",
            ETextureFormat::Rgb8Unorm => "RGB8 UNORM",
            ETextureFormat::Rgba8Unorm => "RGBA8 UNORM",
            ETextureFormat::Rgba8Srgb => "RGBA8 UNORM (sRGB)",
            ETextureFormat::Rgba16Float => "RGBA16 FLOAT",
            ETextureFormat::Rgba32Float => "RGBA32 FLOAT",
            ETextureFormat::Depth16Unorm | ETextureFormat::Depth16Unorm2 => "D16 UNORM",
            ETextureFormat::Depth24S8Unorm => "D24S8 UNORM",
            ETextureFormat::Depth32Float => "D32 FLOAT",
            ETextureFormat::RgbaBc1Unorm => "BC1 UNORM",
            ETextureFormat::RgbaBc1Srgb => "BC1 UNORM (sRGB)",
            ETextureFormat::RgbaBc2Unorm => "BC2 UNORM",
            ETextureFormat::RgbaBc2Srgb => "BC2 UNORM (sRGB)",
            ETextureFormat::RgbaBc3Unorm => "BC3 UNORM",
            ETextureFormat::RgbaBc3Srgb => "BC3 UNORM (sRGB)",
            ETextureFormat::RgbaBc4Unorm => "BC4 UNORM",
            ETextureFormat::RgbaBc4Snorm => "BC4 SNORM",
            ETextureFormat::RgbaBc5Unorm => "BC5 UNORM",
            ETextureFormat::RgbaBc5Snorm => "BC5 SNORM",
            ETextureFormat::Rg11B10Float => "RG11B10 FLOAT",
            ETextureFormat::R32Float => "R32 FLOAT",
            ETextureFormat::Rg8Unorm => "RG8 UNORM",
            ETextureFormat::Rg8Snorm => "RG8 SNORM",
            ETextureFormat::Rg8Uint => "RG8 UINT",
            ETextureFormat::Rg8Sint => "RG16 SINT",
            ETextureFormat::Rg16Float => "RG16 FLOAT",
            ETextureFormat::Rg16Unorm => "RG16 UNORM",
            ETextureFormat::Rg16Snorm => "RG16 SNORM",
            ETextureFormat::Rg16Uint => "RG16 UINT",
            ETextureFormat::Rg16Sint => "RG16 SINt",
            ETextureFormat::Rgb10A2Unorm => "RGB10A2 UNORM",
            ETextureFormat::Rgb10A2Uint => "RGB10A2 UINT",
            ETextureFormat::Rg32Uint => "RG32 UINT",
            ETextureFormat::Rg32Sint => "RG32 SINT",
            ETextureFormat::Rg32Float => "RG32 FLOAT",
            ETextureFormat::Rgba16Unorm => "RGBA16 UNORM",
            ETextureFormat::Rgba16Snorm => "RGBA16 SNORM",
            ETextureFormat::Rgba16Uint => "RGBA16 UINT",
            ETextureFormat::Rgba16Sint => "RGBA16 SINT",
            ETextureFormat::Rgba32Uint => "RGBA32 UINT",
            ETextureFormat::Rgba32Sint => "RGBA32 SINT",
            ETextureFormat::Unknown => "[unknown]",
            ETextureFormat::RgbaAstc4x4 => "ASTC 4x4",
            ETextureFormat::RgbaAstc5x4 => "ASTC 5x4",
            ETextureFormat::RgbaAstc5x5 => "ASTC 5x5",
            ETextureFormat::RgbaAstc6x5 => "ASTC 6x5",
            ETextureFormat::RgbaAstc6x6 => "ASTC 6x6",
            ETextureFormat::RgbaAstc8x5 => "ASTC 8x5",
            ETextureFormat::RgbaAstc8x6 => "ASTC 8x6",
            ETextureFormat::RgbaAstc8x8 => "ASTC 8x8",
            ETextureFormat::RgbaAstc10x5 => "ASTC 10x5",
            ETextureFormat::RgbaAstc10x6 => "ASTC 10x6",
            ETextureFormat::RgbaAstc10x8 => "ASTC 10x8",
            ETextureFormat::RgbaAstc10x10 => "ASTC 10x10",
            ETextureFormat::RgbaAstc12x10 => "ASTC 12x10",
            ETextureFormat::RgbaAstc12x12 => "ASTC 12x12",
            ETextureFormat::RgbaAstc4x4Srgb => "ASTC 4x4 (sRGB)",
            ETextureFormat::RgbaAstc5x4Srgb => "ASTC 5x4 (sRGB)",
            ETextureFormat::RgbaAstc5x5Srgb => "ASTC 5x5 (sRGB)",
            ETextureFormat::RgbaAstc6x5Srgb => "ASTC 6x5 (sRGB)",
            ETextureFormat::RgbaAstc6x6Srgb => "ASTC 6x6 (sRGB)",
            ETextureFormat::RgbaAstc8x5Srgb => "ASTC 8x5 (sRGB)",
            ETextureFormat::RgbaAstc8x6Srgb => "ASTC 8x6 (sRGB)",
            ETextureFormat::RgbaAstc8x8Srgb => "ASTC 8x8 (sRGB)",
            ETextureFormat::RgbaAstc10x5Srgb => "ASTC 10x5 (sRGB)",
            ETextureFormat::RgbaAstc10x6Srgb => "ASTC 10x6 (sRGB)",
            ETextureFormat::RgbaAstc10x8Srgb => "ASTC 10x8 (sRGB)",
            ETextureFormat::RgbaAstc10x10Srgb => "ASTC 10x10 (sRGB)",
            ETextureFormat::RgbaAstc12x10Srgb => "ASTC 12x10 (sRGB)",
            ETextureFormat::RgbaAstc12x12Srgb => "ASTC 12x12 (sRGB)",
            ETextureFormat::BptcUfloat => "BC6H UFLOAT",
            ETextureFormat::BptcSfloat => "BC6H SFLOAT",
            ETextureFormat::BptcUnorm => "BC7 UNORM",
            ETextureFormat::BptcUnormSrgb => "BC7 UNORM (sRGB)",
        }
    }

    /// The name of the value, as an owned string (see `texture_format_name`).
    pub fn to_string(&self) -> (r: String)
        ensures
            r@ == texture_format_name(*self)@,
    {
        self.name().to_owned()
    }
}


/// `t` ends the text `s`.
pub open spec fn ends_with(s: Seq<char>, t: Seq<char>) -> bool {
    t.len() <= s.len() && s.subrange(s.len() - t.len(), s.len() as int) =~= t
}

/// `t` begins the text `s`.
pub open spec fn starts_with(s: Seq<char>, t: Seq<char>) -> bool {
    t.len() <= s.len() && s.subrange(0, t.len() as int) =~= t
}

/// A format's name ends in " (sRGB)" exactly when the format stores sRGB-encoded
/// colour, and begins with "ASTC " exactly when it is an ASTC format.
pub proof fn lemma_format_name_marks(f: ETextureFormat)
    ensures
        ends_with(texture_format_name(f)@, " (sRGB)"@) == spec_is_srgb(f.spec_code()),
        starts_with(texture_format_name(f)@, "ASTC "@) == spec_is_astc(f.spec_code()),
{
    reveal_strlit(" (sRGB)");
    reveal_strlit("ASTC ");
    match f {
        ETextureFormat::R8Unorm => {
            reveal_strlit("R8 UNORM");
            assert("R8 UNORM"@.subrange(1, 8)[0] != " (sRGB)"@[0]);
            assert("R8 UNORM"@.subrange(0, 5)[0] != "ASTC "@[0]);
        },
        ETextureFormat::R8Snorm => {
            reveal_strlit("R8 SNORM");
            assert("R8 SNORM"@.subrange(1, 8)[0] != " (sRGB)"@[0]);
            assert("R8 SNORM"@.subrange(0, 5)[0] != "ASTC "@[0]);
        },
        ETextureFormat::R8Uint => {
            reveal_strlit("R8 UINT");
            assert("R8 UINT"@.subrange(0, 7)[0] != " (sRGB)"@[0]);
            assert("R8 UINT"@.subrange(0, 5)[0] != "ASTC "@[0]);
        },
        ETextureFormat::R8Sint => {
            reveal_strlit("R8 SINT");
            assert("R8 SINT"@.subrange(0, 7)[0] != " (sRGB)"@[0]);
            assert("R8 SINT"@.subrange(0, 5)[0] != "ASTC "@[0]);
        },
        ETextureFormat::R16Unorm => {
            reveal_strlit("R16 UNORM");
            assert("R16 UNORM"@.subrange(2, 9)[0] != " (sRGB)"@[0]);
            assert("R16 UNORM"@.subrange(0, 5)[0] != "ASTC "@[0]);
        },
        ETextureFormat::R16Snorm => {
            reveal_strlit("R16 SNORM");
            assert("R16 SNORM"@.subrange(2, 9)[0] != " (sRGB)"@[0]);
            assert("R16 SNORM"@.subrange(0, 5)[0] != "ASTC "@[0]);
        },
        ETextureFormat::R16Uint => {
            reveal_strlit("R16 UINT");
            assert("R16 UINT"@.subrange(1, 8)[0] != " (sRGB)"@[0]);
            assert("R16 UINT"@.subrange(0, 5)[0] != "ASTC "@[0]);
        },
        ETextureFormat::R16Sint => {
            reveal_strlit("R16 SINT");
            assert("R16 SINT"@.subrange(1, 8)[0] != " (sRGB)"@[0]);
            assert("R16 SINT"@.subrange(0, 5)[0] != "ASTC "@[0]);
        },
        ETextureFormat::R16Float => {
            reveal_strlit("R16 FLOAT");
            assert("R16 FLOAT"@.subrange(2, 9)[0] != " (sRGB)"@[0]);
            assert("R16 FLOAT"@.subrange(0, 5)[0] != "ASTC "@[0]);
        },
        ETextureFormat::R32Uint => {
            reveal_strlit("R32 UINT");
            assert("R32 UINT"@.subrange(1, 8)[0] != " (sRGB)"@[0]);
            assert("R32 UINT"@.subrange(0, 5)[0] != "ASTC "@[0]);
        },
        ETextureFormat::R32Sint => {
            reveal_strlit("R32 SINT");
            assert("R32 SINT"@.subrange(1, 8)[0] != " (sRGB)"@[0]);
            assert("R32 SINT"@.subrange(0, 5)[0] != "ASTC "@[0]);
        },
        ETextureFormat::Rgb8Unorm => {
            reveal_strlit("RGB8 UNORM");
            assert("RGB8 UNORM"@.subrange(3, 10)[0] != " (sRGB)"@[0]);
            assert("RGB8 UNORM"@.subrange(0, 5)[0] != "ASTC "@[0]);
        },
        ETextureFormat::Rgba8Unorm => {
            reveal_strlit("RGBA8 UNORM");
            assert("RGBA8 UNORM"@.subrange(4, 11)[0] != " (sRGB)"@[0]);
            assert("RGBA8 UNORM"@.subrange(0, 5)[0] != "ASTC "@[0]);
        },
        ETextureFormat::Rgba8Srgb => {
            reveal_strlit("RGBA8 UNORM (sRGB)");
            assert("RGBA8 UNORM (sRGB)"@.subrange(0, 5)[0] != "ASTC "@[0]);
        },
        ETextureFormat::Rgba16Float => {
            reveal_strlit("RGBA16 FLOAT");
            assert("RGBA16 FLOAT"@.subrange(5, 12)[0] != " (sRGB)"@[0]);
            assert("RGBA16 FLOAT"@.subrange(0, 5)[0] != "ASTC "@[0]);
        },
        ETextureFormat::Rgba32Float => {
            reveal_strlit("RGBA32 FLOAT");
            assert("RGBA32 FLOAT"@.subrange(5, 12)[0] != " (sRGB)"@[0]);
            assert("RGBA32 FLOAT"@.subrange(0, 5)[0] != "ASTC "@[0]);
        },
        ETextureFormat::Depth16Unorm | ETextureFormat::Depth16Unorm2 => {
            reveal_strlit("D16 UNORM");
            assert("D16 UNORM"@.subrange(2, 9)[0] != " (sRGB)"@[0]);
            assert("D16 UNORM"@.subrange(0, 5)[0] != "ASTC "@[0]);
        },
        ETextureFormat::Depth24S8Unorm => {
            reveal_strlit("D24S8 UNORM");
            assert("D24S8 UNORM"@.subrange(4, 11)[0] != " (sRGB)"@[0]);
            assert("D24S8 UNORM"@.subrange(0, 5)[0] != "ASTC "@[0]);
        },
        ETextureFormat::Depth32Float => {
            reveal_strlit("D32 FLOAT");
            assert("D32 FLOAT"@.subrange(2, 9)[0] != " (sRGB)"@[0]);
            assert("D32 FLOAT"@.subrange(0, 5)[0] != "ASTC "@[0]);
        },
        ETextureFormat::RgbaBc1Unorm => {
            reveal_strlit("BC1 UNORM");
            assert("BC1 UNORM"@.subrange(2, 9)[0] != " (sRGB)"@[0]);
            assert("BC1 UNORM"@.subrange(0, 5)[0] != "ASTC "@[0]);
        },
        ETextureFormat::RgbaBc1Srgb => {
            reveal_strlit("BC1 UNORM (sRGB)");
            assert("BC1 UNORM (sRGB)"@.subrange(0, 5)[0] != "ASTC "@[0]);
        },
        ETextureFormat::RgbaBc2Unorm => {
            reveal_strlit("BC2 UNORM");
            assert("BC2 UNORM"@.subrange(2, 9)[0] != " (sRGB)"@[0]);
            assert("BC2 UNORM"@.subrange(0, 5)[0] != "ASTC "@[0]);
        },
        ETextureFormat::RgbaBc2Srgb => {
            reveal_strlit("BC2 UNORM (sRGB)");
            assert("BC2 UNORM (sRGB)"@.subrange(0, 5)[0] != "ASTC "@[0]);
        },
        ETextureFormat::RgbaBc3Unorm => {
            reveal_strlit("BC3 UNORM");
            assert("BC3 UNORM"@.subrange(2, 9)[0] != " (sRGB)"@[0]);
            assert("BC3 UNORM"@.subrange(0, 5)[0] != "ASTC "@[0]);
        },
        ETextureFormat::RgbaBc3Srgb => {
            reveal_strlit("BC3 UNORM (sRGB)");
            assert("BC3 UNORM (sRGB)"@.subrange(0, 5)[0] != "ASTC "@[0]);
        },
        ETextureFormat::RgbaBc4Unorm => {
            reveal_strlit("BC4 UNORM");
            assert("BC4 UNORM"@.subrange(2, 9)[0] != " (sRGB)"@[0]);
            assert("BC4 UNORM"@.subrange(0, 5)[0] != "ASTC "@[0]);
        },
        ETextureFormat::RgbaBc4Snorm => {
            reveal_strlit("BC4 SNORM");
            assert("BC4 SNORM"@.subrange(2, 9)[0] != " (sRGB)"@[0]);
            assert("BC4 SNORM"@.subrange(0, 5)[0] != "ASTC "@[0]);
        },
        ETextureFormat::RgbaBc5Unorm => {
            reveal_strlit("BC5 UNORM");
            assert("BC5 UNORM"@.subrange(2, 9)[0] != " (sRGB)"@[0]);
            assert("BC5 UNORM"@.subrange(0, 5)[0] != "ASTC "@[0]);
        },
        ETextureFormat::RgbaBc5Snorm => {
            reveal_strlit("BC5 SNORM");
            assert("BC5 SNORM"@.subrange(2, 9)[0] != " (sRGB)"@[0]);
            assert("BC5 SNORM"@.subrange(0, 5)[0] != "ASTC "@[0]);
        },
        ETextureFormat::Rg11B10Float => {
            reveal_strlit("RG11B10 FLOAT");
            assert("RG11B10 FLOAT"@.subrange(6, 13)[0] != " (sRGB)"@[0]);
            assert("RG11B10 FLOAT"@.subrange(0, 5)[0] != "ASTC "@[0]);
        },
        ETextureFormat::R32Float => {
            reveal_strlit("R32 FLOAT");
            assert("R32 FLOAT"@.subrange(2, 9)[0] != " (sRGB)"@[0]);
            assert("R32 FLOAT"@.subrange(0, 5)[0] != "ASTC "@[0]);
        },
        ETextureFormat::Rg8Unorm => {
            reveal_strlit("RG8 UNORM");
            assert("RG8 UNORM"@.subrange(2, 9)[0] != " (sRGB)"@[0]);
            assert("RG8 UNORM"@.subrange(0, 5)[0] != "ASTC "@[0]);
        },
        ETextureFormat::Rg8Snorm => {
            reveal_strlit("RG8 SNORM");
            assert("RG8 SNORM"@.subrange(2, 9)[0] != " (sRGB)"@[0]);
            assert("RG8 SNORM"@.subrange(0, 5)[0] != "ASTC "@[0]);
        },
        ETextureFormat::Rg8Uint => {
            reveal_strlit("RG8 UINT");
            assert("RG8 UINT"@.subrange(1, 8)[0] != " (sRGB)"@[0]);
            assert("RG8 UINT"@.subrange(0, 5)[0] != "ASTC "@[0]);
        },
        ETextureFormat::Rg8Sint => {
            reveal_strlit("RG16 SINT");
            assert("RG16 SINT"@.subrange(2, 9)[0] != " (sRGB)"@[0]);
            assert("RG16 SINT"@.subrange(0, 5)[0] != "ASTC "@[0]);
        },
        ETextureFormat::Rg16Float => {
            reveal_strlit("RG16 FLOAT");
            assert("RG16 FLOAT"@.subrange(3, 10)[0] != " (sRGB)"@[0]);
            assert("RG16 FLOAT"@.subrange(0, 5)[0] != "ASTC "@[0]);
        },
        ETextureFormat::Rg16Unorm => {
            reveal_strlit("RG16 UNORM");
            assert("RG16 UNORM"@.subrange(3, 10)[0] != " (sRGB)"@[0]);
            assert("RG16 UNORM"@.subrange(0, 5)[0] != "ASTC "@[0]);
        },
        ETextureFormat::Rg16Snorm => {
            reveal_strlit("RG16 SNORM");
            assert("RG16 SNORM"@.subrange(3, 10)[0] != " (sRGB)"@[0]);
            assert("RG16 SNORM"@.subrange(0, 5)[0] != "ASTC "@[0]);
        },
        ETextureFormat::Rg16Uint => {
            reveal_strlit("RG16 UINT");
            assert("RG16 UINT"@.subrange(2, 9)[0] != " (sRGB)"@[0]);
            assert("RG16 UINT"@.subrange(0, 5)[0] != "ASTC "@[0]);
        },
        ETextureFormat::Rg16Sint => {
            reveal_strlit("RG16 SINt");
            assert("RG16 SINt"@.subrange(2, 9)[0] != " (sRGB)"@[0]);
            assert("RG16 SINt"@.subrange(0, 5)[0] != "ASTC "@[0]);
        },
        ETextureFormat::Rgb10A2Unorm => {
            reveal_strlit("RGB10A2 UNORM");
            assert("RGB10A2 UNORM"@.subrange(6, 13)[0] != " (sRGB)"@[0]);
            assert("RGB10A2 UNORM"@.subrange(0, 5)[0] != "ASTC "@[0]);
        },
        ETextureFormat::Rgb10A2Uint => {
            reveal_strlit("RGB10A2 UINT");
            assert("RGB10A2 UINT"@.subrange(5, 12)[0] != " (sRGB)"@[0]);
            assert("RGB10A2 UINT"@.subrange(0, 5)[0] != "ASTC "@[0]);
        },
        ETextureFormat::Rg32Uint => {
            reveal_strlit("RG32 UINT");
            assert("RG32 UINT"@.subrange(2, 9)[0] != " (sRGB)"@[0]);
            assert("RG32 UINT"@.subrange(0, 5)[0] != "ASTC "@[0]);
        },
        ETextureFormat::Rg32Sint => {
            reveal_strlit("RG32 SINT");
            assert("RG32 SINT"@.subrange(2, 9)[0] != " (sRGB)"@[0]);
            assert("RG32 SINT"@.subrange(0, 5)[0] != "ASTC "@[0]);
        },
        ETextureFormat::Rg32Float => {
            reveal_strlit("RG32 FLOAT");
            assert("RG32 FLOAT"@.subrange(3, 10)[0] != " (sRGB)"@[0]);
            assert("RG32 FLOAT"@.subrange(0, 5)[0] != "ASTC "@[0]);
        },
        ETextureFormat::Rgba16Unorm => {
            reveal_strlit("RGBA16 UNORM");
            assert("RGBA16 UNORM"@.subrange(5, 12)[0] != " (sRGB)"@[0]);
            assert("RGBA16 UNORM"@.subrange(0, 5)[0] != "ASTC "@[0]);
        },
        ETextureFormat::Rgba16Snorm => {
            reveal_strlit("RGBA16 SNORM");
            assert("RGBA16 SNORM"@.subrange(5, 12)[0] != " (sRGB)"@[0]);
            assert("RGBA16 SNORM"@.subrange(0, 5)[0] != "ASTC "@[0]);
        },
        ETextureFormat::Rgba16Uint => {
            reveal_strlit("RGBA16 UINT");
            assert("RGBA16 UINT"@.subrange(4, 11)[0] != " (sRGB)"@[0]);
            assert("RGBA16 UINT"@.subrange(0, 5)[0] != "ASTC "@[0]);
        },
        ETextureFormat::Rgba16Sint => {
            reveal_strlit("RGBA16 SINT");
            assert("RGBA16 SINT"@.subrange(4, 11)[0] != " (sRGB)"@[0]);
            assert("RGBA16 SINT"@.subrange(0, 5)[0] != "ASTC "@[0]);
        },
        ETextureFormat::Rgba32Uint => {
            reveal_strlit("RGBA32 UINT");
            assert("RGBA32 UINT"@.subrange(4, 11)[0] != " (sRGB)"@[0]);
            assert("RGBA32 UINT"@.subrange(0, 5)[0] != "ASTC "@[0]);
        },
        ETextureFormat::Rgba32Sint => {
            reveal_strlit("RGBA32 SINT");
            assert("RGBA32 SINT"@.subrange(4, 11)[0] != " (sRGB)"@[0]);
            assert("RGBA32 SINT"@.subrange(0, 5)[0] != "ASTC "@[0]);
        },
        ETextureFormat::Unknown => {
            reveal_strlit("[unknown]");
            assert("[unknown]"@.subrange(2, 9)[0] != " (sRGB)"@[0]);
            assert("[unknown]"@.subrange(0, 5)[0] != "ASTC "@[0]);
        },
        ETextureFormat::RgbaAstc4x4 => {
            reveal_strlit("ASTC 4x4");
            assert("ASTC 4x4"@.subrange(1, 8)[0] != " (sRGB)"@[0]);
        },
        ETextureFormat::RgbaAstc5x4 => {
            reveal_strlit("ASTC 5x4");
            assert("ASTC 5x4"@.subrange(1, 8)[0] != " (sRGB)"@[0]);
        },
        ETextureFormat::RgbaAstc5x5 => {
            reveal_strlit("ASTC 5x5");
            assert("ASTC 5x5"@.subrange(1, 8)[0] != " (sRGB)"@[0]);
        },
        ETextureFormat::RgbaAstc6x5 => {
            reveal_strlit("ASTC 6x5");
            assert("ASTC 6x5"@.subrange(1, 8)[0] != " (sRGB)"@[0]);
        },
        ETextureFormat::RgbaAstc6x6 => {
            reveal_strlit("ASTC 6x6");
            assert("ASTC 6x6"@.subrange(1, 8)[0] != " (sRGB)"@[0]);
        },
        ETextureFormat::RgbaAstc8x5 => {
            reveal_strlit("ASTC 8x5");
            assert("ASTC 8x5"@.subrange(1, 8)[0] != " (sRGB)"@[0]);
        },
        ETextureFormat::RgbaAstc8x6 => {
            reveal_strlit("ASTC 8x6");
            assert("ASTC 8x6"@.subrange(1, 8)[0] != " (sRGB)"@[0]);
        },
        ETextureFormat::RgbaAstc8x8 => {
            reveal_strlit("ASTC 8x8");
            assert("ASTC 8x8"@.subrange(1, 8)[0] != " (sRGB)"@[0]);
        },
        ETextureFormat::RgbaAstc10x5 => {
            reveal_strlit("ASTC 10x5");
            assert("ASTC 10x5"@.subrange(2, 9)[0] != " (sRGB)"@[0]);
        },
        ETextureFormat::RgbaAstc10x6 => {
            reveal_strlit("ASTC 10x6");
            assert("ASTC 10x6"@.subrange(2, 9)[0] != " (sRGB)"@[0]);
        },
        ETextureFormat::RgbaAstc10x8 => {
            reveal_strlit("ASTC 10x8");
            assert("ASTC 10x8"@.subrange(2, 9)[0] != " (sRGB)"@[0]);
        },
        ETextureFormat::RgbaAstc10x10 => {
            reveal_strlit("ASTC 10x10");
            assert("ASTC 10x10"@.subrange(3, 10)[0] != " (sRGB)"@[0]);
        },
        ETextureFormat::RgbaAstc12x10 => {
            reveal_strlit("ASTC 12x10");
            assert("ASTC 12x10"@.subrange(3, 10)[0] != " (sRGB)"@[0]);
        },
        ETextureFormat::RgbaAstc12x12 => {
            reveal_strlit("ASTC 12x12");
            assert("ASTC 12x12"@.subrange(3, 10)[0] != " (sRGB)"@[0]);
        },
        ETextureFormat::RgbaAstc4x4Srgb => {
            reveal_strlit("ASTC 4x4 (sRGB)");
        },
        ETextureFormat::RgbaAstc5x4Srgb => {
            reveal_strlit("ASTC 5x4 (sRGB)");
        },
        ETextureFormat::RgbaAstc5x5Srgb => {
            reveal_strlit("ASTC 5x5 (sRGB)");
        },
        ETextureFormat::RgbaAstc6x5Srgb => {
            reveal_strlit("ASTC 6x5 (sRGB)");
        },
        ETextureFormat::RgbaAstc6x6Srgb => {
            reveal_strlit("ASTC 6x6 (sRGB)");
        },
        ETextureFormat::RgbaAstc8x5Srgb => {
            reveal_strlit("ASTC 8x5 (sRGB)");
        },
        ETextureFormat::RgbaAstc8x6Srgb => {
            reveal_strlit("ASTC 8x6 (sRGB)");
        },
        ETextureFormat::RgbaAstc8x8Srgb => {
            reveal_strlit("ASTC 8x8 (sRGB)");
        },
        ETextureFormat::RgbaAstc10x5Srgb => {
            reveal_strlit("ASTC 10x5 (sRGB)");
        },
        ETextureFormat::RgbaAstc10x6Srgb => {
            reveal_strlit("ASTC 10x6 (sRGB)");
        },
        ETextureFormat::RgbaAstc10x8Srgb => {
            reveal_strlit("ASTC 10x8 (sRGB)");
        },
        ETextureFormat::RgbaAstc10x10Srgb => {
            reveal_strlit("ASTC 10x10 (sRGB)");
        },
        ETextureFormat::RgbaAstc12x10Srgb => {
            reveal_strlit("ASTC 12x10 (sRGB)");
        },
        ETextureFormat::RgbaAstc12x12Srgb => {
            reveal_strlit("ASTC 12x12 (sRGB)");
        },
        ETextureFormat::BptcUfloat => {
            reveal_strlit("BC6H UFLOAT");
            assert("BC6H UFLOAT"@.subrange(4, 11)[1] != " (sRGB)"@[1]);
            assert("BC6H UFLOAT"@.subrange(0, 5)[0] != "ASTC "@[0]);
        },
        ETextureFormat::BptcSfloat => {
            reveal_strlit("BC6H SFLOAT");
            assert("BC6H SFLOAT"@.subrange(4, 11)[1] != " (sRGB)"@[1]);
            assert("BC6H SFLOAT"@.subrange(0, 5)[0] != "ASTC "@[0]);
        },
        ETextureFormat::BptcUnorm => {
            reveal_strlit("BC7 UNORM");
            assert("BC7 UNORM"@.subrange(2, 9)[0] != " (sRGB)"@[0]);
            assert("BC7 UNORM"@.subrange(0, 5)[0] != "ASTC "@[0]);
        },
        ETextureFormat::BptcUnormSrgb => {
            reveal_strlit("BC7 UNORM (sRGB)");
            assert("BC7 UNORM (sRGB)"@.subrange(0, 5)[0] != "ASTC "@[0]);
        },
    }
}

} // verus!

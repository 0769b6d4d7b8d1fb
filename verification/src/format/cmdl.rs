//! Models: buffer descriptions, vertex formats and material identifiers.
use vstd::prelude::*;
use crate::format::{four_cc_at, spec_four_cc_at, FormatError, FourCC};
use crate::util::compression::{decompress_buffer, expand_check, fits, spec_decompress_buffer, zeros};
use crate::util::read::{
    Endian, FixedRecord, lemma_records_none_means_short, lemma_records_some_fit, read_records,
    read_u16, read_u32, spec_parse_records, spec_u16, spec_u32,
};

verus! {

/// Code of the cooked model form.
pub const K_FORM_CMDL: u32 = 0x434D_444C;

/// Code of the skinned model form.
pub const K_FORM_SMDL: u32 = 0x534D_444C;

/// Code of the world model form.
pub const K_FORM_WMDL: u32 = 0x574D_444C;

/// Code of the model header chunk.
pub const K_CHUNK_HEAD: u32 = 0x4845_4144;

/// Code of the world header chunk.
pub const K_CHUNK_WDHD: u32 = 0x5744_4844;

/// Code of the skinned header chunk.
pub const K_CHUNK_SKHD: u32 = 0x534B_4844;

/// Code of the material chunk.
pub const K_CHUNK_MTRL: u32 = 0x4D54_524C;

/// Code of the mesh chunk.
pub const K_CHUNK_MESH: u32 = 0x4D45_5348;

/// Code of the vertex buffer chunk.
pub const K_CHUNK_VBUF: u32 = 0x5642_5546;

/// Code of the index buffer chunk.
pub const K_CHUNK_IBUF: u32 = 0x4942_5546;

/// Code of the GPU data chunk.
pub const K_CHUNK_GPU: u32 = 0x4750_5520;


/// Width of the entries of an index buffer.
#[derive(Copy, Clone, Debug, PartialEq, Eq, Structural, Hash)]
pub enum EBufferType {
    U8,
    U16,
    U32,
}

impl EBufferType {
    /// The number that stands for the value in a file.
    pub open spec fn spec_code(self) -> u32 {
        match self {
            EBufferType::U8 => 0,
            EBufferType::U16 => 1,
            EBufferType::U32 => 2,
        }
    }

    /// The number that stands for the value in a file.
    pub fn to_u32(self) -> (r: u32)
        ensures
            r == self.spec_code(),
    {
        match self {
            EBufferType::U8 => 0,
            EBufferType::U16 => 1,
            EBufferType::U32 => 2,
        }
    }

    /// The value that `value` stands for, if any.
    pub open spec fn spec_from_code(value: u32) -> Option<Self> {
        match value {
            0 => Some(EBufferType::U8),
            1 => Some(EBufferType::U16),
            2 => Some(EBufferType::U32),
            _ => None,
        }
    }

    /// Reading back the code of a value gives the value.
    pub proof fn lemma_code_round_trip(self)
        ensures
            Self::spec_from_code(self.spec_code()) == Some(self),
    {
    }

    /// The value that `value` stands for, if any.
    pub fn from_u32(value: u32) -> (r: Option<Self>)
        ensures
            r == Self::spec_from_code(value),
            r matches Some(v) ==> v.spec_code() == value,
    {
        match value {
            0 => Some(EBufferType::U8),
            1 => Some(EBufferType::U16),
            2 => Some(EBufferType::U32),
            _ => None,
        }
    }
}

/// Format of one vertex attribute.
#[derive(Copy, Clone, Debug, PartialEq, Eq, Structural, Hash)]
pub enum EVertexDataFormat {
    Unknown,
    R8Unorm,
    R8Uint,
    R8Snorm,
    R8Sint,
    R16Unorm,
    R16Uint,
    R16Snorm,
    R16Sint,
    R16Float,
    Rg8Unorm,
    Rg8Uint,
    Rg8Snorm,
    Rg8Sint,
    R32Uint,
    R32Sint,
    R32Float,
    Rg16Unorm,
    Rg16Uint,
    Rg16Snorm,
    Rg16Sint,
    Rg16Float,
    Rgba8Unorm,
    Rgba8Uint,
    Rgba8Snorm,
    Rgba8Sint,
    Rgb10a2Unorm,
    Rgb10a2Uint,
    Rg32Uint,
    Rg32Sint,
    Rg32Float,
    Rgba16Unorm,
    Rgba16Uint,
    Rgba16Snorm,
    Rgba16Sint,
    Rgba16Float,
    Rgb32Uint,
    Rgb32Sint,
    Rgb32Float,
    Rgba32Uint,
    Rgba32Sint,
    Rgba32Float,
}

impl EVertexDataFormat {
    /// The number that stands for the value in a file.
    pub open spec fn spec_code(self) -> u32 {
        match self {
            EVertexDataFormat::Unknown => 4294967295,
            EVertexDataFormat::R8Unorm => 0,
            EVertexDataFormat::R8Uint => 1,
            EVertexDataFormat::R8Snorm => 2,
            EVertexDataFormat::R8Sint => 3,
            EVertexDataFormat::R16Unorm => 4,
            EVertexDataFormat::R16Uint => 5,
            EVertexDataFormat::R16Snorm => 6,
            EVertexDataFormat::R16Sint => 7,
            EVertexDataFormat::R16Float => 8,
            EVertexDataFormat::Rg8Unorm => 9,
            EVertexDataFormat::Rg8Uint => 10,
            EVertexDataFormat::Rg8Snorm => 11,
            EVertexDataFormat::Rg8Sint => 12,
            EVertexDataFormat::R32Uint => 13,
            EVertexDataFormat::R32Sint => 14,
            EVertexDataFormat::R32Float => 15,
            EVertexDataFormat::Rg16Unorm => 16,
            EVertexDataFormat::Rg16Uint => 17,
            EVertexDataFormat::Rg16Snorm => 18,
            EVertexDataFormat::Rg16Sint => 19,
            EVertexDataFormat::Rg16Float => 20,
            EVertexDataFormat::Rgba8Unorm => 21,
            EVertexDataFormat::Rgba8Uint => 22,
            EVertexDataFormat::Rgba8Snorm => 23,
            EVertexDataFormat::Rgba8Sint => 24,
            EVertexDataFormat::Rgb10a2Unorm => 25,
            EVertexDataFormat::Rgb10a2Uint => 26,
            EVertexDataFormat::Rg32Uint => 27,
            EVertexDataFormat::Rg32Sint => 28,
            EVertexDataFormat::Rg32Float => 29,
            EVertexDataFormat::Rgba16Unorm => 30,
            EVertexDataFormat::Rgba16Uint => 31,
            EVertexDataFormat::Rgba16Snorm => 32,
            EVertexDataFormat::Rgba16Sint => 33,
            EVertexDataFormat::Rgba16Float => 34,
            EVertexDataFormat::Rgb32Uint => 35,
            EVertexDataFormat::Rgb32Sint => 36,
            EVertexDataFormat::Rgb32Float => 37,
            EVertexDataFormat::Rgba32Uint => 38,
            EVertexDataFormat::Rgba32Sint => 39,
            EVertexDataFormat::Rgba32Float => 40,
        }
    }

    /// The number that stands for the value in a file.
    pub fn to_u32(self) -> (r: u32)
        ensures
            r == self.spec_code(),
    {
        match self {
            EVertexDataFormat::Unknown => 4294967295,
            EVertexDataFormat::R8Unorm => 0,
            EVertexDataFormat::R8Uint => 1,
            EVertexDataFormat::R8Snorm => 2,
            EVertexDataFormat::R8Sint => 3,
            EVertexDataFormat::R16Unorm => 4,
            EVertexDataFormat::R16Uint => 5,
            EVertexDataFormat::R16Snorm => 6,
            EVertexDataFormat::R16Sint => 7,
            EVertexDataFormat::R16Float => 8,
            EVertexDataFormat::Rg8Unorm => 9,
            EVertexDataFormat::Rg8Uint => 10,
            EVertexDataFormat::Rg8Snorm => 11,
            EVertexDataFormat::Rg8Sint => 12,
            EVertexDataFormat::R32Uint => 13,
            EVertexDataFormat::R32Sint => 14,
            EVertexDataFormat::R32Float => 15,
            EVertexDataFormat::Rg16Unorm => 16,
            EVertexDataFormat::Rg16Uint => 17,
            EVertexDataFormat::Rg16Snorm => 18,
            EVertexDataFormat::Rg16Sint => 19,
            EVertexDataFormat::Rg16Float => 20,
            EVertexDataFormat::Rgba8Unorm => 21,
            EVertexDataFormat::Rgba8Uint => 22,
            EVertexDataFormat::Rgba8Snorm => 23,
            EVertexDataFormat::Rgba8Sint => 24,
            EVertexDataFormat::Rgb10a2Unorm => 25,
            EVertexDataFormat::Rgb10a2Uint => 26,
            EVertexDataFormat::Rg32Uint => 27,
            EVertexDataFormat::Rg32Sint => 28,
            EVertexDataFormat::Rg32Float => 29,
            EVertexDataFormat::Rgba16Unorm => 30,
            EVertexDataFormat::Rgba16Uint => 31,
            EVertexDataFormat::Rgba16Snorm => 32,
            EVertexDataFormat::Rgba16Sint => 33,
            EVertexDataFormat::Rgba16Float => 34,
            EVertexDataFormat::Rgb32Uint => 35,
            EVertexDataFormat::Rgb32Sint => 36,
            EVertexDataFormat::Rgb32Float => 37,
            EVertexDataFormat::Rgba32Uint => 38,
            EVertexDataFormat::Rgba32Sint => 39,
            EVertexDataFormat::Rgba32Float => 40,
        }
    }

    /// The value that `value` stands for, if any.
    pub open spec fn spec_from_code(value: u32) -> Option<Self> {
        match value {
            4294967295 => Some(EVertexDataFormat::Unknown),
            0 => Some(EVertexDataFormat::R8Unorm),
            1 => Some(EVertexDataFormat::R8Uint),
            2 => Some(EVertexDataFormat::R8Snorm),
            3 => Some(EVertexDataFormat::R8Sint),
            4 => Some(EVertexDataFormat::R16Unorm),
            5 => Some(EVertexDataFormat::R16Uint),
            6 => Some(EVertexDataFormat::R16Snorm),
            7 => Some(EVertexDataFormat::R16Sint),
            8 => Some(EVertexDataFormat::R16Float),
            9 => Some(EVertexDataFormat::Rg8Unorm),
            10 => Some(EVertexDataFormat::Rg8Uint),
            11 => Some(EVertexDataFormat::Rg8Snorm),
            12 => Some(EVertexDataFormat::Rg8Sint),
            13 => Some(EVertexDataFormat::R32Uint),
            14 => Some(EVertexDataFormat::R32Sint),
            15 => Some(EVertexDataFormat::R32Float),
            16 => Some(EVertexDataFormat::Rg16Unorm),
            17 => Some(EVertexDataFormat::Rg16Uint),
            18 => Some(EVertexDataFormat::Rg16Snorm),
            19 => Some(EVertexDataFormat::Rg16Sint),
            20 => Some(EVertexDataFormat::Rg16Float),
            21 => Some(EVertexDataFormat::Rgba8Unorm),
            22 => Some(EVertexDataFormat::Rgba8Uint),
            23 => Some(EVertexDataFormat::Rgba8Snorm),
            24 => Some(EVertexDataFormat::Rgba8Sint),
            25 => Some(EVertexDataFormat::Rgb10a2Unorm),
            26 => Some(EVertexDataFormat::Rgb10a2Uint),
            27 => Some(EVertexDataFormat::Rg32Uint),
            28 => Some(EVertexDataFormat::Rg32Sint),
            29 => Some(EVertexDataFormat::Rg32Float),
            30 => Some(EVertexDataFormat::Rgba16Unorm),
            31 => Some(EVertexDataFormat::Rgba16Uint),
            32 => Some(EVertexDataFormat::Rgba16Snorm),
            33 => Some(EVertexDataFormat::Rgba16Sint),
            34 => Some(EVertexDataFormat::Rgba16Float),
            35 => Some(EVertexDataFormat::Rgb32Uint),
            36 => Some(EVertexDataFormat::Rgb32Sint),
            37 => Some(EVertexDataFormat::Rgb32Float),
            38 => Some(EVertexDataFormat::Rgba32Uint),
            39 => Some(EVertexDataFormat::Rgba32Sint),
            40 => Some(EVertexDataFormat::Rgba32Float),
            _ => None,
        }
    }

    /// Reading back the code of a value gives the value.
    pub proof fn lemma_code_round_trip(self)
        ensures
            Self::spec_from_code(self.spec_code()) == Some(self),
    {
    }

    /// The value that `value` stands for, if any.
    pub fn from_u32(value: u32) -> (r: Option<Self>)
        ensures
            r == Self::spec_from_code(value),
            r matches Some(v) ==> v.spec_code() == value,
    {
        match value {
            4294967295 => Some(EVertexDataFormat::Unknown),
            0 => Some(EVertexDataFormat::R8Unorm),
            1 => Some(EVertexDataFormat::R8Uint),
            2 => Some(EVertexDataFormat::R8Snorm),
            3 => Some(EVertexDataFormat::R8Sint),
            4 => Some(EVertexDataFormat::R16Unorm),
            5 => Some(EVertexDataFormat::R16Uint),
            6 => Some(EVertexDataFormat::R16Snorm),
            7 => Some(EVertexDataFormat::R16Sint),
            8 => Some(EVertexDataFormat::R16Float),
            9 => Some(EVertexDataFormat::Rg8Unorm),
            10 => Some(EVertexDataFormat::Rg8Uint),
            11 => Some(EVertexDataFormat::Rg8Snorm),
            12 => Some(EVertexDataFormat::Rg8Sint),
            13 => Some(EVertexDataFormat::R32Uint),
            14 => Some(EVertexDataFormat::R32Sint),
            15 => Some(EVertexDataFormat::R32Float),
            16 => Some(EVertexDataFormat::Rg16Unorm),
            17 => Some(EVertexDataFormat::Rg16Uint),
            18 => Some(EVertexDataFormat::Rg16Snorm),
            19 => Some(EVertexDataFormat::Rg16Sint),
            20 => Some(EVertexDataFormat::Rg16Float),
            21 => Some(EVertexDataFormat::Rgba8Unorm),
            22 => Some(EVertexDataFormat::Rgba8Uint),
            23 => Some(EVertexDataFormat::Rgba8Snorm),
            24 => Some(EVertexDataFormat::Rgba8Sint),
            25 => Some(EVertexDataFormat::Rgb10a2Unorm),
            26 => Some(EVertexDataFormat::Rgb10a2Uint),
            27 => Some(EVertexDataFormat::Rg32Uint),
            28 => Some(EVertexDataFormat::Rg32Sint),
            29 => Some(EVertexDataFormat::Rg32Float),
            30 => Some(EVertexDataFormat::Rgba16Unorm),
            31 => Some(EVertexDataFormat::Rgba16Uint),
            32 => Some(EVertexDataFormat::Rgba16Snorm),
            33 => Some(EVertexDataFormat::Rgba16Sint),
            34 => Some(EVertexDataFormat::Rgba16Float),
            35 => Some(EVertexDataFormat::Rgb32Uint),
            36 => Some(EVertexDataFormat::Rgb32Sint),
            37 => Some(EVertexDataFormat::Rgb32Float),
            38 => Some(EVertexDataFormat::Rgba32Uint),
            39 => Some(EVertexDataFormat::Rgba32Sint),
            40 => Some(EVertexDataFormat::Rgba32Float),
            _ => None,
        }
    }
}

/// Bytes taken by one attribute of the format with code `c`.
pub open spec fn spec_vertex_byte_size(c: u32) -> u32 {
    if c <= 3 {
        1
    } else if c <= 12 {
        2
    } else if c <= 26 {
        4
    } else if c <= 34 {
        8
    } else if c <= 37 {
        12
    } else if c <= 40 {
        16
    } else {
        0
    }
}

/// The attribute format with code `c` holds normalized integers.
pub open spec fn spec_vertex_normalized(c: u32) -> bool {
    c == 0 || c == 2 || c == 4 || c == 6 || c == 9 || c == 11 || c == 16 || c == 18 || c == 21
        || c == 23 || c == 25 || c == 30 || c == 32
}

impl EVertexDataFormat {
    /// Bytes taken by one attribute of this format.
    pub fn byte_size(self) -> (r: u32)
        ensures
            r == spec_vertex_byte_size(self.spec_code()),
    {
        match self {

            EVertexDataFormat::Unknown => 0,

            EVertexDataFormat::R8Unorm => 1,

            EVertexDataFormat::R8Uint => 1,

            EVertexDataFormat::R8Snorm => 1,

            EVertexDataFormat::R8Sint => 1,

            EVertexDataFormat::R16Unorm => 2,

            EVertexDataFormat::R16Uint => 2,

            EVertexDataFormat::R16Snorm => 2,

            EVertexDataFormat::R16Sint => 2,

            EVertexDataFormat::R16Float => 2,

            EVertexDataFormat::Rg8Unorm => 2,

            EVertexDataFormat::Rg8Uint => 2,

            EVertexDataFormat::Rg8Snorm => 2,

            EVertexDataFormat::Rg8Sint => 2,

            EVertexDataFormat::R32Uint => 4,

            EVertexDataFormat::R32Sint => 4,

            EVertexDataFormat::R32Float => 4,

            EVertexDataFormat::Rg16Unorm => 4,

            EVertexDataFormat::Rg16Uint => 4,

            EVertexDataFormat::Rg16Snorm => 4,

            EVertexDataFormat::Rg16Sint => 4,

            EVertexDataFormat::Rg16Float => 4,

            EVertexDataFormat::Rgba8Unorm => 4,

            EVertexDataFormat::Rgba8Uint => 4,

            EVertexDataFormat::Rgba8Snorm => 4,

            EVertexDataFormat::Rgba8Sint => 4,

            EVertexDataFormat::Rgb10a2Unorm => 4,

            EVertexDataFormat::Rgb10a2Uint => 4,

            EVertexDataFormat::Rg32Uint => 8,

            EVertexDataFormat::Rg32Sint => 8,

            EVertexDataFormat::Rg32Float => 8,

            EVertexDataFormat::Rgba16Unorm => 8,

            EVertexDataFormat::Rgba16Uint => 8,

            EVertexDataFormat::Rgba16Snorm => 8,

            EVertexDataFormat::Rgba16Sint => 8,

            EVertexDataFormat::Rgba16Float => 8,

            EVertexDataFormat::Rgb32Uint => 12,

            EVertexDataFormat::Rgb32Sint => 12,

            EVertexDataFormat::Rgb32Float => 12,

            EVertexDataFormat::Rgba32Uint => 16,

            EVertexDataFormat::Rgba32Sint => 16,

            EVertexDataFormat::Rgba32Float => 16,

        }
    }

    /// Whether attributes of this format hold normalized integers.
    pub fn normalized(self) -> (r: bool)
        ensures
            r == spec_vertex_normalized(self.spec_code()),
    {
        matches!(
            self,

            EVertexDataFormat::R8Unorm
                | EVertexDataFormat::R8Snorm
                | EVertexDataFormat::R16Unorm
                | EVertexDataFormat::R16Snorm
                | EVertexDataFormat::Rg8Unorm
                | EVertexDataFormat::Rg8Snorm
                | EVertexDataFormat::Rg16Unorm
                | EVertexDataFormat::Rg16Snorm
                | EVertexDataFormat::Rgba8Unorm
                | EVertexDataFormat::Rgba8Snorm
                | EVertexDataFormat::Rgb10a2Unorm
                | EVertexDataFormat::Rgba16Unorm
                | EVertexDataFormat::Rgba16Snorm

        )
    }
}

/// Meaning of one vertex attribute.
#[derive(Copy, Clone, Debug, PartialEq, Eq, Structural, Hash)]
pub enum EVertexComponent {
    Position,
    Normal,
    Tangent0,
    Tangent1,
    Tangent2,
    TexCoord0,
    TexCoord1,
    TexCoord2,
    TexCoord3,
    Color,
    BoneIndices,
    BoneWeights,
    BakedLightingCoord,
    BakedLightingTangent,
    VertInstanceParams,
    VertInstanceColor,
    VertTransform0,
    VertTransform1,
    VertTransform2,
    CurrentPosition,
    VertInstanceOpacityParams,
    VertInstanceColorIndexingParams,
    VertInstanceOpacityIndexingParams,
    VertInstancePaintParams,
    BakedLightingLookup,
    MaterialChoice0,
    MaterialChoice1,
    MaterialChoice2,
    MaterialChoice3,
}

impl EVertexComponent {
    /// The number that stands for the value in a file.
    pub open spec fn spec_code(self) -> u32 {
        match self {
            EVertexComponent::Position => 0,
            EVertexComponent::Normal => 1,
            EVertexComponent::Tangent0 => 2,
            EVertexComponent::Tangent1 => 3,
            EVertexComponent::Tangent2 => 4,
            EVertexComponent::TexCoord0 => 5,
            EVertexComponent::TexCoord1 => 6,
            EVertexComponent::TexCoord2 => 7,
            EVertexComponent::TexCoord3 => 8,
            EVertexComponent::Color => 9,
            EVertexComponent::BoneIndices => 10,
            EVertexComponent::BoneWeights => 11,
            EVertexComponent::BakedLightingCoord => 12,
            EVertexComponent::BakedLightingTangent => 13,
            EVertexComponent::VertInstanceParams => 14,
            EVertexComponent::VertInstanceColor => 15,
            EVertexComponent::VertTransform0 => 16,
            EVertexComponent::VertTransform1 => 17,
            EVertexComponent::VertTransform2 => 18,
            EVertexComponent::CurrentPosition => 19,
            EVertexComponent::VertInstanceOpacityParams => 20,
            EVertexComponent::VertInstanceColorIndexingParams => 21,
            EVertexComponent::VertInstanceOpacityIndexingParams => 22,
            EVertexComponent::VertInstancePaintParams => 23,
            EVertexComponent::BakedLightingLookup => 24,
            EVertexComponent::MaterialChoice0 => 25,
            EVertexComponent::MaterialChoice1 => 26,
            EVertexComponent::MaterialChoice2 => 27,
            EVertexComponent::MaterialChoice3 => 28,
        }
    }

    /// The number that stands for the value in a file.
    pub fn to_u32(self) -> (r: u32)
        ensures
            r == self.spec_code(),
    {
        match self {
            EVertexComponent::Position => 0,
            EVertexComponent::Normal => 1,
            EVertexComponent::Tangent0 => 2,
            EVertexComponent::Tangent1 => 3,
            EVertexComponent::Tangent2 => 4,
            EVertexComponent::TexCoord0 => 5,
            EVertexComponent::TexCoord1 => 6,
            EVertexComponent::TexCoord2 => 7,
            EVertexComponent::TexCoord3 => 8,
            EVertexComponent::Color => 9,
            EVertexComponent::BoneIndices => 10,
            EVertexComponent::BoneWeights => 11,
            EVertexComponent::BakedLightingCoord => 12,
            EVertexComponent::BakedLightingTangent => 13,
            EVertexComponent::VertInstanceParams => 14,
            EVertexComponent::VertInstanceColor => 15,
            EVertexComponent::VertTransform0 => 16,
            EVertexComponent::VertTransform1 => 17,
            EVertexComponent::VertTransform2 => 18,
            EVertexComponent::CurrentPosition => 19,
            EVertexComponent::VertInstanceOpacityParams => 20,
            EVertexComponent::VertInstanceColorIndexingParams => 21,
            EVertexComponent::VertInstanceOpacityIndexingParams => 22,
            EVertexComponent::VertInstancePaintParams => 23,
            EVertexComponent::BakedLightingLookup => 24,
            EVertexComponent::MaterialChoice0 => 25,
            EVertexComponent::MaterialChoice1 => 26,
            EVertexComponent::MaterialChoice2 => 27,
            EVertexComponent::MaterialChoice3 => 28,
        }
    }

    /// The value that `value` stands for, if any.
    pub open spec fn spec_from_code(value: u32) -> Option<Self> {
        match value {
            0 => Some(EVertexComponent::Position),
            1 => Some(EVertexComponent::Normal),
            2 => Some(EVertexComponent::Tangent0),
            3 => Some(EVertexComponent::Tangent1),
            4 => Some(EVertexComponent::Tangent2),
            5 => Some(EVertexComponent::TexCoord0),
            6 => Some(EVertexComponent::TexCoord1),
            7 => Some(EVertexComponent::TexCoord2),
            8 => Some(EVertexComponent::TexCoord3),
            9 => Some(EVertexComponent::Color),
            10 => Some(EVertexComponent::BoneIndices),
            11 => Some(EVertexComponent::BoneWeights),
            12 => Some(EVertexComponent::BakedLightingCoord),
            13 => Some(EVertexComponent::BakedLightingTangent),
            14 => Some(EVertexComponent::VertInstanceParams),
            15 => Some(EVertexComponent::VertInstanceColor),
            16 => Some(EVertexComponent::VertTransform0),
            17 => Some(EVertexComponent::VertTransform1),
            18 => Some(EVertexComponent::VertTransform2),
            19 => Some(EVertexComponent::CurrentPosition),
            20 => Some(EVertexComponent::VertInstanceOpacityParams),
            21 => Some(EVertexComponent::VertInstanceColorIndexingParams),
            22 => Some(EVertexComponent::VertInstanceOpacityIndexingParams),
            23 => Some(EVertexComponent::VertInstancePaintParams),
            24 => Some(EVertexComponent::BakedLightingLookup),
            25 => Some(EVertexComponent::MaterialChoice0),
            26 => Some(EVertexComponent::MaterialChoice1),
            27 => Some(EVertexComponent::MaterialChoice2),
            28 => Some(EVertexComponent::MaterialChoice3),
            _ => None,
        }
    }

    /// Reading back the code of a value gives the value.
    pub proof fn lemma_code_round_trip(self)
        ensures
            Self::spec_from_code(self.spec_code()) == Some(self),
    {
    }

    /// The value that `value` stands for, if any.
    pub fn from_u32(value: u32) -> (r: Option<Self>)
        ensures
            r == Self::spec_from_code(value),
            r matches Some(v) ==> v.spec_code() == value,
    {
        match value {
            0 => Some(EVertexComponent::Position),
            1 => Some(EVertexComponent::Normal),
            2 => Some(EVertexComponent::Tangent0),
            3 => Some(EVertexComponent::Tangent1),
            4 => Some(EVertexComponent::Tangent2),
            5 => Some(EVertexComponent::TexCoord0),
            6 => Some(EVertexComponent::TexCoord1),
            7 => Some(EVertexComponent::TexCoord2),
            8 => Some(EVertexComponent::TexCoord3),
            9 => Some(EVertexComponent::Color),
            10 => Some(EVertexComponent::BoneIndices),
            11 => Some(EVertexComponent::BoneWeights),
            12 => Some(EVertexComponent::BakedLightingCoord),
            13 => Some(EVertexComponent::BakedLightingTangent),
            14 => Some(EVertexComponent::VertInstanceParams),
            15 => Some(EVertexComponent::VertInstanceColor),
            16 => Some(EVertexComponent::VertTransform0),
            17 => Some(EVertexComponent::VertTransform1),
            18 => Some(EVertexComponent::VertTransform2),
            19 => Some(EVertexComponent::CurrentPosition),
            20 => Some(EVertexComponent::VertInstanceOpacityParams),
            21 => Some(EVertexComponent::VertInstanceColorIndexingParams),
            22 => Some(EVertexComponent::VertInstanceOpacityIndexingParams),
            23 => Some(EVertexComponent::VertInstancePaintParams),
            24 => Some(EVertexComponent::BakedLightingLookup),
            25 => Some(EVertexComponent::MaterialChoice0),
            26 => Some(EVertexComponent::MaterialChoice1),
            27 => Some(EVertexComponent::MaterialChoice2),
            28 => Some(EVertexComponent::MaterialChoice3),
            _ => None,
        }
    }
}

/// Kind of value that a material parameter holds.
#[derive(Copy, Clone, Debug, PartialEq, Eq, Structural, Hash)]
#[allow(non_camel_case_types, clippy::upper_case_acronyms)]
pub enum EMaterialDataType {
    Texture,
    Color,
    Scalar,
    Int1,
    Complex,
    Int4,
    Mat4,
}

impl EMaterialDataType {
    /// Big-endian reading of the four-character code that stands for the value in a file.
    pub open spec fn spec_magic(self) -> u32 {
        match self {
            EMaterialDataType::Texture => 0x54585452, // TXTR
            EMaterialDataType::Color => 0x434F4C52, // COLR
            EMaterialDataType::Scalar => 0x53434C52, // SCLR
            EMaterialDataType::Int1 => 0x494E5431, // INT1
            EMaterialDataType::Complex => 0x43504C58, // CPLX
            EMaterialDataType::Int4 => 0x494E5434, // INT4
            EMaterialDataType::Mat4 => 0x4D415434, // MAT4
        }
    }

    /// Big-endian reading of the four-character code that stands for the value in a file.
    pub fn magic(self) -> (r: u32)
        ensures
            r == self.spec_magic(),
    {
        match self {
            EMaterialDataType::Texture => 0x54585452,
            EMaterialDataType::Color => 0x434F4C52,
            EMaterialDataType::Scalar => 0x53434C52,
            EMaterialDataType::Int1 => 0x494E5431,
            EMaterialDataType::Complex => 0x43504C58,
            EMaterialDataType::Int4 => 0x494E5434,
            EMaterialDataType::Mat4 => 0x4D415434,
        }
    }

    /// The value whose code reads as `value`, if any.
    pub open spec fn spec_from_magic(value: u32) -> Option<Self> {
        match value {
            0x54585452 => Some(EMaterialDataType::Texture),
            0x434F4C52 => Some(EMaterialDataType::Color),
            0x53434C52 => Some(EMaterialDataType::Scalar),
            0x494E5431 => Some(EMaterialDataType::Int1),
            0x43504C58 => Some(EMaterialDataType::Complex),
            0x494E5434 => Some(EMaterialDataType::Int4),
            0x4D415434 => Some(EMaterialDataType::Mat4),
            _ => None,
        }
    }

    /// Reading back the code of a value gives the value.
    pub proof fn lemma_magic_round_trip(self)
        ensures
            Self::spec_from_magic(self.spec_magic()) == Some(self),
    {
    }

    /// The value whose code reads as `value`, if any.
    pub fn from_magic(value: u32) -> (r: Option<Self>)
        ensures
            r == Self::spec_from_magic(value),
            r matches Some(v) ==> v.spec_magic() == value,
    {
        match value {
            0x54585452 => Some(EMaterialDataType::Texture),
            0x434F4C52 => Some(EMaterialDataType::Color),
            0x53434C52 => Some(EMaterialDataType::Scalar),
            0x494E5431 => Some(EMaterialDataType::Int1),
            0x43504C58 => Some(EMaterialDataType::Complex),
            0x494E5434 => Some(EMaterialDataType::Int4),
            0x4D415434 => Some(EMaterialDataType::Mat4),
            _ => None,
        }
    }
}

/// Identifier of a material parameter.
#[derive(Copy, Clone, Debug, PartialEq, Eq, Structural, Hash)]
#[allow(non_camel_case_types, clippy::upper_case_acronyms)]
pub enum EMaterialDataId {
    CBUF,
    ZBUF,
    GBUF,
    GFLG,
    OPCT,
    DIFT,
    ICAN,
    SINC,
    NMAP,
    MNMP,
    REFL,
    REFS,
    REFV,
    SPCT,
    LIBD,
    LIBS,
    FOGR,
    INDI,
    OTMP,
    CGMP,
    OGMP,
    VAND,
    BLAT,
    BCLR,
    METL,
    TCH0,
    TCH1,
    TCH2,
    TCH3,
    TCH4,
    TCH5,
    DIFC,
    SHRC,
    SPCC,
    ICNC,
    ICMC,
    ODAT,
    MDCI,
    MDOI,
    LODC,
    LODP,
    VANP,
    BLAL,
    BLCM,
    INDP,
    PVLO,
    PSXT,
    PTAI,
    PCMD,
    BSAO,
    CCH0,
    CCH1,
    CCH2,
    CCH3,
    CCH4,
    CCH5,
    CCH6,
    BKLT,
    BKLB,
    BKLA,
    BKGL,
    DYIN,
    CLP0,
    HOTP,
    SHID,
    GBFF,
    PMOD,
    PFLG,
    BLPI,
    ICH0,
    ICH1,
    ICH2,
    AUVI,
    ECH0,
    OPCS,
    SPCP,
    INDS,
    BLSM,
    LITS,
    MDOE,
    VANF,
    OTHS,
    PZSO,
    RCH0,
    RCH1,
    RCH2,
    PXFM,
    MCH0,
    BCRL,
    MTLL,
    NRML,
    SHDD,
    SKIN,
    DIMD,
    LIT,
    ALLD,
    DLLD,
    CLLD,
    AUXF,
    WIND,
    WATR,
    DFXS,
    DFXN,
    MCDD,
    CAUS,
    BLPD,
    BLPT,
    FOGS,
    VOLF,
    VFXB,
    VFXD,
    REFP,
    RAIN,
    XCH0,
    XCH1,
}

impl EMaterialDataId {
    /// Big-endian reading of the four-character code that stands for the value in a file.
    pub open spec fn spec_magic(self) -> u32 {
        match self {
            EMaterialDataId::CBUF => 0x43425546, // CBUF
            EMaterialDataId::ZBUF => 0x5A425546, // ZBUF
            EMaterialDataId::GBUF => 0x47425546, // GBUF
            EMaterialDataId::GFLG => 0x47464C47, // GFLG
            EMaterialDataId::OPCT => 0x4F504354, // OPCT
            EMaterialDataId::DIFT => 0x44494654, // DIFT
            EMaterialDataId::ICAN => 0x4943414E, // ICAN
            EMaterialDataId::SINC => 0x53494E43, // SINC
            EMaterialDataId::NMAP => 0x4E4D4150, // NMAP
            EMaterialDataId::MNMP => 0x4D4E4D50, // MNMP
            EMaterialDataId::REFL => 0x5245464C, // REFL
            EMaterialDataId::REFS => 0x52454653, // REFS
            EMaterialDataId::REFV => 0x52454656, // REFV
            EMaterialDataId::SPCT => 0x53504354, // SPCT
            EMaterialDataId::LIBD => 0x4C494244, // LIBD
            EMaterialDataId::LIBS => 0x4C494253, // LIBS
            EMaterialDataId::FOGR => 0x464F4752, // FOGR
            EMaterialDataId::INDI => 0x494E4449, // INDI
            EMaterialDataId::OTMP => 0x4F544D50, // OTMP
            EMaterialDataId::CGMP => 0x43474D50, // CGMP
            EMaterialDataId::OGMP => 0x4F474D50, // OGMP
            EMaterialDataId::VAND => 0x56414E44, // VAND
            EMaterialDataId::BLAT => 0x424C4154, // BLAT
            EMaterialDataId::BCLR => 0x42434C52, // BCLR
            EMaterialDataId::METL => 0x4D45544C, // METL
            EMaterialDataId::TCH0 => 0x54434830, // TCH0
            EMaterialDataId::TCH1 => 0x54434831, // TCH1
            EMaterialDataId::TCH2 => 0x54434832, // TCH2
            EMaterialDataId::TCH3 => 0x54434833, // TCH3
            EMaterialDataId::TCH4 => 0x54434834, // TCH4
            EMaterialDataId::TCH5 => 0x54434835, // TCH5
            EMaterialDataId::DIFC => 0x44494643, // DIFC
            EMaterialDataId::SHRC => 0x53485243, // SHRC
            EMaterialDataId::SPCC => 0x53504343, // SPCC
            EMaterialDataId::ICNC => 0x49434E43, // ICNC
            EMaterialDataId::ICMC => 0x49434D43, // ICMC
            EMaterialDataId::ODAT => 0x4F444154, // ODAT
            EMaterialDataId::MDCI => 0x4D444349, // MDCI
            EMaterialDataId::MDOI => 0x4D444F49, // MDOI
            EMaterialDataId::LODC => 0x4C4F4443, // LODC
            EMaterialDataId::LODP => 0x4C4F4450, // LODP
            EMaterialDataId::VANP => 0x56414E50, // VANP
            EMaterialDataId::BLAL => 0x424C414C, // BLAL
            EMaterialDataId::BLCM => 0x424C434D, // BLCM
            EMaterialDataId::INDP => 0x494E4450, // INDP
            EMaterialDataId::PVLO => 0x50564C4F, // PVLO
            EMaterialDataId::PSXT => 0x50535854, // PSXT
            EMaterialDataId::PTAI => 0x50544149, // PTAI
            EMaterialDataId::PCMD => 0x50434D44, // PCMD
            EMaterialDataId::BSAO => 0x4253414F, // BSAO
            EMaterialDataId::CCH0 => 0x43434830, // CCH0
            EMaterialDataId::CCH1 => 0x43434831, // CCH1
            EMaterialDataId::CCH2 => 0x43434832, // CCH2
            EMaterialDataId::CCH3 => 0x43434833, // CCH3
            EMaterialDataId::CCH4 => 0x43434834, // CCH4
            EMaterialDataId::CCH5 => 0x43434835, // CCH5
            EMaterialDataId::CCH6 => 0x43434836, // CCH6
            EMaterialDataId::BKLT => 0x424B4C54, // BKLT
            EMaterialDataId::BKLB => 0x424B4C42, // BKLB
            EMaterialDataId::BKLA => 0x424B4C41, // BKLA
            EMaterialDataId::BKGL => 0x424B474C, // BKGL
            EMaterialDataId::DYIN => 0x4459494E, // DYIN
            EMaterialDataId::CLP0 => 0x434C5030, // CLP0
            EMaterialDataId::HOTP => 0x484F5450, // HOTP
            EMaterialDataId::SHID => 0x53484944, // SHID
            EMaterialDataId::GBFF => 0x47424646, // GBFF
            EMaterialDataId::PMOD => 0x504D4F44, // PMOD
            EMaterialDataId::PFLG => 0x50464C47, // PFLG
            EMaterialDataId::BLPI => 0x424C5049, // BLPI
            EMaterialDataId::ICH0 => 0x49434830, // ICH0
            EMaterialDataId::ICH1 => 0x49434831, // ICH1
            EMaterialDataId::ICH2 => 0x49434832, // ICH2
            EMaterialDataId::AUVI => 0x41555649, // AUVI
            EMaterialDataId::ECH0 => 0x45434830, // ECH0
            EMaterialDataId::OPCS => 0x4F504353, // OPCS
            EMaterialDataId::SPCP => 0x53504350, // SPCP
            EMaterialDataId::INDS => 0x494E4453, // INDS
            EMaterialDataId::BLSM => 0x424C534D, // BLSM
            EMaterialDataId::LITS => 0x4C495453, // LITS
            EMaterialDataId::MDOE => 0x4D444F45, // MDOE
            EMaterialDataId::VANF => 0x56414E46, // VANF
            EMaterialDataId::OTHS => 0x4F544853, // OTHS
            EMaterialDataId::PZSO => 0x505A534F, // PZSO
            EMaterialDataId::RCH0 => 0x52434830, // RCH0
            EMaterialDataId::RCH1 => 0x52434831, // RCH1
            EMaterialDataId::RCH2 => 0x52434832, // RCH2
            EMaterialDataId::PXFM => 0x5058464D, // PXFM
            EMaterialDataId::MCH0 => 0x4D434830, // MCH0
            EMaterialDataId::BCRL => 0x4243524C, // BCRL
            EMaterialDataId::MTLL => 0x4D544C4C, // MTLL
            EMaterialDataId::NRML => 0x4E524D4C, // NRML
            EMaterialDataId::SHDD => 0x53484444, // SHDD
            EMaterialDataId::SKIN => 0x534B494E, // SKIN
            EMaterialDataId::DIMD => 0x44494D44, // DIMD
            EMaterialDataId::LIT => 0x4C495420, // LIT 
            EMaterialDataId::ALLD => 0x414C4C44, // ALLD
            EMaterialDataId::DLLD => 0x444C4C44, // DLLD
            EMaterialDataId::CLLD => 0x434C4C44, // CLLD
            EMaterialDataId::AUXF => 0x41555846, // AUXF
            EMaterialDataId::WIND => 0x57494E44, // WIND
            EMaterialDataId::WATR => 0x57415452, // WATR
            EMaterialDataId::DFXS => 0x44465853, // DFXS
            EMaterialDataId::DFXN => 0x4446584E, // DFXN
            EMaterialDataId::MCDD => 0x4D434444, // MCDD
            EMaterialDataId::CAUS => 0x43415553, // CAUS
            EMaterialDataId::BLPD => 0x424C5044, // BLPD
            EMaterialDataId::BLPT => 0x424C5054, // BLPT
            EMaterialDataId::FOGS => 0x464F4753, // FOGS
            EMaterialDataId::VOLF => 0x564F4C46, // VOLF
            EMaterialDataId::VFXB => 0x56465842, // VFXB
            EMaterialDataId::VFXD => 0x56465844, // VFXD
            EMaterialDataId::REFP => 0x52454650, // REFP
            EMaterialDataId::RAIN => 0x5241494E, // RAIN
            EMaterialDataId::XCH0 => 0x58434830, // XCH0
            EMaterialDataId::XCH1 => 0x58434831, // XCH1
        }
    }

    /// Big-endian reading of the four-character code that stands for the value in a file.
    pub fn magic(self) -> (r: u32)
        ensures
            r == self.spec_magic(),
    {
        match self {
            EMaterialDataId::CBUF => 0x43425546,
            EMaterialDataId::ZBUF => 0x5A425546,
            EMaterialDataId::GBUF => 0x47425546,
            EMaterialDataId::GFLG => 0x47464C47,
            EMaterialDataId::OPCT => 0x4F504354,
            EMaterialDataId::DIFT => 0x44494654,
            EMaterialDataId::ICAN => 0x4943414E,
            EMaterialDataId::SINC => 0x53494E43,
            EMaterialDataId::NMAP => 0x4E4D4150,
            EMaterialDataId::MNMP => 0x4D4E4D50,
            EMaterialDataId::REFL => 0x5245464C,
            EMaterialDataId::REFS => 0x52454653,
            EMaterialDataId::REFV => 0x52454656,
            EMaterialDataId::SPCT => 0x53504354,
            EMaterialDataId::LIBD => 0x4C494244,
            EMaterialDataId::LIBS => 0x4C494253,
            EMaterialDataId::FOGR => 0x464F4752,
            EMaterialDataId::INDI => 0x494E4449,
            EMaterialDataId::OTMP => 0x4F544D50,
            EMaterialDataId::CGMP => 0x43474D50,
            EMaterialDataId::OGMP => 0x4F474D50,
            EMaterialDataId::VAND => 0x56414E44,
            EMaterialDataId::BLAT => 0x424C4154,
            EMaterialDataId::BCLR => 0x42434C52,
            EMaterialDataId::METL => 0x4D45544C,
            EMaterialDataId::TCH0 => 0x54434830,
            EMaterialDataId::TCH1 => 0x54434831,
            EMaterialDataId::TCH2 => 0x54434832,
            EMaterialDataId::TCH3 => 0x54434833,
            EMaterialDataId::TCH4 => 0x54434834,
            EMaterialDataId::TCH5 => 0x54434835,
            EMaterialDataId::DIFC => 0x44494643,
            EMaterialDataId::SHRC => 0x53485243,
            EMaterialDataId::SPCC => 0x53504343,
            EMaterialDataId::ICNC => 0x49434E43,
            EMaterialDataId::ICMC => 0x49434D43,
            EMaterialDataId::ODAT => 0x4F444154,
            EMaterialDataId::MDCI => 0x4D444349,
            EMaterialDataId::MDOI => 0x4D444F49,
            EMaterialDataId::LODC => 0x4C4F4443,
            EMaterialDataId::LODP => 0x4C4F4450,
            EMaterialDataId::VANP => 0x56414E50,
            EMaterialDataId::BLAL => 0x424C414C,
            EMaterialDataId::BLCM => 0x424C434D,
            EMaterialDataId::INDP => 0x494E4450,
            EMaterialDataId::PVLO => 0x50564C4F,
            EMaterialDataId::PSXT => 0x50535854,
            EMaterialDataId::PTAI => 0x50544149,
            EMaterialDataId::PCMD => 0x50434D44,
            EMaterialDataId::BSAO => 0x4253414F,
            EMaterialDataId::CCH0 => 0x43434830,
            EMaterialDataId::CCH1 => 0x43434831,
            EMaterialDataId::CCH2 => 0x43434832,
            EMaterialDataId::CCH3 => 0x43434833,
            EMaterialDataId::CCH4 => 0x43434834,
            EMaterialDataId::CCH5 => 0x43434835,
            EMaterialDataId::CCH6 => 0x43434836,
            EMaterialDataId::BKLT => 0x424B4C54,
            EMaterialDataId::BKLB => 0x424B4C42,
            EMaterialDataId::BKLA => 0x424B4C41,
            EMaterialDataId::BKGL => 0x424B474C,
            EMaterialDataId::DYIN => 0x4459494E,
            EMaterialDataId::CLP0 => 0x434C5030,
            EMaterialDataId::HOTP => 0x484F5450,
            EMaterialDataId::SHID => 0x53484944,
            EMaterialDataId::GBFF => 0x47424646,
            EMaterialDataId::PMOD => 0x504D4F44,
            EMaterialDataId::PFLG => 0x50464C47,
            EMaterialDataId::BLPI => 0x424C5049,
            EMaterialDataId::ICH0 => 0x49434830,
            EMaterialDataId::ICH1 => 0x49434831,
            EMaterialDataId::ICH2 => 0x49434832,
            EMaterialDataId::AUVI => 0x41555649,
            EMaterialDataId::ECH0 => 0x45434830,
            EMaterialDataId::OPCS => 0x4F504353,
            EMaterialDataId::SPCP => 0x53504350,
            EMaterialDataId::INDS => 0x494E4453,
            EMaterialDataId::BLSM => 0x424C534D,
            EMaterialDataId::LITS => 0x4C495453,
            EMaterialDataId::MDOE => 0x4D444F45,
            EMaterialDataId::VANF => 0x56414E46,
            EMaterialDataId::OTHS => 0x4F544853,
            EMaterialDataId::PZSO => 0x505A534F,
            EMaterialDataId::RCH0 => 0x52434830,
            EMaterialDataId::RCH1 => 0x52434831,
            EMaterialDataId::RCH2 => 0x52434832,
            EMaterialDataId::PXFM => 0x5058464D,
            EMaterialDataId::MCH0 => 0x4D434830,
            EMaterialDataId::BCRL => 0x4243524C,
            EMaterialDataId::MTLL => 0x4D544C4C,
            EMaterialDataId::NRML => 0x4E524D4C,
            EMaterialDataId::SHDD => 0x53484444,
            EMaterialDataId::SKIN => 0x534B494E,
            EMaterialDataId::DIMD => 0x44494D44,
            EMaterialDataId::LIT => 0x4C495420,
            EMaterialDataId::ALLD => 0x414C4C44,
            EMaterialDataId::DLLD => 0x444C4C44,
            EMaterialDataId::CLLD => 0x434C4C44,
            EMaterialDataId::AUXF => 0x41555846,
            EMaterialDataId::WIND => 0x57494E44,
            EMaterialDataId::WATR => 0x57415452,
            EMaterialDataId::DFXS => 0x44465853,
            EMaterialDataId::DFXN => 0x4446584E,
            EMaterialDataId::MCDD => 0x4D434444,
            EMaterialDataId::CAUS => 0x43415553,
            EMaterialDataId::BLPD => 0x424C5044,
            EMaterialDataId::BLPT => 0x424C5054,
            EMaterialDataId::FOGS => 0x464F4753,
            EMaterialDataId::VOLF => 0x564F4C46,
            EMaterialDataId::VFXB => 0x56465842,
            EMaterialDataId::VFXD => 0x56465844,
            EMaterialDataId::REFP => 0x52454650,
            EMaterialDataId::RAIN => 0x5241494E,
            EMaterialDataId::XCH0 => 0x58434830,
            EMaterialDataId::XCH1 => 0x58434831,
        }
    }

    /// The value whose code reads as `value`, if any.
    pub open spec fn spec_from_magic(value: u32) -> Option<Self> {
        match value {
            0x43425546 => Some(EMaterialDataId::CBUF),
            0x5A425546 => Some(EMaterialDataId::ZBUF),
            0x47425546 => Some(EMaterialDataId::GBUF),
            0x47464C47 => Some(EMaterialDataId::GFLG),
            0x4F504354 => Some(EMaterialDataId::OPCT),
            0x44494654 => Some(EMaterialDataId::DIFT),
            0x4943414E => Some(EMaterialDataId::ICAN),
            0x53494E43 => Some(EMaterialDataId::SINC),
            0x4E4D4150 => Some(EMaterialDataId::NMAP),
            0x4D4E4D50 => Some(EMaterialDataId::MNMP),
            0x5245464C => Some(EMaterialDataId::REFL),
            0x52454653 => Some(EMaterialDataId::REFS),
            0x52454656 => Some(EMaterialDataId::REFV),
            0x53504354 => Some(EMaterialDataId::SPCT),
            0x4C494244 => Some(EMaterialDataId::LIBD),
            0x4C494253 => Some(EMaterialDataId::LIBS),
            0x464F4752 => Some(EMaterialDataId::FOGR),
            0x494E4449 => Some(EMaterialDataId::INDI),
            0x4F544D50 => Some(EMaterialDataId::OTMP),
            0x43474D50 => Some(EMaterialDataId::CGMP),
            0x4F474D50 => Some(EMaterialDataId::OGMP),
            0x56414E44 => Some(EMaterialDataId::VAND),
            0x424C4154 => Some(EMaterialDataId::BLAT),
            0x42434C52 => Some(EMaterialDataId::BCLR),
            0x4D45544C => Some(EMaterialDataId::METL),
            0x54434830 => Some(EMaterialDataId::TCH0),
            0x54434831 => Some(EMaterialDataId::TCH1),
            0x54434832 => Some(EMaterialDataId::TCH2),
            0x54434833 => Some(EMaterialDataId::TCH3),
            0x54434834 => Some(EMaterialDataId::TCH4),
            0x54434835 => Some(EMaterialDataId::TCH5),
            0x44494643 => Some(EMaterialDataId::DIFC),
            0x53485243 => Some(EMaterialDataId::SHRC),
            0x53504343 => Some(EMaterialDataId::SPCC),
            0x49434E43 => Some(EMaterialDataId::ICNC),
            0x49434D43 => Some(EMaterialDataId::ICMC),
            0x4F444154 => Some(EMaterialDataId::ODAT),
            0x4D444349 => Some(EMaterialDataId::MDCI),
            0x4D444F49 => Some(EMaterialDataId::MDOI),
            0x4C4F4443 => Some(EMaterialDataId::LODC),
            0x4C4F4450 => Some(EMaterialDataId::LODP),
            0x56414E50 => Some(EMaterialDataId::VANP),
            0x424C414C => Some(EMaterialDataId::BLAL),
            0x424C434D => Some(EMaterialDataId::BLCM),
            0x494E4450 => Some(EMaterialDataId::INDP),
            0x50564C4F => Some(EMaterialDataId::PVLO),
            0x50535854 => Some(EMaterialDataId::PSXT),
            0x50544149 => Some(EMaterialDataId::PTAI),
            0x50434D44 => Some(EMaterialDataId::PCMD),
            0x4253414F => Some(EMaterialDataId::BSAO),
            0x43434830 => Some(EMaterialDataId::CCH0),
            0x43434831 => Some(EMaterialDataId::CCH1),
            0x43434832 => Some(EMaterialDataId::CCH2),
            0x43434833 => Some(EMaterialDataId::CCH3),
            0x43434834 => Some(EMaterialDataId::CCH4),
            0x43434835 => Some(EMaterialDataId::CCH5),
            0x43434836 => Some(EMaterialDataId::CCH6),
            0x424B4C54 => Some(EMaterialDataId::BKLT),
            0x424B4C42 => Some(EMaterialDataId::BKLB),
            0x424B4C41 => Some(EMaterialDataId::BKLA),
            0x424B474C => Some(EMaterialDataId::BKGL),
            0x4459494E => Some(EMaterialDataId::DYIN),
            0x434C5030 => Some(EMaterialDataId::CLP0),
            0x484F5450 => Some(EMaterialDataId::HOTP),
            0x53484944 => Some(EMaterialDataId::SHID),
            0x47424646 => Some(EMaterialDataId::GBFF),
            0x504D4F44 => Some(EMaterialDataId::PMOD),
            0x50464C47 => Some(EMaterialDataId::PFLG),
            0x424C5049 => Some(EMaterialDataId::BLPI),
            0x49434830 => Some(EMaterialDataId::ICH0),
            0x49434831 => Some(EMaterialDataId::ICH1),
            0x49434832 => Some(EMaterialDataId::ICH2),
            0x41555649 => Some(EMaterialDataId::AUVI),
            0x45434830 => Some(EMaterialDataId::ECH0),
            0x4F504353 => Some(EMaterialDataId::OPCS),
            0x53504350 => Some(EMaterialDataId::SPCP),
            0x494E4453 => Some(EMaterialDataId::INDS),
            0x424C534D => Some(EMaterialDataId::BLSM),
            0x4C495453 => Some(EMaterialDataId::LITS),
            0x4D444F45 => Some(EMaterialDataId::MDOE),
            0x56414E46 => Some(EMaterialDataId::VANF),
            0x4F544853 => Some(EMaterialDataId::OTHS),
            0x505A534F => Some(EMaterialDataId::PZSO),
            0x52434830 => Some(EMaterialDataId::RCH0),
            0x52434831 => Some(EMaterialDataId::RCH1),
            0x52434832 => Some(EMaterialDataId::RCH2),
            0x5058464D => Some(EMaterialDataId::PXFM),
            0x4D434830 => Some(EMaterialDataId::MCH0),
            0x4243524C => Some(EMaterialDataId::BCRL),
            0x4D544C4C => Some(EMaterialDataId::MTLL),
            0x4E524D4C => Some(EMaterialDataId::NRML),
            0x53484444 => Some(EMaterialDataId::SHDD),
            0x534B494E => Some(EMaterialDataId::SKIN),
            0x44494D44 => Some(EMaterialDataId::DIMD),
            0x4C495420 => Some(EMaterialDataId::LIT),
            0x414C4C44 => Some(EMaterialDataId::ALLD),
            0x444C4C44 => Some(EMaterialDataId::DLLD),
            0x434C4C44 => Some(EMaterialDataId::CLLD),
            0x41555846 => Some(EMaterialDataId::AUXF),
            0x57494E44 => Some(EMaterialDataId::WIND),
            0x57415452 => Some(EMaterialDataId::WATR),
            0x44465853 => Some(EMaterialDataId::DFXS),
            0x4446584E => Some(EMaterialDataId::DFXN),
            0x4D434444 => Some(EMaterialDataId::MCDD),
            0x43415553 => Some(EMaterialDataId::CAUS),
            0x424C5044 => Some(EMaterialDataId::BLPD),
            0x424C5054 => Some(EMaterialDataId::BLPT),
            0x464F4753 => Some(EMaterialDataId::FOGS),
            0x564F4C46 => Some(EMaterialDataId::VOLF),
            0x56465842 => Some(EMaterialDataId::VFXB),
            0x56465844 => Some(EMaterialDataId::VFXD),
            0x52454650 => Some(EMaterialDataId::REFP),
            0x5241494E => Some(EMaterialDataId::RAIN),
            0x58434830 => Some(EMaterialDataId::XCH0),
            0x58434831 => Some(EMaterialDataId::XCH1),
            _ => None,
        }
    }

    /// Reading back the code of a value gives the value.
    pub proof fn lemma_magic_round_trip(self)
        ensures
            Self::spec_from_magic(self.spec_magic()) == Some(self),
    {
    }

    /// The value whose code reads as `value`, if any.
    pub fn from_magic(value: u32) -> (r: Option<Self>)
        ensures
            r == Self::spec_from_magic(value),
            r matches Some(v) ==> v.spec_magic() == value,
    {
        match value {
            0x43425546 => Some(EMaterialDataId::CBUF),
            0x5A425546 => Some(EMaterialDataId::ZBUF),
            0x47425546 => Some(EMaterialDataId::GBUF),
            0x47464C47 => Some(EMaterialDataId::GFLG),
            0x4F504354 => Some(EMaterialDataId::OPCT),
            0x44494654 => Some(EMaterialDataId::DIFT),
            0x4943414E => Some(EMaterialDataId::ICAN),
            0x53494E43 => Some(EMaterialDataId::SINC),
            0x4E4D4150 => Some(EMaterialDataId::NMAP),
            0x4D4E4D50 => Some(EMaterialDataId::MNMP),
            0x5245464C => Some(EMaterialDataId::REFL),
            0x52454653 => Some(EMaterialDataId::REFS),
            0x52454656 => Some(EMaterialDataId::REFV),
            0x53504354 => Some(EMaterialDataId::SPCT),
            0x4C494244 => Some(EMaterialDataId::LIBD),
            0x4C494253 => Some(EMaterialDataId::LIBS),
            0x464F4752 => Some(EMaterialDataId::FOGR),
            0x494E4449 => Some(EMaterialDataId::INDI),
            0x4F544D50 => Some(EMaterialDataId::OTMP),
            0x43474D50 => Some(EMaterialDataId::CGMP),
            0x4F474D50 => Some(EMaterialDataId::OGMP),
            0x56414E44 => Some(EMaterialDataId::VAND),
            0x424C4154 => Some(EMaterialDataId::BLAT),
            0x42434C52 => Some(EMaterialDataId::BCLR),
            0x4D45544C => Some(EMaterialDataId::METL),
            0x54434830 => Some(EMaterialDataId::TCH0),
            0x54434831 => Some(EMaterialDataId::TCH1),
            0x54434832 => Some(EMaterialDataId::TCH2),
            0x54434833 => Some(EMaterialDataId::TCH3),
            0x54434834 => Some(EMaterialDataId::TCH4),
            0x54434835 => Some(EMaterialDataId::TCH5),
            0x44494643 => Some(EMaterialDataId::DIFC),
            0x53485243 => Some(EMaterialDataId::SHRC),
            0x53504343 => Some(EMaterialDataId::SPCC),
            0x49434E43 => Some(EMaterialDataId::ICNC),
            0x49434D43 => Some(EMaterialDataId::ICMC),
            0x4F444154 => Some(EMaterialDataId::ODAT),
            0x4D444349 => Some(EMaterialDataId::MDCI),
            0x4D444F49 => Some(EMaterialDataId::MDOI),
            0x4C4F4443 => Some(EMaterialDataId::LODC),
            0x4C4F4450 => Some(EMaterialDataId::LODP),
            0x56414E50 => Some(EMaterialDataId::VANP),
            0x424C414C => Some(EMaterialDataId::BLAL),
            0x424C434D => Some(EMaterialDataId::BLCM),
            0x494E4450 => Some(EMaterialDataId::INDP),
            0x50564C4F => Some(EMaterialDataId::PVLO),
            0x50535854 => Some(EMaterialDataId::PSXT),
            0x50544149 => Some(EMaterialDataId::PTAI),
            0x50434D44 => Some(EMaterialDataId::PCMD),
            0x4253414F => Some(EMaterialDataId::BSAO),
            0x43434830 => Some(EMaterialDataId::CCH0),
            0x43434831 => Some(EMaterialDataId::CCH1),
            0x43434832 => Some(EMaterialDataId::CCH2),
            0x43434833 => Some(EMaterialDataId::CCH3),
            0x43434834 => Some(EMaterialDataId::CCH4),
            0x43434835 => Some(EMaterialDataId::CCH5),
            0x43434836 => Some(EMaterialDataId::CCH6),
            0x424B4C54 => Some(EMaterialDataId::BKLT),
            0x424B4C42 => Some(EMaterialDataId::BKLB),
            0x424B4C41 => Some(EMaterialDataId::BKLA),
            0x424B474C => Some(EMaterialDataId::BKGL),
            0x4459494E => Some(EMaterialDataId::DYIN),
            0x434C5030 => Some(EMaterialDataId::CLP0),
            0x484F5450 => Some(EMaterialDataId::HOTP),
            0x53484944 => Some(EMaterialDataId::SHID),
            0x47424646 => Some(EMaterialDataId::GBFF),
            0x504D4F44 => Some(EMaterialDataId::PMOD),
            0x50464C47 => Some(EMaterialDataId::PFLG),
            0x424C5049 => Some(EMaterialDataId::BLPI),
            0x49434830 => Some(EMaterialDataId::ICH0),
            0x49434831 => Some(EMaterialDataId::ICH1),
            0x49434832 => Some(EMaterialDataId::ICH2),
            0x41555649 => Some(EMaterialDataId::AUVI),
            0x45434830 => Some(EMaterialDataId::ECH0),
            0x4F504353 => Some(EMaterialDataId::OPCS),
            0x53504350 => Some(EMaterialDataId::SPCP),
            0x494E4453 => Some(EMaterialDataId::INDS),
            0x424C534D => Some(EMaterialDataId::BLSM),
            0x4C495453 => Some(EMaterialDataId::LITS),
            0x4D444F45 => Some(EMaterialDataId::MDOE),
            0x56414E46 => Some(EMaterialDataId::VANF),
            0x4F544853 => Some(EMaterialDataId::OTHS),
            0x505A534F => Some(EMaterialDataId::PZSO),
            0x52434830 => Some(EMaterialDataId::RCH0),
            0x52434831 => Some(EMaterialDataId::RCH1),
            0x52434832 => Some(EMaterialDataId::RCH2),
            0x5058464D => Some(EMaterialDataId::PXFM),
            0x4D434830 => Some(EMaterialDataId::MCH0),
            0x4243524C => Some(EMaterialDataId::BCRL),
            0x4D544C4C => Some(EMaterialDataId::MTLL),
            0x4E524D4C => Some(EMaterialDataId::NRML),
            0x53484444 => Some(EMaterialDataId::SHDD),
            0x534B494E => Some(EMaterialDataId::SKIN),
            0x44494D44 => Some(EMaterialDataId::DIMD),
            0x4C495420 => Some(EMaterialDataId::LIT),
            0x414C4C44 => Some(EMaterialDataId::ALLD),
            0x444C4C44 => Some(EMaterialDataId::DLLD),
            0x434C4C44 => Some(EMaterialDataId::CLLD),
            0x41555846 => Some(EMaterialDataId::AUXF),
            0x57494E44 => Some(EMaterialDataId::WIND),
            0x57415452 => Some(EMaterialDataId::WATR),
            0x44465853 => Some(EMaterialDataId::DFXS),
            0x4446584E => Some(EMaterialDataId::DFXN),
            0x4D434444 => Some(EMaterialDataId::MCDD),
            0x43415553 => Some(EMaterialDataId::CAUS),
            0x424C5044 => Some(EMaterialDataId::BLPD),
            0x424C5054 => Some(EMaterialDataId::BLPT),
            0x464F4753 => Some(EMaterialDataId::FOGS),
            0x564F4C46 => Some(EMaterialDataId::VOLF),
            0x56465842 => Some(EMaterialDataId::VFXB),
            0x56465844 => Some(EMaterialDataId::VFXD),
            0x52454650 => Some(EMaterialDataId::REFP),
            0x5241494E => Some(EMaterialDataId::RAIN),
            0x58434830 => Some(EMaterialDataId::XCH0),
            0x58434831 => Some(EMaterialDataId::XCH1),
            _ => None,
        }
    }
}

impl EMaterialDataId {
    /// Whether the parameter is a layered texture.
    pub fn is_texture_layered(self) -> (r: bool)
        ensures
            r == (self == EMaterialDataId::BCRL || self == EMaterialDataId::MTLL || self
                == EMaterialDataId::NRML),
    {
        matches!(self, EMaterialDataId::BCRL | EMaterialDataId::MTLL | EMaterialDataId::NRML)
    }
}

/// Flag set on a material.
#[derive(Copy, Clone, Debug, PartialEq, Eq, Structural, Hash)]
#[allow(non_camel_case_types, clippy::upper_case_acronyms)]
pub enum EMaterialFlag {
    MFTR,
    MFMT,
    MFSR,
    MFSK,
    MFVC,
    MF1B,
    MFAV,
    MFIN,
    MFCA,
    MFIM,
    MTSM,
    MFRL,
    MFOE,
    MFOT,
    MFCI,
    MFOI,
    MFVA,
    MFSU,
    MFBP,
    MFBL,
    MFLB,
    MF1E,
    MFC0,
    MFC1,
    MFC2,
    MFC3,
    MFC4,
}

impl EMaterialFlag {
    /// Big-endian reading of the four-character code that stands for the value in a file.
    pub open spec fn spec_magic(self) -> u32 {
        match self {
            EMaterialFlag::MFTR => 0x4D465452, // MFTR
            EMaterialFlag::MFMT => 0x4D464D54, // MFMT
            EMaterialFlag::MFSR => 0x4D465352, // MFSR
            EMaterialFlag::MFSK => 0x4D46534B, // MFSK
            EMaterialFlag::MFVC => 0x4D465643, // MFVC
            EMaterialFlag::MF1B => 0x4D463142, // MF1B
            EMaterialFlag::MFAV => 0x4D464156, // MFAV
            EMaterialFlag::MFIN => 0x4D46494E, // MFIN
            EMaterialFlag::MFCA => 0x4D464341, // MFCA
            EMaterialFlag::MFIM => 0x4D46494D, // MFIM
            EMaterialFlag::MTSM => 0x4D54534D, // MTSM
            EMaterialFlag::MFRL => 0x4D46524C, // MFRL
            EMaterialFlag::MFOE => 0x4D464F45, // MFOE
            EMaterialFlag::MFOT => 0x4D464F54, // MFOT
            EMaterialFlag::MFCI => 0x4D464349, // MFCI
            EMaterialFlag::MFOI => 0x4D464F49, // MFOI
            EMaterialFlag::MFVA => 0x4D465641, // MFVA
            EMaterialFlag::MFSU => 0x4D465355, // MFSU
            EMaterialFlag::MFBP => 0x4D464250, // MFBP
            EMaterialFlag::MFBL => 0x4D46424C, // MFBL
            EMaterialFlag::MFLB => 0x4D464C42, // MFLB
            EMaterialFlag::MF1E => 0x4D463145, // MF1E
            EMaterialFlag::MFC0 => 0x4D464330, // MFC0
            EMaterialFlag::MFC1 => 0x4D464331, // MFC1
            EMaterialFlag::MFC2 => 0x4D464332, // MFC2
            EMaterialFlag::MFC3 => 0x4D464333, // MFC3
            EMaterialFlag::MFC4 => 0x4D464334, // MFC4
        }
    }

    /// Big-endian reading of the four-character code that stands for the value in a file.
    pub fn magic(self) -> (r: u32)
        ensures
            r == self.spec_magic(),
    {
        match self {
            EMaterialFlag::MFTR => 0x4D465452,
            EMaterialFlag::MFMT => 0x4D464D54,
            EMaterialFlag::MFSR => 0x4D465352,
            EMaterialFlag::MFSK => 0x4D46534B,
            EMaterialFlag::MFVC => 0x4D465643,
            EMaterialFlag::MF1B => 0x4D463142,
            EMaterialFlag::MFAV => 0x4D464156,
            EMaterialFlag::MFIN => 0x4D46494E,
            EMaterialFlag::MFCA => 0x4D464341,
            EMaterialFlag::MFIM => 0x4D46494D,
            EMaterialFlag::MTSM => 0x4D54534D,
            EMaterialFlag::MFRL => 0x4D46524C,
            EMaterialFlag::MFOE => 0x4D464F45,
            EMaterialFlag::MFOT => 0x4D464F54,
            EMaterialFlag::MFCI => 0x4D464349,
            EMaterialFlag::MFOI => 0x4D464F49,
            EMaterialFlag::MFVA => 0x4D465641,
            EMaterialFlag::MFSU => 0x4D465355,
            EMaterialFlag::MFBP => 0x4D464250,
            EMaterialFlag::MFBL => 0x4D46424C,
            EMaterialFlag::MFLB => 0x4D464C42,
            EMaterialFlag::MF1E => 0x4D463145,
            EMaterialFlag::MFC0 => 0x4D464330,
            EMaterialFlag::MFC1 => 0x4D464331,
            EMaterialFlag::MFC2 => 0x4D464332,
            EMaterialFlag::MFC3 => 0x4D464333,
            EMaterialFlag::MFC4 => 0x4D464334,
        }
    }

    /// The value whose code reads as `value`, if any.
    pub open spec fn spec_from_magic(value: u32) -> Option<Self> {
        match value {
            0x4D465452 => Some(EMaterialFlag::MFTR),
            0x4D464D54 => Some(EMaterialFlag::MFMT),
            0x4D465352 => Some(EMaterialFlag::MFSR),
            0x4D46534B => Some(EMaterialFlag::MFSK),
            0x4D465643 => Some(EMaterialFlag::MFVC),
            0x4D463142 => Some(EMaterialFlag::MF1B),
            0x4D464156 => Some(EMaterialFlag::MFAV),
            0x4D46494E => Some(EMaterialFlag::MFIN),
            0x4D464341 => Some(EMaterialFlag::MFCA),
            0x4D46494D => Some(EMaterialFlag::MFIM),
            0x4D54534D => Some(EMaterialFlag::MTSM),
            0x4D46524C => Some(EMaterialFlag::MFRL),
            0x4D464F45 => Some(EMaterialFlag::MFOE),
            0x4D464F54 => Some(EMaterialFlag::MFOT),
            0x4D464349 => Some(EMaterialFlag::MFCI),
            0x4D464F49 => Some(EMaterialFlag::MFOI),
            0x4D465641 => Some(EMaterialFlag::MFVA),
            0x4D465355 => Some(EMaterialFlag::MFSU),
            0x4D464250 => Some(EMaterialFlag::MFBP),
            0x4D46424C => Some(EMaterialFlag::MFBL),
            0x4D464C42 => Some(EMaterialFlag::MFLB),
            0x4D463145 => Some(EMaterialFlag::MF1E),
            0x4D464330 => Some(EMaterialFlag::MFC0),
            0x4D464331 => Some(EMaterialFlag::MFC1),
            0x4D464332 => Some(EMaterialFlag::MFC2),
            0x4D464333 => Some(EMaterialFlag::MFC3),
            0x4D464334 => Some(EMaterialFlag::MFC4),
            _ => None,
        }
    }

    /// Reading back the code of a value gives the value.
    pub proof fn lemma_magic_round_trip(self)
        ensures
            Self::spec_from_magic(self.spec_magic()) == Some(self),
    {
    }

    /// The value whose code reads as `value`, if any.
    pub fn from_magic(value: u32) -> (r: Option<Self>)
        ensures
            r == Self::spec_from_magic(value),
            r matches Some(v) ==> v.spec_magic() == value,
    {
        match value {
            0x4D465452 => Some(EMaterialFlag::MFTR),
            0x4D464D54 => Some(EMaterialFlag::MFMT),
            0x4D465352 => Some(EMaterialFlag::MFSR),
            0x4D46534B => Some(EMaterialFlag::MFSK),
            0x4D465643 => Some(EMaterialFlag::MFVC),
            0x4D463142 => Some(EMaterialFlag::MF1B),
            0x4D464156 => Some(EMaterialFlag::MFAV),
            0x4D46494E => Some(EMaterialFlag::MFIN),
            0x4D464341 => Some(EMaterialFlag::MFCA),
            0x4D46494D => Some(EMaterialFlag::MFIM),
            0x4D54534D => Some(EMaterialFlag::MTSM),
            0x4D46524C => Some(EMaterialFlag::MFRL),
            0x4D464F45 => Some(EMaterialFlag::MFOE),
            0x4D464F54 => Some(EMaterialFlag::MFOT),
            0x4D464349 => Some(EMaterialFlag::MFCI),
            0x4D464F49 => Some(EMaterialFlag::MFOI),
            0x4D465641 => Some(EMaterialFlag::MFVA),
            0x4D465355 => Some(EMaterialFlag::MFSU),
            0x4D464250 => Some(EMaterialFlag::MFBP),
            0x4D46424C => Some(EMaterialFlag::MFBL),
            0x4D464C42 => Some(EMaterialFlag::MFLB),
            0x4D463145 => Some(EMaterialFlag::MF1E),
            0x4D464330 => Some(EMaterialFlag::MFC0),
            0x4D464331 => Some(EMaterialFlag::MFC1),
            0x4D464332 => Some(EMaterialFlag::MFC2),
            0x4D464333 => Some(EMaterialFlag::MFC3),
            0x4D464334 => Some(EMaterialFlag::MFC4),
            _ => None,
        }
    }
}


/// Where one read buffer lies in the model resource: its size and offset.
#[derive(Copy, Clone, Debug, PartialEq, Eq, Structural)]
pub struct SModelReadBufferInfo {
    pub size: u32,
    pub offset: u32,
}

impl FixedRecord for SModelReadBufferInfo {
    open spec fn spec_size() -> int {
        8
    }

    open spec fn spec_parse(s: Seq<u8>, pos: int, e: Endian) -> Option<SModelReadBufferInfo> {
        Some(
            SModelReadBufferInfo {
                size: spec_u32(s, pos, e) as u32,
                offset: spec_u32(s, pos + 4, e) as u32,
            },
        )
    }

    fn size() -> (r: usize) {
        8
    }

    fn parse(data: &[u8], pos: usize, e: Endian) -> (r: Option<SModelReadBufferInfo>) {
        let _len = data.len();
        Some(
            SModelReadBufferInfo {
                size: read_u32(data, pos, e).unwrap(),
                offset: read_u32(data, pos + 4, e).unwrap(),
            },
        )
    }
}

/// One compressed GPU buffer of a model: which read buffer holds it, where in that
/// buffer, its compressed size and its expanded size.
#[derive(Copy, Clone, Debug, PartialEq, Eq, Structural)]
pub struct SModelBufferInfo {
    pub read_index: u32,
    pub offset: u32,
    pub size: u32,
    pub dest_size: u32,
}

impl FixedRecord for SModelBufferInfo {
    open spec fn spec_size() -> int {
        16
    }

    open spec fn spec_parse(s: Seq<u8>, pos: int, e: Endian) -> Option<SModelBufferInfo> {
        Some(
            SModelBufferInfo {
                read_index: spec_u32(s, pos, e) as u32,
                offset: spec_u32(s, pos + 4, e) as u32,
                size: spec_u32(s, pos + 8, e) as u32,
                dest_size: spec_u32(s, pos + 12, e) as u32,
            },
        )
    }

    fn size() -> (r: usize) {
        16
    }

    fn parse(data: &[u8], pos: usize, e: Endian) -> (r: Option<SModelBufferInfo>) {
        let _len = data.len();
        Some(
            SModelBufferInfo {
                read_index: read_u32(data, pos, e).unwrap(),
                offset: read_u32(data, pos + 4, e).unwrap(),
                size: read_u32(data, pos + 8, e).unwrap(),
                dest_size: read_u32(data, pos + 12, e).unwrap(),
            },
        )
    }
}

/// Model metadata stored in the package: the read buffers and the vertex and index
/// buffers that are expanded from them.
#[derive(Clone, Debug)]
pub struct SModelMetaData {
    pub unk: u32,
    pub gpu_offset: u32,
    pub read_info: Vec<SModelReadBufferInfo>,
    pub vtx_buffer_info: Vec<SModelBufferInfo>,
    pub idx_buffer_info: Vec<SModelBufferInfo>,
}

/// Offset of the vertex buffer count in model metadata.
pub open spec fn spec_model_meta_vtx_pos(s: Seq<u8>, e: Endian) -> int {
    12 + 8 * spec_u32(s, 8, e)
}

/// Offset of the index buffer count in model metadata.
pub open spec fn spec_model_meta_idx_pos(s: Seq<u8>, e: Endian) -> int {
    spec_model_meta_vtx_pos(s, e) + 4 + 16 * spec_u32(s, spec_model_meta_vtx_pos(s, e), e)
}

/// The bytes `s` start with complete model metadata.
pub open spec fn spec_model_meta_ok(s: Seq<u8>, e: Endian) -> bool {
    &&& s.len() >= 12
    &&& spec_model_meta_vtx_pos(s, e) + 4 <= s.len()
    &&& spec_model_meta_idx_pos(s, e) + 4 <= s.len()
    &&& spec_model_meta_idx_pos(s, e) + 4 + 16 * spec_u32(s, spec_model_meta_idx_pos(s, e), e)
        <= s.len()
}

impl SModelMetaData {
    /// Reads model metadata at the start of `data`.
    pub fn read(data: &[u8], e: Endian) -> (r: Result<SModelMetaData, crate::format::FormatError>)
        ensures
            r is Ok <==> spec_model_meta_ok(data@, e),
            r is Err ==> r == Err::<SModelMetaData, _>(crate::format::FormatError::InvalidData),
            r matches Ok(m) ==> {
                let s = data@;
                let v = spec_model_meta_vtx_pos(s, e);
                let i = spec_model_meta_idx_pos(s, e);
                &&& m.unk == spec_u32(s, 0, e)
                &&& m.gpu_offset == spec_u32(s, 4, e)
                &&& Some(m.read_info@) == spec_parse_records::<SModelReadBufferInfo>(
                    s,
                    12,
                    spec_u32(s, 8, e),
                    e,
                )
                &&& Some(m.vtx_buffer_info@) == spec_parse_records::<SModelBufferInfo>(
                    s,
                    v + 4,
                    spec_u32(s, v, e),
                    e,
                )
                &&& Some(m.idx_buffer_info@) == spec_parse_records::<SModelBufferInfo>(
                    s,
                    i + 4,
                    spec_u32(s, i, e),
                    e,
                )
            },
    {
        if data.len() < 12 {
            return Err(crate::format::FormatError::InvalidData);
        }
        let n_read = read_u32(data, 8, e).unwrap();
        let read_info = match read_records::<SModelReadBufferInfo>(data, 12, n_read as usize, e) {
            Some(v) => v,
            None => {
                proof {
                    lemma_records_none_means_short::<SModelReadBufferInfo>(data@, 12, n_read as int, e);
                }
                return Err(crate::format::FormatError::InvalidData);
            },
        };
        proof {
            lemma_records_some_fit::<SModelReadBufferInfo>(data@, 12, n_read as int, e);
        }
        let vpos = 12 + 8 * n_read as usize;
        let n_vtx = match read_u32(data, vpos, e) {
            Some(n) => n,
            None => return Err(crate::format::FormatError::InvalidData),
        };
        let vtx_buffer_info = match read_records::<SModelBufferInfo>(data, vpos + 4, n_vtx as usize, e) {
            Some(v) => v,
            None => {
                proof {
                    lemma_records_none_means_short::<SModelBufferInfo>(data@, vpos + 4, n_vtx as int, e);
                }
                return Err(crate::format::FormatError::InvalidData);
            },
        };
        proof {
            lemma_records_some_fit::<SModelBufferInfo>(data@, vpos + 4, n_vtx as int, e);
        }
        let ipos = vpos + 4 + 16 * n_vtx as usize;
        let n_idx = match read_u32(data, ipos, e) {
            Some(n) => n,
            None => return Err(crate::format::FormatError::InvalidData),
        };
        let idx_buffer_info = match read_records::<SModelBufferInfo>(data, ipos + 4, n_idx as usize, e) {
            Some(v) => v,
            None => {
                proof {
                    lemma_records_none_means_short::<SModelBufferInfo>(data@, ipos + 4, n_idx as int, e);
                }
                return Err(crate::format::FormatError::InvalidData);
            },
        };
        proof {
            lemma_records_some_fit::<SModelBufferInfo>(data@, ipos + 4, n_idx as int, e);
        }
        Ok(
            SModelMetaData {
                unk: read_u32(data, 0, e).unwrap(),
                gpu_offset: read_u32(data, 4, e).unwrap(),
                read_info,
                vtx_buffer_info,
                idx_buffer_info,
            },
        )
    }
}

impl FixedRecord for EBufferType {
    open spec fn spec_size() -> int {
        4
    }

    open spec fn spec_parse(s: Seq<u8>, pos: int, e: Endian) -> Option<EBufferType> {
        EBufferType::spec_from_code(spec_u32(s, pos, e) as u32)
    }

    fn size() -> (r: usize) {
        4
    }

    fn parse(data: &[u8], pos: usize, e: Endian) -> (r: Option<EBufferType>) {
        EBufferType::from_u32(read_u32(data, pos, e).unwrap())
    }
}

/// The index buffer chunk: the entry width of each index buffer.
#[derive(Clone, Debug)]
pub struct SIndexBufferInfoSection {
    pub info: Vec<EBufferType>,
}

impl SIndexBufferInfoSection {
    /// Reads the index buffer chunk at the start of `data`.
    pub fn read(data: &[u8], e: Endian) -> (r: Result<SIndexBufferInfoSection, crate::format::FormatError>)
        ensures
            r is Ok <==> data@.len() >= 4 && spec_parse_records::<EBufferType>(
                data@,
                4,
                spec_u32(data@, 0, e),
                e,
            ) is Some,
            r is Err ==> r == Err::<SIndexBufferInfoSection, _>(crate::format::FormatError::InvalidData),
            r matches Ok(sec) ==> Some(sec.info@) == spec_parse_records::<EBufferType>(
                data@,
                4,
                spec_u32(data@, 0, e),
                e,
            ),
    {
        let count = match read_u32(data, 0, e) {
            Some(n) => n,
            None => return Err(crate::format::FormatError::InvalidData),
        };
        match read_records::<EBufferType>(data, 4, count as usize, e) {
            Some(info) => Ok(SIndexBufferInfoSection { info }),
            None => Err(crate::format::FormatError::InvalidData),
        }
    }
}

/// One vertex attribute: the buffer it is read from, its offset and stride, its
/// format and its meaning.
#[derive(Copy, Clone, Debug, PartialEq, Eq, Structural)]
pub struct SVertexDataComponent {
    pub buffer_index: u32,
    pub offset: u32,
    pub stride: u32,
    pub format: EVertexDataFormat,
    pub component: EVertexComponent,
}

impl FixedRecord for SVertexDataComponent {
    open spec fn spec_size() -> int {
        20
    }

    open spec fn spec_parse(s: Seq<u8>, pos: int, e: Endian) -> Option<SVertexDataComponent> {
        match (
            EVertexDataFormat::spec_from_code(spec_u32(s, pos + 12, e) as u32),
            EVertexComponent::spec_from_code(spec_u32(s, pos + 16, e) as u32),
        ) {
            (Some(format), Some(component)) => Some(
                SVertexDataComponent {
                    buffer_index: spec_u32(s, pos, e) as u32,
                    offset: spec_u32(s, pos + 4, e) as u32,
                    stride: spec_u32(s, pos + 8, e) as u32,
                    format,
                    component,
                },
            ),
            _ => None,
        }
    }

    fn size() -> (r: usize) {
        20
    }

    fn parse(data: &[u8], pos: usize, e: Endian) -> (r: Option<SVertexDataComponent>) {
        let _len = data.len();
        let format = EVertexDataFormat::from_u32(read_u32(data, pos + 12, e).unwrap());
        let component = EVertexComponent::from_u32(read_u32(data, pos + 16, e).unwrap());
        match (format, component) {
            (Some(format), Some(component)) => Some(
                SVertexDataComponent {
                    buffer_index: read_u32(data, pos, e).unwrap(),
                    offset: read_u32(data, pos + 4, e).unwrap(),
                    stride: read_u32(data, pos + 8, e).unwrap(),
                    format,
                    component,
                },
            ),
            _ => None,
        }
    }
}

/// A vertex buffer: its vertex count and its attributes.
#[derive(Clone, Debug)]
pub struct SVertexBufferInfo {
    pub vertex_count: u32,
    pub components: Vec<SVertexDataComponent>,
    pub unk: u8,
}

/// The vertex buffer chunk: the layout of each vertex buffer.
#[derive(Clone, Debug)]
pub struct SVertexBufferInfoSection {
    pub info: Vec<SVertexBufferInfo>,
}

/// A draw call: material, buffers and index range.
#[derive(Copy, Clone, Debug, PartialEq, Eq, Structural)]
pub struct CRenderMesh {
    pub material_idx: u16,
    pub vtx_buf_idx: u8,
    pub idx_buf_idx: u8,
    pub index_start: u32,
    pub index_count: u32,
    pub unk_c: u16,
    pub unk_e: u16,
}

impl FixedRecord for CRenderMesh {
    open spec fn spec_size() -> int {
        16
    }

    open spec fn spec_parse(s: Seq<u8>, pos: int, e: Endian) -> Option<CRenderMesh> {
        Some(
            CRenderMesh {
                material_idx: spec_u16(s, pos, e) as u16,
                vtx_buf_idx: s[pos + 2],
                idx_buf_idx: s[pos + 3],
                index_start: spec_u32(s, pos + 4, e) as u32,
                index_count: spec_u32(s, pos + 8, e) as u32,
                unk_c: spec_u16(s, pos + 12, e) as u16,
                unk_e: spec_u16(s, pos + 14, e) as u16,
            },
        )
    }

    fn size() -> (r: usize) {
        16
    }

    fn parse(data: &[u8], pos: usize, e: Endian) -> (r: Option<CRenderMesh>) {
        let _len = data.len();
        Some(
            CRenderMesh {
                material_idx: read_u16(data, pos, e).unwrap(),
                vtx_buf_idx: data[pos + 2],
                idx_buf_idx: data[pos + 3],
                index_start: read_u32(data, pos + 4, e).unwrap(),
                index_count: read_u32(data, pos + 8, e).unwrap(),
                unk_c: read_u16(data, pos + 12, e).unwrap(),
                unk_e: read_u16(data, pos + 14, e).unwrap(),
            },
        )
    }
}

/// The mesh chunk: the draw calls of the model.
#[derive(Clone, Debug)]
pub struct SMeshLoadInformation {
    pub meshes: Vec<CRenderMesh>,
}

impl SMeshLoadInformation {
    /// Reads the mesh chunk at the start of `data`.
    pub fn read(data: &[u8], e: Endian) -> (r: Result<SMeshLoadInformation, crate::format::FormatError>)
        ensures
            r is Ok <==> data@.len() >= 4 && spec_parse_records::<CRenderMesh>(
                data@,
                4,
                spec_u32(data@, 0, e),
                e,
            ) is Some,
            r is Err ==> r == Err::<SMeshLoadInformation, _>(crate::format::FormatError::InvalidData),
            r matches Ok(m) ==> Some(m.meshes@) == spec_parse_records::<CRenderMesh>(
                data@,
                4,
                spec_u32(data@, 0, e),
                e,
            ),
    {
        let count = match read_u32(data, 0, e) {
            Some(n) => n,
            None => return Err(crate::format::FormatError::InvalidData),
        };
        match read_records::<CRenderMesh>(data, 4, count as usize, e) {
            Some(meshes) => Ok(SMeshLoadInformation { meshes }),
            None => Err(crate::format::FormatError::InvalidData),
        }
    }
}

/// Render type of a material: two codes and two flags.
#[derive(Copy, Clone, Debug)]
pub struct SMaterialRenderTypes {
    pub data_id: FourCC,
    pub data_type: FourCC,
    pub flag1: u8,
    pub flag2: u8,
}

impl FixedRecord for SMaterialRenderTypes {
    open spec fn spec_size() -> int {
        10
    }

    open spec fn spec_parse(s: Seq<u8>, pos: int, e: Endian) -> Option<SMaterialRenderTypes> {
        Some(
            SMaterialRenderTypes {
                data_id: spec_four_cc_at(s, pos),
                data_type: spec_four_cc_at(s, pos + 4),
                flag1: s[pos + 8],
                flag2: s[pos + 9],
            },
        )
    }

    fn size() -> (r: usize) {
        10
    }

    fn parse(data: &[u8], pos: usize, e: Endian) -> (r: Option<SMaterialRenderTypes>) {
        let _len = data.len();
        Some(
            SMaterialRenderTypes {
                data_id: four_cc_at(data, pos),
                data_type: four_cc_at(data, pos + 4),
                flag1: data[pos + 8],
                flag2: data[pos + 9],
            },
        )
    }
}

/// Identifier and kind of one material parameter.
#[derive(Copy, Clone, Debug, PartialEq, Eq, Structural)]
pub struct SMaterialType {
    pub data_id: EMaterialDataId,
    pub data_type: EMaterialDataType,
}

impl FixedRecord for SMaterialType {
    open spec fn spec_size() -> int {
        8
    }

    open spec fn spec_parse(s: Seq<u8>, pos: int, e: Endian) -> Option<SMaterialType> {
        match (
            EMaterialDataId::spec_from_magic(crate::format::four_cc_value(spec_four_cc_at(s, pos).0) as u32),
            EMaterialDataType::spec_from_magic(
                crate::format::four_cc_value(spec_four_cc_at(s, pos + 4).0) as u32,
            ),
        ) {
            (Some(data_id), Some(data_type)) => Some(SMaterialType { data_id, data_type }),
            _ => None,
        }
    }

    fn size() -> (r: usize) {
        8
    }

    fn parse(data: &[u8], pos: usize, e: Endian) -> (r: Option<SMaterialType>) {
        let _len = data.len();
        let data_id = EMaterialDataId::from_magic(four_cc_at(data, pos).as_u32());
        let data_type = EMaterialDataType::from_magic(four_cc_at(data, pos + 4).as_u32());
        match (data_id, data_type) {
            (Some(data_id), Some(data_type)) => Some(SMaterialType { data_id, data_type }),
            _ => None,
        }
    }
}

/// How a material samples one texture.
#[derive(Copy, Clone, Debug, PartialEq, Eq, Structural)]
pub struct STextureUsageInfo {
    pub flags: u32,
    pub filter: u32,
    pub wrap_x: u32,
    pub wrap_y: u32,
    pub wrap_z: u32,
}

impl FixedRecord for STextureUsageInfo {
    open spec fn spec_size() -> int {
        20
    }

    open spec fn spec_parse(s: Seq<u8>, pos: int, e: Endian) -> Option<STextureUsageInfo> {
        Some(
            STextureUsageInfo {
                flags: spec_u32(s, pos, e) as u32,
                filter: spec_u32(s, pos + 4, e) as u32,
                wrap_x: spec_u32(s, pos + 8, e) as u32,
                wrap_y: spec_u32(s, pos + 12, e) as u32,
                wrap_z: spec_u32(s, pos + 16, e) as u32,
            },
        )
    }

    fn size() -> (r: usize) {
        20
    }

    fn parse(data: &[u8], pos: usize, e: Endian) -> (r: Option<STextureUsageInfo>) {
        let _len = data.len();
        Some(
            STextureUsageInfo {
                flags: read_u32(data, pos, e).unwrap(),
                filter: read_u32(data, pos + 4, e).unwrap(),
                wrap_x: read_u32(data, pos + 8, e).unwrap(),
                wrap_y: read_u32(data, pos + 12, e).unwrap(),
                wrap_z: read_u32(data, pos + 16, e).unwrap(),
            },
        )
    }
}

/// The compressed bytes of GPU buffer `info`: the range `info` gives inside the read
/// buffer it names, which is itself a range of the file.
pub open spec fn spec_gpu_source(
    file: Seq<u8>,
    read_info: Seq<SModelReadBufferInfo>,
    info: SModelBufferInfo,
) -> Seq<u8> {
    let ri = read_info[info.read_index as int];
    file.subrange(ri.offset as int, ri.offset + ri.size).subrange(
        info.offset as int,
        info.offset + info.size,
    )
}

/// GPU buffer `info` names a read buffer that exists, both ranges lie inside what
/// they refer to without overflowing 32 bits, and its bytes decode within bounds.
pub open spec fn spec_gpu_source_ok(
    file: Seq<u8>,
    read_info: Seq<SModelReadBufferInfo>,
    info: SModelBufferInfo,
) -> bool {
    &&& info.read_index < read_info.len()
    &&& {
        let ri = read_info[info.read_index as int];
        &&& ri.offset + ri.size <= u32::MAX
        &&& ri.offset + ri.size <= file.len()
        &&& info.offset + info.size <= u32::MAX
        &&& info.offset + info.size <= ri.size
    }
    &&& fits(spec_gpu_source(file, read_info, info), zeros(info.dest_size as int))
}

/// The first `n` GPU buffers of `infos`, expanded in order; the first that fails to
/// expand stops the list with its error.
pub open spec fn spec_gpu_buffers(
    file: Seq<u8>,
    read_info: Seq<SModelReadBufferInfo>,
    infos: Seq<SModelBufferInfo>,
    n: int,
) -> Result<Seq<Seq<u8>>, FormatError>
    decreases n,
{
    if n <= 0 {
        Ok(Seq::empty())
    } else {
        match spec_gpu_buffers(file, read_info, infos, n - 1) {
            Err(x) => Err(x),
            Ok(l) => match spec_decompress_buffer(spec_gpu_source(file, read_info, infos[n - 1]), infos[n - 1].dest_size as int) {
                Ok((_, b)) => Ok(l.push(b)),
                Err(ce) => Err(FormatError::Compression(ce)),
            },
        }
    }
}

proof fn lemma_gpu_buffers_err(
    file: Seq<u8>,
    read_info: Seq<SModelReadBufferInfo>,
    infos: Seq<SModelBufferInfo>,
    k: int,
    n: int,
)
    requires
        0 <= k <= n,
        spec_gpu_buffers(file, read_info, infos, k) is Err,
    ensures
        spec_gpu_buffers(file, read_info, infos, n) == spec_gpu_buffers(file, read_info, infos, k),
    decreases n - k,
{
    if k < n {
        lemma_gpu_buffers_err(file, read_info, infos, k, n - 1);
    }
}

pub open spec fn buffers_view(r: Result<Vec<Vec<u8>>, FormatError>) -> Result<Seq<Seq<u8>>, FormatError> {
    match r {
        Ok(v) => Ok(v@.map_values(|b: Vec<u8>| b@)),
        Err(x) => Err(x),
    }
}

/// Expands each GPU buffer described by `buffer_info` from the file data (see
/// `spec_gpu_buffers`).
pub fn decompress_gpu_buffers(
    file_data: &[u8],
    read_info: &[SModelReadBufferInfo],
    buffer_info: &[SModelBufferInfo],
) -> (r: Result<Vec<Vec<u8>>, FormatError>)
    requires
        forall|i: int|
            0 <= i < buffer_info@.len() && (#[trigger] spec_gpu_buffers(file_data@, read_info@, buffer_info@, i)) is Ok
                ==> spec_gpu_source_ok(file_data@, read_info@, buffer_info@[i]),
    ensures
        buffers_view(r) == spec_gpu_buffers(file_data@, read_info@, buffer_info@, buffer_info@.len() as int),
{
    let mut out: Vec<Vec<u8>> = Vec::with_capacity(buffer_info.len());
    let mut k: usize = 0;
    proof {
        assert(out@.map_values(|b: Vec<u8>| b@) =~= Seq::<Seq<u8>>::empty());
    }
    while k < buffer_info.len()
        invariant
            k <= buffer_info@.len(),
            forall|i: int|
                0 <= i < buffer_info@.len() && (#[trigger] spec_gpu_buffers(file_data@, read_info@, buffer_info@, i)) is Ok
                    ==> spec_gpu_source_ok(file_data@, read_info@, buffer_info@[i]),
            spec_gpu_buffers(file_data@, read_info@, buffer_info@, k as int) == Ok::<_, FormatError>(
                out@.map_values(|b: Vec<u8>| b@),
            ),
        decreases buffer_info@.len() - k,
    {
        let info = buffer_info[k];
        proof {
            assert(spec_gpu_source_ok(file_data@, read_info@, buffer_info@[k as int]));
        }
        let ri = read_info[info.read_index as usize];
        let read_buffer = &file_data[ri.offset as usize..(ri.offset + ri.size) as usize];
        let comp_buf = &read_buffer[info.offset as usize..(info.offset + info.size) as usize];
        proof {
            assert(comp_buf@ == spec_gpu_source(file_data@, read_info@, info));
        }
        let ghost before = out@;
        match decompress_buffer(comp_buf, info.dest_size as u64) {
            Ok((_, buf)) => {
                out.push(buf);
                assert(out@.map_values(|b: Vec<u8>| b@) =~= before.map_values(|b: Vec<u8>| b@).push(buf@));
            },
            Err(ce) => {
                proof {
                    lemma_gpu_buffers_err(file_data@, read_info@, buffer_info@, k + 1, buffer_info@.len() as int);
                }
                return Err(FormatError::Compression(ce));
            },
        }
        k = k + 1;
    }
    Ok(out)
}

/// Whether expanding the GPU buffers `infos` in order reads, for every buffer that it
/// reaches, only inside the file and fits the buffer's size (see
/// `spec_gpu_source_ok`); and, where it does, whether every buffer expands.
pub fn gpu_fits_check(
    file: &[u8],
    read_info: &[SModelReadBufferInfo],
    infos: &[SModelBufferInfo],
) -> (r: (bool, bool))
    ensures
        r.0 == (forall|i: int|
            0 <= i < infos@.len() && (#[trigger] spec_gpu_buffers(file@, read_info@, infos@, i)) is Ok
                ==> spec_gpu_source_ok(file@, read_info@, infos@[i])),
        r.0 ==> (r.1 == spec_gpu_buffers(file@, read_info@, infos@, infos@.len() as int) is Ok),
{
    let n = infos.len();
    let mut k: usize = 0;
    while k < n
        invariant
            n == infos@.len(),
            k <= n,
            spec_gpu_buffers(file@, read_info@, infos@, k as int) is Ok,
            forall|i: int|
                0 <= i < k && (#[trigger] spec_gpu_buffers(file@, read_info@, infos@, i)) is Ok
                    ==> spec_gpu_source_ok(file@, read_info@, infos@[i]),
        decreases n - k,
    {
        let info = infos[k];
        let ghost gk = spec_gpu_buffers(file@, read_info@, infos@, k as int);
        if (info.read_index as usize) >= read_info.len() {
            return (false, false);
        }
        let ri = read_info[info.read_index as usize];
        let rend: u64 = ri.offset as u64 + ri.size as u64;
        let iend: u64 = info.offset as u64 + info.size as u64;
        if rend > 0xFFFF_FFFF || rend > file.len() as u64 || iend > 0xFFFF_FFFF || iend > ri.size as u64 {
            return (false, false);
        }
        let rb = &file[ri.offset as usize..rend as usize];
        let src = &rb[info.offset as usize..iend as usize];
        assert(src@ == spec_gpu_source(file@, read_info@, info));
        let ex = expand_check(src, info.dest_size as usize);
        assert(zeros(info.dest_size as int).len() == info.dest_size);
        let ok = match ex {
            None => {
                assert(!fits(src@, zeros(info.dest_size as int)));
                return (false, false);
            },
            Some(ok) => {
                assert(fits(src@, zeros(info.dest_size as int)));
                ok
            },
        };
        let expands = if src.len() < 4 {
            false
        } else if src[0] == 0 && src[1] == 0 && src[2] == 0 && src[3] == 0 {
            true
        } else {
            ok
        };
        assert(spec_gpu_source_ok(file@, read_info@, infos@[k as int]));
        assert(expands == spec_decompress_buffer(src@, info.dest_size as int) is Ok);
        if !expands {
            proof {
                assert(spec_gpu_buffers(file@, read_info@, infos@, k + 1) is Err);
                assert forall|i: int|
                    0 <= i < infos@.len() && (#[trigger] spec_gpu_buffers(file@, read_info@, infos@, i)) is Ok
                        implies spec_gpu_source_ok(file@, read_info@, infos@[i]) by {
                    if i > k {
                        lemma_gpu_buffers_err(file@, read_info@, infos@, k + 1, i);
                    }
                }
                lemma_gpu_buffers_err(file@, read_info@, infos@, k + 1, n as int);
            }
            return (true, false);
        }
        k = k + 1;
    }
    (true, true)
}

} // verus!

pub mod asset_file;
pub mod chunk;
pub mod clsn;
pub mod cmdl;
pub mod fmv0;
pub mod foot;
pub mod ltpb;
pub mod model;
pub mod mcon;
pub mod mesh_draw;
pub mod mtrl;
pub mod pack;
pub mod pack_write;
pub mod rfrm;
pub mod room;
pub mod room_data;
pub mod room_slice;
pub mod texture_data;
pub mod texture_image;
pub mod txtr;
pub mod vertex_layout;
pub mod walk;

use vstd::prelude::*;
pub use crate::format::walk::slice_chunks;
use vstd::utf8::{decode_utf8, valid_utf8};

verus! {

/// Why a resource could not be read.
#[derive(Clone, Debug, PartialEq, Eq)]
pub enum FormatError {
    /// Fewer bytes than a chunk header.
    InvalidChunkHeader,
    /// Fewer bytes than a form header.
    InvalidFormHeader,
    /// A form header without the `RFRM` magic.
    BadMagic,
    /// A form of another kind or version than the one expected.
    UnexpectedForm,
    /// A chunk that the reader does not know; holds its code.
    UnexpectedChunk(u32),
    /// A required chunk is not there; holds its code.
    MissingChunk(u32),
    /// The asset asked for is not in the package's directory.
    MissingAsset,
    /// Bytes follow the last form.
    TrailingData,
    /// A mip level of a volume texture does not split evenly into its depth slices.
    UnevenMipLevel,
    /// A structure runs past the end of its bytes or holds an invalid value.
    InvalidData,
    /// An index or a range given by a structure lies outside what it refers to.
    OutOfRange,
    /// Texel bytes do not match the size of the image they are meant for.
    ImageSize,
    /// Assets to be written are not in ascending order of ID.
    UnsortedAssets,
    /// Images of the texture's pixel format cannot be decoded.
    UnsupportedFormat,
    /// A compressed buffer could not be expanded.
    Compression(crate::util::compression::CompressionError),
}

/// A four-character code identifying a form or chunk; the bytes are stored in file order.
#[derive(Copy, Clone, Debug, Default, Hash)]
pub struct FourCC(pub [u8; 4]);

/// Big-endian reading of the four bytes of a code.
pub open spec fn four_cc_value(b: [u8; 4]) -> int {
    b[0] * 16777216 + b[1] * 65536 + b[2] * 256 + b[3]
}

impl PartialEq for FourCC {
    fn eq(&self, other: &Self) -> (r: bool) {
        let r = self.0[0] == other.0[0] && self.0[1] == other.0[1] && self.0[2] == other.0[2]
            && self.0[3] == other.0[3];
        proof {
            if r {
                assert(self.0@ =~= other.0@);
            }
        }
        r
    }
}

impl Eq for FourCC {}

impl vstd::std_specs::cmp::PartialEqSpecImpl for FourCC {
    open spec fn obeys_eq_spec() -> bool {
        true
    }

    open spec fn eq_spec(&self, other: &Self) -> bool {
        self.0@ == other.0@
    }
}

impl FourCC {
    /// Builds the code whose big-endian reading is `value`.
    pub fn from_u32(value: u32) -> (r: Self)
        ensures
            r == spec_four_cc_from_u32(value),
    {
        FourCC(
            [
                (value / 16777216) as u8,
                (value / 65536 % 256) as u8,
                (value / 256 % 256) as u8,
                (value % 256) as u8,
            ],
        )
    }

    /// The big-endian reading of the code.
    pub fn as_u32(&self) -> (r: u32)
        ensures
            r == four_cc_value(self.0),
    {
        (self.0[0] as u32) * 16777216 + (self.0[1] as u32) * 65536 + (self.0[2] as u32) * 256
            + (self.0[3] as u32)
    }
}

/// The code whose big-endian reading is `value`.
pub open spec fn spec_four_cc_from_u32(value: u32) -> FourCC {
    FourCC(
        [
            (value / 16777216) as u8,
            (value / 65536 % 256) as u8,
            (value / 256 % 256) as u8,
            (value % 256) as u8,
        ],
    )
}

/// Reading back the code built from a value gives the value.
pub proof fn lemma_four_cc_value_of_from_u32(value: u32)
    ensures
        four_cc_value(spec_four_cc_from_u32(value).0) == value,
{
}

/// Building a code from the reading of a code gives the code back.
pub proof fn lemma_four_cc_from_u32_of_value(code: FourCC)
    ensures
        spec_four_cc_from_u32(four_cc_value(code.0) as u32) == code,
{
    let b = code.0;
    let v = four_cc_value(b);
    let q1 = b[0] * 256 + b[1];
    let q2 = q1 * 256 + b[2];
    assert(v == b[0] * 16777216 + (b[1] * 65536 + b[2] * 256 + b[3]));
    vstd::arithmetic::div_mod::lemma_fundamental_div_mod_converse(
        v,
        16777216,
        b[0] as int,
        b[1] * 65536 + b[2] * 256 + b[3],
    );
    assert(v == q1 * 65536 + (b[2] * 256 + b[3]));
    vstd::arithmetic::div_mod::lemma_fundamental_div_mod_converse(
        v,
        65536,
        q1,
        b[2] * 256 + b[3],
    );
    vstd::arithmetic::div_mod::lemma_fundamental_div_mod_converse(q1, 256, b[0] as int, b[1] as int);
    assert(v == q2 * 256 + b[3]);
    vstd::arithmetic::div_mod::lemma_fundamental_div_mod_converse(v, 256, q2, b[3] as int);
    vstd::arithmetic::div_mod::lemma_fundamental_div_mod_converse(q2, 256, q1, b[2] as int);
    assert(spec_four_cc_from_u32(v as u32).0 =~= code.0);
}

/// The code made of the four bytes at `pos`.
pub open spec fn spec_four_cc_at(s: Seq<u8>, pos: int) -> FourCC {
    FourCC([s[pos], s[pos + 1], s[pos + 2], s[pos + 3]])
}

/// The code in the first four bytes of `data`.
pub fn peek_four_cc(data: &[u8]) -> (r: FourCC)
    requires
        data@.len() >= 4,
    ensures
        r == spec_four_cc_at(data@, 0),
{
    FourCC([data[0], data[1], data[2], data[3]])
}

/// The code made of the four bytes at `pos`.
pub fn four_cc_at(data: &[u8], pos: usize) -> (r: FourCC)
    requires
        pos + 4 <= data@.len(),
    ensures
        r == spec_four_cc_at(data@, pos as int),
{
    FourCC([data[pos], data[pos + 1], data[pos + 2], data[pos + 3]])
}

/// The text that `bytes` encode in UTF-8, or `None` when they are not valid UTF-8.
/// Calls `String::from_utf8`, which the standard library documents as succeeding
/// exactly on valid UTF-8 and then holding the decoded characters.
#[verifier::external_body]
pub(crate) fn string_from_utf8(bytes: Vec<u8>) -> (r: Option<String>)
    ensures
        r is Some <==> valid_utf8(bytes@),
        r matches Some(s) ==> s@ == decode_utf8(bytes@),
{
    String::from_utf8(bytes).ok()
}

/// The text that `bytes` encode in UTF-8, if they are valid UTF-8.
pub open spec fn spec_utf8(bytes: Seq<u8>) -> Option<Seq<char>> {
    if valid_utf8(bytes) {
        Some(decode_utf8(bytes))
    } else {
        None
    }
}

/// The view of a text that may be missing.
pub open spec fn text_view(r: Option<String>) -> Option<Seq<char>> {
    match r {
        Some(s) => Some(s@),
        None => None,
    }
}

/// A length-prefixed byte string: the length as stored, and the bytes.
#[derive(Clone, Debug, Default)]
pub struct CStringFixed {
    pub size: u32,
    pub text: Vec<u8>,
}

impl CStringFixed {
    /// The string holding the UTF-8 bytes of `str`; its stored length is left zero
    /// (writing computes it from the bytes).
    pub fn from_string(str: &String) -> (r: Self)
        ensures
            r.size == 0,
            r.text@ == vstd::utf8::encode_utf8(str@),
    {
        CStringFixed { size: 0, text: vstd::slice::slice_to_vec(str.as_str().as_bytes()) }
    }

    /// The text of the string, or `None` when its bytes are not valid UTF-8.
    pub fn into_string(self) -> (r: Option<String>)
        ensures
            text_view(r) == spec_utf8(self.text@),
    {
        string_from_utf8(self.text)
    }
}

/// A string built from a text gives the text back.
pub proof fn lemma_string_fixed_round_trip(chars: Seq<char>)
    ensures
        spec_utf8(vstd::utf8::encode_utf8(chars)) == Some(chars),
{
    vstd::utf8::encode_utf8_valid_utf8(chars);
    vstd::utf8::encode_utf8_decode_utf8(chars);
}

/// Three signed integers.
#[derive(Copy, Clone, Debug, Default, PartialEq, Eq, Structural)]
pub struct CVector3i {
    pub x: i32,
    pub y: i32,
    pub z: i32,
}

impl CVector3i {
    /// The vector with the given components.
    pub fn new(x: i32, y: i32, z: i32) -> (r: Self)
        ensures
            r == (CVector3i { x, y, z }),
    {
        Self { x, y, z }
    }

    /// The vector with every component equal to `xyz`.
    pub fn splat(xyz: i32) -> (r: Self)
        ensures
            r == (CVector3i { x: xyz, y: xyz, z: xyz }),
    {
        Self { x: xyz, y: xyz, z: xyz }
    }

    /// The components in the order x, y, z.
    pub fn to_array(self) -> (r: [i32; 3])
        ensures
            r@ == seq![self.x, self.y, self.z],
    {
        let r = [self.x, self.y, self.z];
        assert(r@ =~= seq![self.x, self.y, self.z]);
        r
    }
}

/// Four signed integers.
#[derive(Copy, Clone, Debug, Default, PartialEq, Eq, Structural)]
pub struct CVector4i {
    pub x: i32,
    pub y: i32,
    pub z: i32,
    pub w: i32,
}

impl CVector4i {
    /// The vector with the given components.
    pub fn new(x: i32, y: i32, z: i32, w: i32) -> (r: Self)
        ensures
            r == (CVector4i { x, y, z, w }),
    {
        Self { x, y, z, w }
    }

    /// The vector with every component equal to `xyzw`.
    pub fn splat(xyzw: i32) -> (r: Self)
        ensures
            r == (CVector4i { x: xyzw, y: xyzw, z: xyzw, w: xyzw }),
    {
        Self { x: xyzw, y: xyzw, z: xyzw, w: xyzw }
    }

    /// The components in the order x, y, z, w.
    pub fn to_array(self) -> (r: [i32; 4])
        ensures
            r@ == seq![self.x, self.y, self.z, self.w],
    {
        let r = [self.x, self.y, self.z, self.w];
        assert(r@ =~= seq![self.x, self.y, self.z, self.w]);
        r
    }
}

impl From<[i32; 3]> for CVector3i {
    /// The vector whose components are the array's, in the order x, y, z.
    fn from(a: [i32; 3]) -> (r: Self) {
        CVector3i { x: a[0], y: a[1], z: a[2] }
    }
}

impl vstd::std_specs::convert::FromSpecImpl<[i32; 3]> for CVector3i {
    open spec fn obeys_from_spec() -> bool {
        true
    }

    open spec fn from_spec(a: [i32; 3]) -> CVector3i {
        CVector3i { x: a@[0], y: a@[1], z: a@[2] }
    }
}

impl From<[i32; 4]> for CVector4i {
    /// The vector whose components are the array's, in the order x, y, z, w.
    fn from(a: [i32; 4]) -> (r: Self) {
        CVector4i { x: a[0], y: a[1], z: a[2], w: a[3] }
    }
}

impl vstd::std_specs::convert::FromSpecImpl<[i32; 4]> for CVector4i {
    open spec fn obeys_from_spec() -> bool {
        true
    }

    open spec fn from_spec(a: [i32; 4]) -> CVector4i {
        CVector4i { x: a@[0], y: a@[1], z: a@[2], w: a@[3] }
    }
}

/// Building a vector from an array gives the array's elements as its components, in
/// order (so `to_array` gives the array back).
pub proof fn lemma_vector3_array_round_trip(a: [i32; 3])
    ensures
        seq![
            <CVector3i as vstd::std_specs::convert::FromSpec<[i32; 3]>>::from_spec(a).x,
            <CVector3i as vstd::std_specs::convert::FromSpec<[i32; 3]>>::from_spec(a).y,
            <CVector3i as vstd::std_specs::convert::FromSpec<[i32; 3]>>::from_spec(a).z,
        ] == a@,
{
    assert(seq![a@[0], a@[1], a@[2]] =~= a@);
}

/// Building a vector from an array gives the array's elements as its components, in
/// order (so `to_array` gives the array back).
pub proof fn lemma_vector4_array_round_trip(a: [i32; 4])
    ensures
        seq![
            <CVector4i as vstd::std_specs::convert::FromSpec<[i32; 4]>>::from_spec(a).x,
            <CVector4i as vstd::std_specs::convert::FromSpec<[i32; 4]>>::from_spec(a).y,
            <CVector4i as vstd::std_specs::convert::FromSpec<[i32; 4]>>::from_spec(a).z,
            <CVector4i as vstd::std_specs::convert::FromSpec<[i32; 4]>>::from_spec(a).w,
        ] == a@,
{
    assert(seq![a@[0], a@[1], a@[2], a@[3]] =~= a@);
}

/// The ID of an object: a UUID, held as the 128-bit number whose big-endian bytes
/// are the UUID's bytes.
#[derive(Copy, Clone, Debug, PartialEq, Eq, Structural, Hash)]
pub struct CObjectId(pub u128);

impl CObjectId {
    /// Reads the ID stored in the 16 bytes at `pos` in the byte order `e` (see
    /// `spec_uuid_at`).
    pub fn read(data: &[u8], pos: usize, e: crate::util::read::Endian) -> (r: CObjectId)
        requires
            pos + 16 <= data@.len(),
        ensures
            r.0 == crate::format::pack::spec_uuid_at(data@, pos as int, e),
    {
        CObjectId(crate::format::pack::read_uuid(data, pos, e))
    }

    /// Whether the ID is the nil UUID, all of whose bytes are zero.
    pub fn is_nil(&self) -> (r: bool)
        ensures
            r == (self.0 == 0),
    {
        self.0 == 0
    }

    /// The UUID of the ID.
    pub fn into_inner(self) -> (r: u128)
        ensures
            r == self.0,
    {
        self.0
    }
}

} // verus!

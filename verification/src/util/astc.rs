//! ASTC container files.
use vstd::prelude::*;
use crate::format::txtr::{ETextureFormat, STextureHeader, spec_block_size, spec_is_astc};

verus! {

/// Magic at the start of an ASTC file.
pub open spec fn astc_magic() -> Seq<u8> {
    seq![0x13u8, 0xABu8, 0xA1u8, 0x5Cu8]
}

/// Why a texture could not be written as an ASTC file.
#[derive(Copy, Clone, Debug, PartialEq, Eq, Structural)]
pub enum AstcError {
    /// The texture's format is not an ASTC format; holds the format.
    ExpectedAstc(ETextureFormat),
}

/// A 24-bit little-endian unsigned integer.
#[derive(Copy, Clone, Debug, PartialEq, Eq, Structural)]
pub struct AstcU24(pub u8, pub u8, pub u8);

/// The three low bytes of `v`, least significant first.
pub open spec fn spec_u24_bytes(v: u32) -> Seq<u8> {
    seq![(v % 256) as u8, (v / 256 % 256) as u8, (v / 65536 % 256) as u8]
}

impl AstcU24 {
    /// The low 24 bits of `value`.
    pub fn from_u32(value: &u32) -> (r: Self)
        ensures
            seq![r.0, r.1, r.2] == spec_u24_bytes(*value),
    {
        let v = *value;
        AstcU24((v % 256) as u8, (v / 256 % 256) as u8, (v / 65536 % 256) as u8)
    }

    /// The value of the three bytes.
    pub fn as_u32(self) -> (r: u32)
        ensures
            r == self.0 + 256 * self.1 + 65536 * self.2,
    {
        self.0 as u32 + 256 * self.1 as u32 + 65536 * self.2 as u32
    }
}

/// Turning a value into 24 bits and back keeps its low 24 bits.
pub proof fn lemma_u24_round_trip(v: u32)
    ensures
        ({
            let b = spec_u24_bytes(v);
            b[0] + 256 * b[1] + 65536 * b[2] == v % 16777216
        }),
{
}

/// Reading three bytes as a value and writing the value back gives the same bytes.
pub proof fn lemma_u24_bytes_round_trip(x: AstcU24)
    ensures
        spec_u24_bytes((x.0 + 256 * x.1 + 65536 * x.2) as u32) == seq![x.0, x.1, x.2],
{
    let v = (x.0 + 256 * x.1 + 65536 * x.2) as u32;
    assert(spec_u24_bytes(v) =~= seq![x.0, x.1, x.2]);
}

/// Header of an ASTC file: block footprint and texture extent.
#[derive(Copy, Clone, Debug, PartialEq, Eq, Structural)]
pub struct AstcHeader {
    pub block_x: u8,
    pub block_y: u8,
    pub block_z: u8,
    pub dim_x: u32,
    pub dim_y: u32,
    pub dim_z: u32,
}

/// The bytes of an ASTC header.
pub open spec fn spec_astc_header_bytes(h: AstcHeader) -> Seq<u8> {
    astc_magic() + seq![h.block_x, h.block_y, h.block_z] + spec_u24_bytes(h.dim_x) + spec_u24_bytes(
        h.dim_y,
    ) + spec_u24_bytes(h.dim_z)
}

fn push_u24(out: &mut Vec<u8>, value: u32)
    ensures
        final(out)@ == old(out)@ + spec_u24_bytes(value),
{
    let b = AstcU24::from_u32(&value);
    out.push(b.0);
    out.push(b.1);
    out.push(b.2);
    assert(final(out)@ =~= old(out)@ + spec_u24_bytes(value));
}

impl AstcHeader {
    /// Appends the header's bytes to `out`.
    pub fn write(&self, out: &mut Vec<u8>)
        ensures
            final(out)@ == old(out)@ + spec_astc_header_bytes(*self),
    {
        out.push(0x13u8);
        out.push(0xABu8);
        out.push(0xA1u8);
        out.push(0x5Cu8);
        out.push(self.block_x);
        out.push(self.block_y);
        out.push(self.block_z);
        assert(out@ =~= old(out)@ + astc_magic() + seq![self.block_x, self.block_y, self.block_z]);
        push_u24(out, self.dim_x);
        push_u24(out, self.dim_y);
        push_u24(out, self.dim_z);
        assert(out@ =~= old(out)@ + spec_astc_header_bytes(*self));
    }
}

/// The ASTC header that describes the texture with header `head`.
pub open spec fn spec_astc_header_for(head: STextureHeader) -> AstcHeader {
    let (bx, by, bz) = spec_block_size(head.format.spec_code());
    AstcHeader {
        block_x: bx,
        block_y: by,
        block_z: bz,
        dim_x: head.width,
        dim_y: head.height,
        dim_z: head.layers,
    }
}

/// Appends to `w` an ASTC file holding the first mip level of an ASTC texture.
pub fn write_astc(w: &mut Vec<u8>, head: &STextureHeader, data: &[u8]) -> (r: Result<(), AstcError>)
    requires
        spec_is_astc(head.format.spec_code()) ==> head.mip_sizes@.len() > 0
            && head.mip_sizes@[0] <= data@.len(),
    ensures
        !spec_is_astc(head.format.spec_code()) ==> r == Err::<(), _>(
            AstcError::ExpectedAstc(head.format),
        ) && final(w)@ == old(w)@,
        spec_is_astc(head.format.spec_code()) ==> r is Ok && final(w)@ == old(w)@
            + spec_astc_header_bytes(spec_astc_header_for(*head)) + data@.subrange(
            0,
            head.mip_sizes@[0] as int,
        ),
{
    if !head.format.is_astc() {
        return Err(AstcError::ExpectedAstc(head.format));
    }
    let (block_x, block_y, block_z) = head.format.block_size();
    let header = AstcHeader {
        block_x,
        block_y,
        block_z,
        dim_x: head.width,
        dim_y: head.height,
        dim_z: head.layers,
    };
    header.write(w);
    let ghost with_header = w@;
    let end = head.mip_sizes[0] as usize;
    let mut k: usize = 0;
    while k < end
        invariant
            k <= end,
            end <= data@.len(),
            w@ == with_header + data@.subrange(0, k as int),
        decreases end - k,
    {
        w.push(data[k]);
        assert(w@ =~= with_header + data@.subrange(0, k + 1));
        k = k + 1;
    }
    Ok(())
}

} // verus!

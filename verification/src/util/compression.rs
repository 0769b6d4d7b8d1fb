//! Compressed buffers: a little-endian `u32` mode followed by the payload.
//! Mode 0 stores the bytes as they are; modes 1 to 3 are LZSS streams.
use vstd::prelude::*;
use crate::util::lzss;
use crate::util::read::{Endian, read_u32, spec_u32};

verus! {

/// Why a compressed buffer could not be expanded.
#[derive(Copy, Clone, PartialEq, Eq, Structural, Debug)]
pub enum CompressionError {
    /// The buffer is shorter than its four-byte mode; holds the length.
    InvalidSize(usize),
    /// The mode is not one this library decodes; holds the mode.
    UnsupportedMode(u32),
    /// The payload did not produce exactly the expected number of bytes.
    DecompressionFailed,
}

/// The compression mode stored in the first four bytes.
pub open spec fn spec_mode(data: Seq<u8>) -> int {
    spec_u32(data, 0, Endian::Little)
}

/// The payload that follows the mode.
pub open spec fn spec_payload(data: Seq<u8>) -> Seq<u8> {
    data.subrange(4, data.len() as int)
}

/// The input stays within what decoding can do without running off a buffer:
/// for an LZSS mode, the stream decodes into `out` (see `lzss::decode`).
pub open spec fn fits(data: Seq<u8>, out: Seq<u8>) -> bool {
    data.len() >= 4 && 1 <= spec_mode(data) <= 3 ==> lzss::decode(
        spec_mode(data) as u8,
        spec_payload(data),
        out,
    ) is Some
}

/// What `decompress_into` produces for `data` and the initial output `out`:
/// the result and the final content of the output.
pub open spec fn spec_decompress_into(data: Seq<u8>, out: Seq<u8>) -> (
    Result<u32, CompressionError>,
    Seq<u8>,
) {
    if data.len() < 4 {
        (Err(CompressionError::InvalidSize(data.len() as usize)), out)
    } else {
        let mode = spec_mode(data);
        let payload = spec_payload(data);
        if mode == 0 {
            if payload.len() == out.len() {
                (Ok(0u32), payload)
            } else {
                (Err(CompressionError::DecompressionFailed), out)
            }
        } else if 1 <= mode <= 3 {
            let (buf, end) = lzss::decode(mode as u8, payload, out)->0;
            (
                if end == out.len() {
                    Ok(mode as u32)
                } else {
                    Err(CompressionError::DecompressionFailed)
                },
                buf,
            )
        } else {
            (Err(CompressionError::UnsupportedMode(mode as u32)), out)
        }
    }
}

/// Expands `compressed_data` into `out`, returning the compression mode.
pub fn decompress_into(compressed_data: &[u8], out: &mut [u8]) -> (r: Result<u32, CompressionError>)
    requires
        fits(compressed_data@, old(out)@),
    ensures
        r == spec_decompress_into(compressed_data@, old(out)@).0,
        final(out)@ == spec_decompress_into(compressed_data@, old(out)@).1,
        final(out)@.len() == old(out)@.len(),
{
    if compressed_data.len() < 4 {
        return Err(CompressionError::InvalidSize(compressed_data.len()));
    }
    let mode = read_u32(compressed_data, 0, Endian::Little).unwrap();
    let data = &compressed_data[4..compressed_data.len()];
    let ok = if mode == 0 {
        if data.len() == out.len() {
            let mut k: usize = 0;
            while k < data.len()
                invariant
                    k <= data@.len(),
                    data@.len() == out@.len(),
                    forall|i: int| 0 <= i < k ==> #[trigger] out@[i] == data@[i],
                decreases data@.len() - k,
            {
                out[k] = data[k];
                k = k + 1;
            }
            assert(out@ =~= data@);
            true
        } else {
            false
        }
    } else if mode == 1 {
        lzss::decompress::<1>(data, out)
    } else if mode == 2 {
        lzss::decompress::<2>(data, out)
    } else if mode == 3 {
        lzss::decompress::<3>(data, out)
    } else {
        return Err(CompressionError::UnsupportedMode(mode));
    };
    if !ok {
        return Err(CompressionError::DecompressionFailed);
    }
    Ok(mode)
}

/// The buffer begins with four zero bytes: its payload is stored as it is.
pub open spec fn is_stored(data: Seq<u8>) -> bool {
    data.len() >= 4 && data[0] == 0 && data[1] == 0 && data[2] == 0 && data[3] == 0
}

/// A zeroed buffer of `n` bytes.
pub open spec fn zeros(n: int) -> Seq<u8> {
    Seq::new(n as nat, |i: int| 0u8)
}

/// What `decompress_buffer` returns for `data` and `size`: the mode and the expanded bytes.
pub open spec fn spec_decompress_buffer(data: Seq<u8>, size: int) -> Result<
    (u32, Seq<u8>),
    CompressionError,
> {
    if data.len() < 4 {
        Err(CompressionError::InvalidSize(data.len() as usize))
    } else if is_stored(data) {
        Ok((0u32, spec_payload(data)))
    } else {
        let (res, buf) = spec_decompress_into(data, zeros(size));
        match res {
            Ok(mode) => Ok((mode, buf)),
            Err(e) => Err(e),
        }
    }
}

/// Expanding a buffer that is not stored as it is gives what expanding it into a
/// zeroed buffer of the size asked for gives; when that succeeds, the expanded bytes
/// are exactly that many and the mode is the nonzero one in its first four bytes.
pub proof fn lemma_buffer_expands_into_zeros(data: Seq<u8>, size: int)
    requires
        data.len() >= 4,
        !is_stored(data),
        size >= 0,
        fits(data, zeros(size)),
    ensures
        spec_decompress_buffer(data, size) == (match spec_decompress_into(data, zeros(size)) {
            (Ok(m), b) => Ok::<(u32, Seq<u8>), CompressionError>((m, b)),
            (Err(e), _) => Err(e),
        }),
        spec_decompress_buffer(data, size) matches Ok((m, b)) ==> b.len() == size && m == spec_mode(data)
            && m != 0,
{
    let mode = spec_mode(data);
    if 1 <= mode <= 3 {
        lzss::lemma_decode_len(mode as u8, spec_payload(data), 0, zeros(size), 0, 0, 0);
    }
}

/// The view of an expanded buffer.
pub open spec fn buffer_view(r: Result<(u32, Vec<u8>), CompressionError>) -> Result<
    (u32, Seq<u8>),
    CompressionError,
> {
    match r {
        Ok((mode, out)) => Ok((mode, out@)),
        Err(e) => Err(e),
    }
}

/// Expands `compressed_data` into a new buffer of `decompressed_size` bytes and
/// returns the mode with the expanded bytes. A buffer that starts with four zero
/// bytes is returned as it is, whatever the size asked for.
pub fn decompress_buffer(compressed_data: &[u8], decompressed_size: u64) -> (r: Result<
    (u32, Vec<u8>),
    CompressionError,
>)
    requires
        decompressed_size <= usize::MAX,
        fits(compressed_data@, zeros(decompressed_size as int)),
    ensures
        buffer_view(r) == spec_decompress_buffer(compressed_data@, decompressed_size as int),
{
    if compressed_data.len() < 4 {
        return Err(CompressionError::InvalidSize(compressed_data.len()));
    }
    if compressed_data[0] == 0 && compressed_data[1] == 0 && compressed_data[2] == 0
        && compressed_data[3] == 0 {
        return Ok((0, vstd::slice::slice_to_vec(&compressed_data[4..compressed_data.len()])));
    }
    let mut out: Vec<u8> = vec![0u8; decompressed_size as usize];
    proof {
        assert(out@ =~= zeros(decompressed_size as int));
    }
    let mode = decompress_into(compressed_data, out.as_mut_slice())?;
    Ok((mode, out))
}

/// Tells, from the positions alone, how expanding `data` into an output of `len`
/// bytes goes: `None` where it would run off a buffer (the output is not one that
/// `data` fits), else whether the expansion succeeds.
pub fn expand_check(data: &[u8], len: usize) -> (r: Option<bool>)
    ensures
        forall|out: Seq<u8>|
            out.len() == len ==> ((r is Some <==> #[trigger] fits(data@, out)) && (r matches Some(ok) ==> ok
                == spec_decompress_into(data@, out).0 is Ok)),
{
    if data.len() < 4 {
        return Some(false);
    }
    let mode = read_u32(data, 0, Endian::Little).unwrap();
    let payload = &data[4..data.len()];
    assert(payload@ == spec_payload(data@));
    if mode == 0 {
        return Some(payload.len() == len);
    }
    if mode > 3 {
        return Some(false);
    }
    let end = lzss::decode_end(mode as u8, payload, len);
    proof {
        assert forall|out: Seq<u8>| out.len() == len implies ((end is Some <==> #[trigger] fits(data@, out)) && (
        end matches Some(e) ==> (e == len) == spec_decompress_into(data@, out).0 is Ok)) by {
            lzss::lemma_decode_end(mode as u8, payload@, 0, out, 0, 0, 0);
        }
    }
    match end {
        Some(e) => Some(e == len),
        None => None,
    }
}

} // verus!

//! LZSS decoding as used by the resource packages.
//!
//! A stream is a sequence of groups of eight items, each group preceded by a
//! header byte whose bits (most significant first) select the kind of each item:
//! a clear bit is a literal run of `group_len` bytes, a set bit is a two-byte
//! back reference that repeats earlier output.
use vstd::prelude::*;
use vstd::arithmetic::power2::pow2;

verus! {

/// Number of bytes in one unit of output for mode `m` (`2^(m-1)`).
pub open spec fn spec_group_len(m: u8) -> int {
    if m == 1 {
        1
    } else if m == 2 {
        2
    } else {
        4
    }
}

/// `buf` after copying `n` bytes one at a time, front to back, from position `src`
/// to position `dst`; a copy may read bytes that it wrote itself.
pub open spec fn copy_back(buf: Seq<u8>, dst: int, src: int, n: int) -> Seq<u8>
    decreases n,
{
    if n <= 0 {
        buf
    } else {
        copy_back(buf.update(dst, buf[src]), dst + 1, src + 1, n - 1)
    }
}

/// `buf` with `n` bytes of `input` from position `from` written at position `at`.
pub open spec fn copy_literal(buf: Seq<u8>, at: int, input: Seq<u8>, from: int, n: int) -> Seq<u8> {
    Seq::new(
        buf.len(),
        |i: int|
            if at <= i < at + n {
                input[from + i - at]
            } else {
                buf[i]
            },
    )
}

/// The output buffer and output position once the items from input position `pos`
/// on are decoded, starting from buffer `buf`, output position `cur`, header byte
/// `header` and `group` items left in the current group. `None` when an item reads
/// past the end of the input, writes past the end of the buffer, or refers to a
/// position before the start of the output.
pub open spec fn decode_from(
    m: u8,
    input: Seq<u8>,
    pos: int,
    buf: Seq<u8>,
    cur: int,
    header: u8,
    group: int,
) -> Option<(Seq<u8>, int)>
    decreases input.len() - pos,
{
    if pos < 0 || pos >= input.len() {
        Some((buf, cur))
    } else {
        let hdr = if group == 0 {
            input[pos]
        } else {
            header
        };
        let p = if group == 0 {
            pos + 1
        } else {
            pos
        };
        let g = if group == 0 {
            8
        } else {
            group
        };
        let gl = spec_group_len(m);
        if hdr & 0x80u8 == 0 {
            if p + gl > input.len() || cur + gl > buf.len() {
                None
            } else {
                decode_from(
                    m,
                    input,
                    p + gl,
                    copy_literal(buf, cur, input, p, gl),
                    cur + gl,
                    hdr << 1u8,
                    g - 1,
                )
            }
        } else {
            if p + 2 > input.len() {
                None
            } else {
                let n = ((input[p] >> 4u8) + 4 - m) * gl;
                let dist = ((input[p] & 0xFu8) * 256 + input[p + 1]) * gl;
                if dist > cur || cur + n > buf.len() {
                    None
                } else {
                    decode_from(
                        m,
                        input,
                        p + 2,
                        copy_back(buf, cur, cur - dist, n),
                        cur + n,
                        hdr << 1u8,
                        g - 1,
                    )
                }
            }
        }
    }
}

/// Decoding a whole stream into `buf`: the final buffer and the number of bytes produced.
pub open spec fn decode(m: u8, input: Seq<u8>, buf: Seq<u8>) -> Option<(Seq<u8>, int)> {
    decode_from(m, input, 0, buf, 0, 0, 0)
}

proof fn lemma_copy_back_len(buf: Seq<u8>, dst: int, src: int, n: int)
    requires
        0 <= src <= dst,
        dst + n <= buf.len(),
    ensures
        copy_back(buf, dst, src, n).len() == buf.len(),
    decreases n,
{
    if n > 0 {
        lemma_copy_back_len(buf.update(dst, buf[src]), dst + 1, src + 1, n - 1);
    }
}

/// Decoding keeps the buffer's length and ends inside it.
pub proof fn lemma_decode_len(
    m: u8,
    input: Seq<u8>,
    pos: int,
    buf: Seq<u8>,
    cur: int,
    header: u8,
    group: int,
)
    requires
        0 <= cur <= buf.len(),
        1 <= m <= 3,
        decode_from(m, input, pos, buf, cur, header, group) is Some,
    ensures
        ({
            let (out, end) = decode_from(m, input, pos, buf, cur, header, group)->0;
            out.len() == buf.len() && 0 <= end <= buf.len()
        }),
    decreases input.len() - pos,
{
    if 0 <= pos < input.len() {
        let hdr = if group == 0 {
            input[pos]
        } else {
            header
        };
        let p = if group == 0 {
            pos + 1
        } else {
            pos
        };
        let g = if group == 0 {
            8
        } else {
            group
        };
        let gl = spec_group_len(m);
        if hdr & 0x80u8 == 0 {
            lemma_decode_len(
                m,
                input,
                p + gl,
                copy_literal(buf, cur, input, p, gl),
                cur + gl,
                hdr << 1u8,
                g - 1,
            );
        } else {
            let n = ((input[p] >> 4u8) + 4 - m) * gl;
            let dist = ((input[p] & 0xFu8) * 256 + input[p + 1]) * gl;
            assert(n >= 0) by (nonlinear_arith)
                requires
                    n == ((input[p] >> 4u8) + 4 - m) * gl,
                    1 <= m <= 3,
                    gl > 0,
            ;
            lemma_copy_back_len(buf, cur, cur - dist, n);
            lemma_decode_len(
                m,
                input,
                p + 2,
                copy_back(buf, cur, cur - dist, n),
                cur + n,
                hdr << 1u8,
                g - 1,
            );
        }
    }
}

/// Decodes an LZSS stream of mode `M` (1, 2 or 3) into `output` and tells whether it
/// filled `output` exactly.
pub fn decompress<const M: u8>(input: &[u8], output: &mut [u8]) -> (r: bool)
    requires
        1 <= M <= 3,
        decode(M, input@, old(output)@) is Some,
    ensures
        decode(M, input@, old(output)@) matches Some((buf, end)) && final(output)@ == buf && r == (
        end == old(output)@.len()),
        final(output)@.len() == old(output)@.len(),
{
    proof {
        lemma_decode_len(M, input@, 0, output@, 0, 0, 0);
    }
    let group_len: usize = if M == 1 {
        1
    } else if M == 2 {
        2
    } else {
        4
    };
    let ghost target = decode(M, input@, old(output)@);
    let mut pos: usize = 0;
    let mut out_cur: usize = 0;
    let mut header_byte: u8 = 0;
    let mut group: u8 = 0;
    let len = output.len();
    while pos < input.len()
        invariant
            1 <= M <= 3,
            group_len == spec_group_len(M),
            pos <= input.len(),
            out_cur <= output@.len(),
            output@.len() == len,
            group <= 8,
            decode_from(M, input@, pos as int, output@, out_cur as int, header_byte, group as int)
                == target,
            target is Some,
        decreases input.len() - pos,
    {
        let ghost pos0 = pos as int;
        let ghost hdr0 = header_byte;
        let ghost group0 = group as int;
        let ghost cur0 = out_cur as int;
        let ghost buf_start = output@;
        if group == 0 {
            header_byte = input[pos];
            pos = pos + 1;
            group = 8;
        }
        if header_byte & 0x80u8 == 0 {
            let ghost buf0 = output@;
            if input.len() - pos < group_len || len - out_cur < group_len {
                assert(false);
            }
            let mut k: usize = 0;
            while k < group_len
                invariant
                    k <= group_len,
                    group_len <= 4,
                    pos + group_len <= input.len(),
                    out_cur + group_len <= len,
                    output@.len() == len,
                    buf0.len() == len,
                    forall|i: int|
                        0 <= i < len ==> #[trigger] output@[i] == if out_cur <= i < out_cur + k {
                            input@[pos + i - out_cur]
                        } else {
                            buf0[i]
                        },
                decreases group_len - k,
            {
                output[out_cur + k] = input[pos + k];
                k = k + 1;
            }
            assert(output@ =~= copy_literal(buf0, out_cur as int, input@, pos as int, group_len as int));
            pos = pos + group_len;
            out_cur = out_cur + group_len;
        } else {
            if input.len() - pos < 2 {
                assert(false);
            }
            let b0 = input[pos];
            let b1 = input[pos + 1];
            let count: usize = (b0 >> 4u8) as usize + (4 - M as usize);
            let dist: usize = ((b0 & 0xFu8) as usize * 256 + b1 as usize) * group_len;
            let n: usize = count * group_len;
            if dist > out_cur || len - out_cur < n {
                assert(false);
            }
            let seek = out_cur - dist;
            let ghost buf0 = output@;
            let mut k: usize = 0;
            while k < n
                invariant
                    k <= n,
                    seek <= out_cur,
                    out_cur + n <= len,
                    output@.len() == len,
                    copy_back(output@, out_cur + k, seek + k, n - k) == copy_back(
                        buf0,
                        out_cur as int,
                        seek as int,
                        n as int,
                    ),
                decreases n - k,
            {
                let v = output[seek + k];
                output[out_cur + k] = v;
                k = k + 1;
            }
            pos = pos + 2;
            out_cur = out_cur + n;
        }
        header_byte = header_byte << 1u8;
        group = group - 1;
        assert(decode_from(M, input@, pos0, buf_start, cur0, hdr0, group0) == decode_from(
            M,
            input@,
            pos as int,
            output@,
            out_cur as int,
            header_byte,
            group as int,
        ));
    }
    out_cur == len
}

/// Where decoding from input position `pos` ends in an output of `len` bytes (as
/// `decode_from`, keeping only positions): the output position, or `None` where an
/// item runs off the input or the output or refers before the start of the output.
pub open spec fn decode_end_from(m: u8, input: Seq<u8>, pos: int, len: int, cur: int, header: u8, group: int) -> Option<int>
    decreases input.len() - pos,
{
    if pos < 0 || pos >= input.len() {
        Some(cur)
    } else {
        let hdr = if group == 0 {
            input[pos]
        } else {
            header
        };
        let p = if group == 0 {
            pos + 1
        } else {
            pos
        };
        let g = if group == 0 {
            8
        } else {
            group
        };
        let gl = spec_group_len(m);
        if hdr & 0x80u8 == 0 {
            if p + gl > input.len() || cur + gl > len {
                None
            } else {
                decode_end_from(m, input, p + gl, len, cur + gl, hdr << 1u8, g - 1)
            }
        } else {
            if p + 2 > input.len() {
                None
            } else {
                let n = ((input[p] >> 4u8) + 4 - m) * gl;
                let dist = ((input[p] & 0xFu8) * 256 + input[p + 1]) * gl;
                if dist > cur || cur + n > len {
                    None
                } else {
                    decode_end_from(m, input, p + 2, len, cur + n, hdr << 1u8, g - 1)
                }
            }
        }
    }
}

/// Decoding runs off nothing exactly where the positions alone run off nothing, and
/// then ends where they end: the bytes in the output do not matter.
pub proof fn lemma_decode_end(m: u8, input: Seq<u8>, pos: int, buf: Seq<u8>, cur: int, header: u8, group: int)
    requires
        0 <= cur <= buf.len(),
        1 <= m <= 3,
    ensures
        match decode_from(m, input, pos, buf, cur, header, group) {
            Some((_, end)) => decode_end_from(m, input, pos, buf.len() as int, cur, header, group) == Some(end),
            None => decode_end_from(m, input, pos, buf.len() as int, cur, header, group) is None,
        },
    decreases input.len() - pos,
{
    if 0 <= pos < input.len() {
        let hdr = if group == 0 {
            input[pos]
        } else {
            header
        };
        let p = if group == 0 {
            pos + 1
        } else {
            pos
        };
        let g = if group == 0 {
            8
        } else {
            group
        };
        let gl = spec_group_len(m);
        if hdr & 0x80u8 == 0 {
            if !(p + gl > input.len() || cur + gl > buf.len()) {
                lemma_decode_end(m, input, p + gl, copy_literal(buf, cur, input, p, gl), cur + gl, hdr << 1u8, g - 1);
            }
        } else if p + 2 <= input.len() {
            let n = ((input[p] >> 4u8) + 4 - m) * gl;
            let dist = ((input[p] & 0xFu8) * 256 + input[p + 1]) * gl;
            assert(n >= 0) by (nonlinear_arith)
                requires
                    n == ((input[p] >> 4u8) + 4 - m) * gl,
                    1 <= m <= 3,
                    gl > 0,
            ;
            if !(dist > cur || cur + n > buf.len()) {
                lemma_copy_back_len(buf, cur, cur - dist, n);
                lemma_decode_end(m, input, p + 2, copy_back(buf, cur, cur - dist, n), cur + n, hdr << 1u8, g - 1);
            }
        }
    }
}

/// Where decoding the LZSS stream `input` of mode `m` into an output of `len` bytes
/// ends, without writing it (see `decode_end_from`).
pub fn decode_end(m: u8, input: &[u8], len: usize) -> (r: Option<usize>)
    requires
        1 <= m <= 3,
    ensures
        match r {
            Some(e) => decode_end_from(m, input@, 0, len as int, 0, 0, 0) == Some(e as int),
            None => decode_end_from(m, input@, 0, len as int, 0, 0, 0) is None,
        },
{
    let group_len: usize = if m == 1 {
        1
    } else if m == 2 {
        2
    } else {
        4
    };
    let ghost target = decode_end_from(m, input@, 0, len as int, 0, 0, 0);
    let mut pos: usize = 0;
    let mut cur: usize = 0;
    let mut header_byte: u8 = 0;
    let mut group: u8 = 0;
    while pos < input.len()
        invariant
            1 <= m <= 3,
            group_len == spec_group_len(m),
            pos <= input.len(),
            cur <= len,
            group <= 8,
            decode_end_from(m, input@, pos as int, len as int, cur as int, header_byte, group as int) == target,
            target == decode_end_from(m, input@, 0, len as int, 0, 0, 0),
        decreases input.len() - pos,
    {
        let ghost pos0 = pos as int;
        let ghost hdr0 = header_byte;
        let ghost group0 = group as int;
        let ghost cur0 = cur as int;
        if group == 0 {
            header_byte = input[pos];
            pos = pos + 1;
            group = 8;
        }
        if header_byte & 0x80u8 == 0 {
            if input.len() - pos < group_len || len - cur < group_len {
                assert(decode_end_from(m, input@, pos0, len as int, cur0, hdr0, group0) is None);
                return None;
            }
            pos = pos + group_len;
            cur = cur + group_len;
        } else {
            if input.len() - pos < 2 {
                assert(decode_end_from(m, input@, pos0, len as int, cur0, hdr0, group0) is None);
                return None;
            }
            let b0 = input[pos];
            let b1 = input[pos + 1];
            let count: usize = (b0 >> 4u8) as usize + (4 - m as usize);
            let dist: usize = ((b0 & 0xFu8) as usize * 256 + b1 as usize) * group_len;
            let n: usize = count * group_len;
            if dist > cur || len - cur < n {
                assert(decode_end_from(m, input@, pos0, len as int, cur0, hdr0, group0) is None);
                return None;
            }
            pos = pos + 2;
            cur = cur + n;
        }
        header_byte = header_byte << 1u8;
        group = group - 1;
        assert(decode_end_from(m, input@, pos0, len as int, cur0, hdr0, group0) == decode_end_from(
            m,
            input@,
            pos as int,
            len as int,
            cur as int,
            header_byte,
            group as int,
        ));
    }
    Some(cur)
}

/// Copying `n` bytes front to back from `src` to `dst` (with `src <= dst`) leaves
/// the bytes before `dst` and from `dst + n` on as they were, and makes each copied
/// byte equal to the byte `dst - src` positions before it in the result.
pub proof fn lemma_copy_back_repeats(buf: Seq<u8>, dst: int, src: int, n: int)
    requires
        0 <= src <= dst,
        0 <= n,
        dst + n <= buf.len(),
    ensures
        ({
            let r = copy_back(buf, dst, src, n);
            &&& r.len() == buf.len()
            &&& forall|i: int| 0 <= i < dst ==> #[trigger] r[i] == buf[i]
            &&& forall|i: int| dst <= i < dst + n ==> #[trigger] r[i] == r[i - (dst - src)]
            &&& forall|i: int| dst + n <= i < buf.len() ==> #[trigger] r[i] == buf[i]
        }),
    decreases n,
{
    if n > 0 {
        let b1 = buf.update(dst, buf[src]);
        lemma_copy_back_repeats(b1, dst + 1, src + 1, n - 1);
        let r = copy_back(buf, dst, src, n);
        assert(r == copy_back(b1, dst + 1, src + 1, n - 1));
        assert forall|i: int| dst <= i < dst + n implies #[trigger] r[i] == r[i - (dst - src)] by {
            if i == dst {
                assert(r[dst] == b1[dst]);
                if src < dst {
                    assert(r[src] == b1[src]);
                }
            }
        }
    }
}

/// A back reference of an LZSS stream of mode `m` (1 to 3) whose first byte holds
/// the count field `c` in its high nibble and, with the second byte, the 12-bit
/// distance field `d`: it writes `(c + 4 - m) * 2^(m-1)` bytes at the output
/// position, each equal to the byte `d * 2^(m-1)` bytes before it, leaves the rest of
/// the output as it was, and decoding goes on after its two bytes.
#[verifier::spinoff_prover]
#[verifier::rlimit(60)]
pub proof fn lemma_back_reference(m: u8, input: Seq<u8>, pos: int, buf: Seq<u8>, cur: int, header: u8, group: int)
    requires
        1 <= m <= 3,
        0 <= pos,
        pos + 2 <= input.len(),
        1 <= group <= 8,
        header & 0x80u8 != 0,
        0 <= cur,
        ((input[pos] & 0xFu8) * 256 + input[pos + 1]) * pow2((m - 1) as nat) <= cur,
        cur + ((input[pos] >> 4u8) + 4 - m) * pow2((m - 1) as nat) <= buf.len(),
    ensures
        ({
            let u = pow2((m - 1) as nat) as int;
            let dist = ((input[pos] & 0xFu8) * 256 + input[pos + 1]) * u;
            let n = ((input[pos] >> 4u8) + 4 - m) * u;
            let b2 = copy_back(buf, cur, cur - dist, n);
            &&& decode_from(m, input, pos, buf, cur, header, group) == decode_from(
                m,
                input,
                pos + 2,
                b2,
                cur + n,
                header << 1u8,
                group - 1,
            )
            &&& b2.len() == buf.len()
            &&& forall|i: int| 0 <= i < cur ==> #[trigger] b2[i] == buf[i]
            &&& forall|i: int| cur <= i < cur + n ==> #[trigger] b2[i] == b2[i - dist]
            &&& forall|i: int| cur + n <= i < buf.len() ==> #[trigger] b2[i] == buf[i]
        }),
{
    vstd::arithmetic::power2::lemma2_to64();
    let u = pow2((m - 1) as nat) as int;
    assert(u == spec_group_len(m));
    let n = ((input[pos] >> 4u8) + 4 - m) * u;
    assert(n >= 0) by (nonlinear_arith)
        requires
            n == ((input[pos] >> 4u8) + 4 - m) * u,
            1 <= m <= 3,
            u > 0,
    ;
    let dist = ((input[pos] & 0xFu8) * 256 + input[pos + 1]) * u;
    assert(dist >= 0) by (nonlinear_arith)
        requires
            dist == ((input[pos] & 0xFu8) * 256 + input[pos + 1]) * u,
            u > 0,
    ;
    lemma_copy_back_repeats(buf, cur, cur - dist, n);
    assert(decode_from(m, input, pos, buf, cur, header, group) == decode_from(
        m,
        input,
        pos + 2,
        copy_back(buf, cur, cur - dist, n),
        cur + n,
        header << 1u8,
        group - 1,
    ));
}

/// A literal item of an LZSS stream of mode `m` writes the next `2^(m-1)` input bytes
/// at the output position as they are, and decoding goes on after them.
pub proof fn lemma_literal(m: u8, input: Seq<u8>, pos: int, buf: Seq<u8>, cur: int, header: u8, group: int)
    requires
        1 <= m <= 3,
        0 <= pos,
        pos + pow2((m - 1) as nat) <= input.len(),
        1 <= group <= 8,
        header & 0x80u8 == 0,
        0 <= cur,
        cur + pow2((m - 1) as nat) <= buf.len(),
    ensures
        ({
            let u = pow2((m - 1) as nat) as int;
            let b2 = Seq::new(buf.len(), |i: int| if cur <= i < cur + u { input[pos + i - cur] } else { buf[i] });
            decode_from(m, input, pos, buf, cur, header, group) == decode_from(
                m,
                input,
                pos + u,
                b2,
                cur + u,
                header << 1u8,
                group - 1,
            )
        }),
{
    vstd::arithmetic::power2::lemma2_to64();
    let u = pow2((m - 1) as nat) as int;
    assert(u == spec_group_len(m));
    let b2 = Seq::new(buf.len(), |i: int| if cur <= i < cur + u { input[pos + i - cur] } else { buf[i] });
    assert(copy_literal(buf, cur, input, pos, u) =~= b2);
}

/// At the start of a group of items the next input byte is the group's header: its
/// bits, most significant first, say for each of the eight items that follow whether
/// it is a back reference (set) or a literal (clear); once the input ends, decoding
/// stops with the output as it is.
pub proof fn lemma_group_header(m: u8, input: Seq<u8>, pos: int, buf: Seq<u8>, cur: int, header: u8)
    requires
        1 <= m <= 3,
        0 <= pos,
    ensures
        pos + 1 < input.len() ==> decode_from(m, input, pos, buf, cur, header, 0) == decode_from(
            m,
            input,
            pos + 1,
            buf,
            cur,
            input[pos],
            8,
        ),
        pos >= input.len() ==> decode_from(m, input, pos, buf, cur, header, 0) == Some((buf, cur)),
{
}

} // verus!

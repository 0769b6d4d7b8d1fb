//! Reading fixed-size integers out of byte buffers.
use vstd::prelude::*;

verus! {

/// Byte order of the integers in a file.
#[derive(Copy, Clone, PartialEq, Eq, Structural, Debug)]
pub enum Endian {
    Little,
    Big,
}

/// Value of the two bytes at `pos` in the given byte order.
pub open spec fn spec_u16(s: Seq<u8>, pos: int, e: Endian) -> int {
    if e == Endian::Little {
        s[pos] + 256 * s[pos + 1]
    } else {
        256 * s[pos] + s[pos + 1]
    }
}

/// Value of the four bytes at `pos` in the given byte order.
pub open spec fn spec_u32(s: Seq<u8>, pos: int, e: Endian) -> int {
    if e == Endian::Little {
        spec_u16(s, pos, e) + 65536 * spec_u16(s, pos + 2, e)
    } else {
        65536 * spec_u16(s, pos, e) + spec_u16(s, pos + 2, e)
    }
}

/// Value of the eight bytes at `pos` in the given byte order.
pub open spec fn spec_u64(s: Seq<u8>, pos: int, e: Endian) -> int {
    if e == Endian::Little {
        spec_u32(s, pos, e) + 4294967296 * spec_u32(s, pos + 4, e)
    } else {
        4294967296 * spec_u32(s, pos, e) + spec_u32(s, pos + 4, e)
    }
}

/// The byte at `pos`, or `None` when it lies past the end of `data`.
pub fn read_u8(data: &[u8], pos: usize) -> (r: Option<u8>)
    ensures
        r is Some <==> pos < data@.len(),
        r matches Some(v) ==> v == data@[pos as int],
{
    if pos >= data.len() {
        return None;
    }
    Some(data[pos])
}

/// The two bytes at `pos`, or `None` when they run past the end of `data`.
pub fn read_u16(data: &[u8], pos: usize, e: Endian) -> (r: Option<u16>)
    ensures
        r is Some <==> pos + 2 <= data@.len(),
        r matches Some(v) ==> v == spec_u16(data@, pos as int, e),
{
    if pos > data.len() || data.len() - pos < 2 {
        return None;
    }
    let b0 = data[pos] as u16;
    let b1 = data[pos + 1] as u16;
    Some(
        match e {
            Endian::Little => b0 + 256 * b1,
            Endian::Big => 256 * b0 + b1,
        },
    )
}

/// The four bytes at `pos`, or `None` when they run past the end of `data`.
pub fn read_u32(data: &[u8], pos: usize, e: Endian) -> (r: Option<u32>)
    ensures
        r is Some <==> pos + 4 <= data@.len(),
        r matches Some(v) ==> v == spec_u32(data@, pos as int, e),
{
    if pos > data.len() || data.len() - pos < 4 {
        return None;
    }
    let lo = read_u16(data, pos, e).unwrap() as u32;
    let hi = read_u16(data, pos + 2, e).unwrap() as u32;
    Some(
        match e {
            Endian::Little => lo + 65536 * hi,
            Endian::Big => 65536 * lo + hi,
        },
    )
}

/// The eight bytes at `pos`, or `None` when they run past the end of `data`.
pub fn read_u64(data: &[u8], pos: usize, e: Endian) -> (r: Option<u64>)
    ensures
        r is Some <==> pos + 8 <= data@.len(),
        r matches Some(v) ==> v == spec_u64(data@, pos as int, e),
{
    if pos > data.len() || data.len() - pos < 8 {
        return None;
    }
    let lo = read_u32(data, pos, e).unwrap() as u64;
    let hi = read_u32(data, pos + 4, e).unwrap() as u64;
    Some(
        match e {
            Endian::Little => lo + 4294967296 * hi,
            Endian::Big => 4294967296 * lo + hi,
        },
    )
}

} // verus!

verus! {

/// A record of fixed size that can be read from bytes.
pub trait FixedRecord: Sized {
    /// Number of bytes of one record.
    spec fn spec_size() -> int;

    /// The record stored at `pos`, or `None` when its bytes hold no valid record.
    spec fn spec_parse(s: Seq<u8>, pos: int, e: Endian) -> Option<Self>;

    /// Number of bytes of one record.
    fn size() -> (r: usize)
        ensures
            r as int == Self::spec_size(),
            r > 0,
    ;

    /// Reads the record stored at `pos`.
    fn parse(data: &[u8], pos: usize, e: Endian) -> (r: Option<Self>)
        requires
            pos + Self::spec_size() <= data@.len(),
        ensures
            r == Self::spec_parse(data@, pos as int, e),
    ;
}

impl FixedRecord for u32 {
    open spec fn spec_size() -> int {
        4
    }

    open spec fn spec_parse(s: Seq<u8>, pos: int, e: Endian) -> Option<u32> {
        Some(spec_u32(s, pos, e) as u32)
    }

    fn size() -> (r: usize) {
        4
    }

    fn parse(data: &[u8], pos: usize, e: Endian) -> (r: Option<u32>) {
        read_u32(data, pos, e)
    }
}

impl FixedRecord for u16 {
    open spec fn spec_size() -> int {
        2
    }

    open spec fn spec_parse(s: Seq<u8>, pos: int, e: Endian) -> Option<u16> {
        Some(spec_u16(s, pos, e) as u16)
    }

    fn size() -> (r: usize) {
        2
    }

    fn parse(data: &[u8], pos: usize, e: Endian) -> (r: Option<u16>) {
        read_u16(data, pos, e)
    }
}

impl FixedRecord for u8 {
    open spec fn spec_size() -> int {
        1
    }

    open spec fn spec_parse(s: Seq<u8>, pos: int, e: Endian) -> Option<u8> {
        Some(s[pos])
    }

    fn size() -> (r: usize) {
        1
    }

    fn parse(data: &[u8], pos: usize, e: Endian) -> (r: Option<u8>) {
        Some(data[pos])
    }
}

/// The `n` records stored one after the other from `pos`, or `None` when the bytes
/// run out or one of them holds no valid record.
pub open spec fn spec_parse_records<T: FixedRecord>(s: Seq<u8>, pos: int, n: int, e: Endian) -> Option<
    Seq<T>,
>
    decreases n,
{
    if n <= 0 {
        Some(Seq::empty())
    } else if pos + n * T::spec_size() > s.len() {
        None
    } else {
        match spec_parse_records::<T>(s, pos, n - 1, e) {
            None => None,
            Some(prev) => match T::spec_parse(s, pos + (n - 1) * T::spec_size(), e) {
                None => None,
                Some(last) => Some(prev.push(last)),
            },
        }
    }
}

/// Reads `count` records stored one after the other from `pos`.
pub fn read_records<T: FixedRecord>(data: &[u8], pos: usize, count: usize, e: Endian) -> (r: Option<Vec<T>>)
    ensures
        match (r, spec_parse_records::<T>(data@, pos as int, count as int, e)) {
            (Some(v), Some(s)) => v@ == s,
            (None, None) => true,
            _ => false,
        },
{
    let size = T::size();
    if count == 0 {
        return Some(Vec::new());
    }
    if pos > data.len() || (data.len() - pos) / size < count {
        proof {
            lemma_records_too_long::<T>(data@, pos as int, count as int, e, size as int);
        }
        return None;
    }
    proof {
        assert(count * size <= data@.len() - pos) by (nonlinear_arith)
            requires
                (data@.len() - pos) / (size as int) >= count,
                size > 0,
                pos <= data@.len(),
        ;
    }
    let len = data.len();
    let mut out: Vec<T> = Vec::new();
    let mut k: usize = 0;
    let mut at: usize = pos;
    while k < count
        invariant
            size as int == T::spec_size(),
            size > 0,
            pos <= data@.len(),
            (data@.len() - pos) / (size as int) >= count,
            pos + count * T::spec_size() <= data@.len(),
            len == data@.len(),
            k <= count,
            at == pos + k * size,
            spec_parse_records::<T>(data@, pos as int, k as int, e) == Some(out@),
        decreases count - k,
    {
        proof {
            assert((k + 1) * size <= data@.len() - pos) by (nonlinear_arith)
                requires
                    (data@.len() - pos) / (size as int) >= count,
                    k < count,
                    size > 0,
            ;
            assert((k + 1) * size == k * size + size) by (nonlinear_arith);
            assert(at + size <= data@.len());
        }
        match T::parse(data, at, e) {
            None => {
                proof {
                    lemma_records_fail_from::<T>(data@, pos as int, k as int, count as int, e);
                }
                return None;
            },
            Some(item) => {
                out.push(item);
            },
        }
        at = at + size;
        k = k + 1;
    }
    Some(out)
}

/// Records that parse lie inside the bytes.
/// Parsed records number as many as asked for.
pub proof fn lemma_records_len<T: FixedRecord>(s: Seq<u8>, pos: int, n: int, e: Endian)
    requires
        n >= 0,
        spec_parse_records::<T>(s, pos, n, e) is Some,
    ensures
        spec_parse_records::<T>(s, pos, n, e)->Some_0.len() == n,
    decreases n,
{
    if n > 0 {
        lemma_records_len::<T>(s, pos, n - 1, e);
    }
}

pub proof fn lemma_records_some_fit<T: FixedRecord>(s: Seq<u8>, pos: int, n: int, e: Endian)
    requires
        n >= 0,
        pos <= s.len(),
        spec_parse_records::<T>(s, pos, n, e) is Some,
    ensures
        pos + n * T::spec_size() <= s.len(),
{
    if n == 0 {
        assert(n * T::spec_size() == 0) by (nonlinear_arith)
            requires
                n == 0,
        ;
    }
}

/// Records of a kind that always parses fail only when they run past the bytes.
pub proof fn lemma_records_none_means_short<T: FixedRecord>(s: Seq<u8>, pos: int, n: int, e: Endian)
    requires
        forall|p: int| #[trigger] T::spec_parse(s, p, e) is Some,
        n >= 0,
        T::spec_size() > 0,
        spec_parse_records::<T>(s, pos, n, e) is None,
    ensures
        pos + n * T::spec_size() > s.len(),
    decreases n,
{
    if n > 0 && pos + n * T::spec_size() <= s.len() {
        assert(pos + (n - 1) * T::spec_size() <= s.len()) by (nonlinear_arith)
            requires
                pos + n * T::spec_size() <= s.len(),
                T::spec_size() > 0,
        ;
        lemma_records_none_means_short::<T>(s, pos, n - 1, e);
    }
}

proof fn lemma_records_too_long<T: FixedRecord>(s: Seq<u8>, pos: int, n: int, e: Endian, size: int)
    requires
        size == T::spec_size(),
        size > 0,
        n > 0,
        pos > s.len() || (s.len() - pos) / size < n,
    ensures
        spec_parse_records::<T>(s, pos, n, e) is None,
{
    if pos <= s.len() {
        assert(pos + n * size > s.len()) by (nonlinear_arith)
            requires
                (s.len() - pos) / size < n,
                size > 0,
                pos <= s.len(),
        ;
    } else {
        assert(n * size >= 0) by (nonlinear_arith)
            requires
                n > 0,
                size > 0,
        ;
    }
}

proof fn lemma_records_fail_from<T: FixedRecord>(s: Seq<u8>, pos: int, k: int, n: int, e: Endian)
    requires
        0 <= k < n,
        pos + n * T::spec_size() <= s.len(),
        T::spec_size() > 0,
        T::spec_parse(s, pos + k * T::spec_size(), e) is None,
    ensures
        spec_parse_records::<T>(s, pos, n, e) is None,
    decreases n - k,
{
    if k + 1 < n {
        assert(pos + (n - 1) * T::spec_size() <= s.len()) by (nonlinear_arith)
            requires
                pos + n * T::spec_size() <= s.len(),
                T::spec_size() > 0,
        ;
        lemma_records_fail_from::<T>(s, pos, k, n - 1, e);
    }
}

} // verus!

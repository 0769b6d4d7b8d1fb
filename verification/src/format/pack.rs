//! Package files: a PACK form whose TOCC form lists the assets (asset directory,
//! metadata table, string table), followed by the assets' data.
use vstd::prelude::*;
use crate::format::{
    FourCC, FormatError, four_cc_at, four_cc_value, lemma_four_cc_value_of_from_u32, spec_four_cc_at,
    spec_four_cc_from_u32,
};
use crate::format::chunk::{
    ChunkDescriptor, chunk_fits, chunk_fits_check, lemma_chunk_write_slice, spec_chunk_bytes, spec_chunk_end, spec_chunk_header, spec_chunk_slice,
    CHUNK_HEADER_SIZE,
};
use crate::format::foot::{
    K_CHUNK_AINF, K_CHUNK_NAME, K_FORM_FOOT, chunks_fit_until, foot_fits, spec_asset_id_in_foot, spec_locate_chunk,
};
use crate::format::rfrm::{
    FormDescriptor, form_fits, form_fits_check, lemma_form_write_slice, spec_form_end, spec_form_header, spec_form_header_bytes,
    spec_form_slice, with_size,
    FORM_HEADER_SIZE, K_CHUNK_RFRM,
};
use crate::format::{spec_utf8, string_from_utf8, text_view};
use crate::util::compression::{buffer_view, decompress_buffer, expand_check, fits, spec_decompress_buffer, zeros};
use crate::util::write::{push_bytes, push_u32, push_u64, spec_u32_bytes, spec_u64_bytes};
use crate::util::read::{
    Endian, FixedRecord, lemma_records_len, lemma_records_none_means_short, lemma_records_some_fit,
    read_records, read_u32, read_u64, spec_parse_records, spec_u32, spec_u64,
};
use vstd::utf8::{decode_utf8, valid_utf8};

verus! {

/// Code of the package form.
pub const K_FORM_PACK: u32 = 0x5041_434B;

/// Code of the table of contents form.
pub const K_FORM_TOCC: u32 = 0x544F_4343;

/// Code of the metadata table chunk.
pub const K_CHUNK_META: u32 = 0x4D45_5441;

/// Code of the string table chunk.
pub const K_CHUNK_STRG: u32 = 0x5354_5247;

/// Code of the asset directory chunk.
pub const K_CHUNK_ADIR: u32 = 0x4144_4952;

/// The value of the bytes `b` read as one big-endian number.
pub open spec fn spec_be_value(b: Seq<u8>) -> int
    decreases b.len(),
{
    if b.len() == 0 {
        0
    } else {
        spec_be_value(b.drop_last()) * 256 + b.last()
    }
}

/// The 16 bytes of a UUID stored in little-endian field order: its first three
/// fields (4, 2 and 2 bytes) come byte-reversed, the last 8 bytes as they are.
pub open spec fn spec_uuid_le_order(b: Seq<u8>) -> Seq<u8> {
    seq![b[3], b[2], b[1], b[0], b[5], b[4], b[7], b[6]] + b.subrange(8, 16)
}

/// The UUID stored in the 16 bytes at `pos`, as its 128-bit value (its bytes read
/// big-endian): in little-endian data its fields are stored little-endian.
pub open spec fn spec_uuid_at(s: Seq<u8>, pos: int, e: Endian) -> u128 {
    let b = s.subrange(pos, pos + 16);
    (if e == Endian::Little {
        spec_be_value(spec_uuid_le_order(b))
    } else {
        spec_be_value(b)
    }) as u128
}

/// Calls `uuid::Uuid::from_bytes_le` and takes the 128-bit value of the result
/// (`as_u128`): the crate documents that the first three fields are read
/// little-endian, and that the value packs the UUID's bytes big-endian.
#[verifier::external_body]
fn uuid_from_bytes_le(b: [u8; 16]) -> (r: u128)
    ensures
        r == spec_be_value(spec_uuid_le_order(b@)),
{
    uuid::Uuid::from_bytes_le(b).as_u128()
}

/// Calls `uuid::Uuid::from_bytes` and takes the 128-bit value of the result
/// (`as_u128`): the crate documents that the bytes are taken as they are and packed
/// big-endian.
#[verifier::external_body]
fn uuid_from_bytes(b: [u8; 16]) -> (r: u128)
    ensures
        r == spec_be_value(b@),
{
    uuid::Uuid::from_bytes(b).as_u128()
}

/// Reads the UUID stored in the 16 bytes at `pos`.
pub fn read_uuid(data: &[u8], pos: usize, e: Endian) -> (r: u128)
    requires
        pos + 16 <= data@.len(),
    ensures
        r == spec_uuid_at(data@, pos as int, e),
{
    let b: [u8; 16] = [
        data[pos],
        data[pos + 1],
        data[pos + 2],
        data[pos + 3],
        data[pos + 4],
        data[pos + 5],
        data[pos + 6],
        data[pos + 7],
        data[pos + 8],
        data[pos + 9],
        data[pos + 10],
        data[pos + 11],
        data[pos + 12],
        data[pos + 13],
        data[pos + 14],
        data[pos + 15],
    ];
    assert(b@ =~= data@.subrange(pos as int, pos + 16));
    match e {
        Endian::Little => uuid_from_bytes_le(b),
        Endian::Big => uuid_from_bytes(b),
    }
}

/// One entry of the asset directory: the asset's type, ID and versions, and where
/// its (possibly compressed) data lies in the package.
#[derive(Copy, Clone, Debug)]
pub struct AssetDirectoryEntry {
    pub asset_type: FourCC,
    pub asset_id: u128,
    pub version: u32,
    pub other_version: u32,
    pub offset: u64,
    pub decompressed_size: u64,
    pub size: u64,
}

impl FixedRecord for AssetDirectoryEntry {
    open spec fn spec_size() -> int {
        52
    }

    open spec fn spec_parse(s: Seq<u8>, pos: int, e: Endian) -> Option<AssetDirectoryEntry> {
        Some(
            AssetDirectoryEntry {
                asset_type: spec_four_cc_at(s, pos),
                asset_id: spec_uuid_at(s, pos + 4, e),
                version: spec_u32(s, pos + 20, e) as u32,
                other_version: spec_u32(s, pos + 24, e) as u32,
                offset: spec_u64(s, pos + 28, e) as u64,
                decompressed_size: spec_u64(s, pos + 36, e) as u64,
                size: spec_u64(s, pos + 44, e) as u64,
            },
        )
    }

    fn size() -> (r: usize) {
        52
    }

    fn parse(data: &[u8], pos: usize, e: Endian) -> (r: Option<AssetDirectoryEntry>) {
        let _len = data.len();
        Some(
            AssetDirectoryEntry {
                asset_type: four_cc_at(data, pos),
                asset_id: read_uuid(data, pos + 4, e),
                version: read_u32(data, pos + 20, e).unwrap(),
                other_version: read_u32(data, pos + 24, e).unwrap(),
                offset: read_u64(data, pos + 28, e).unwrap(),
                decompressed_size: read_u64(data, pos + 36, e).unwrap(),
                size: read_u64(data, pos + 44, e).unwrap(),
            },
        )
    }
}

/// One entry of the metadata table: an asset and where its metadata lies in the
/// table's chunk.
#[derive(Copy, Clone, Debug)]
pub struct MetadataTableEntry {
    pub asset_id: u128,
    pub offset: u32,
}

impl FixedRecord for MetadataTableEntry {
    open spec fn spec_size() -> int {
        20
    }

    open spec fn spec_parse(s: Seq<u8>, pos: int, e: Endian) -> Option<MetadataTableEntry> {
        Some(
            MetadataTableEntry {
                asset_id: spec_uuid_at(s, pos, Endian::Little),
                offset: spec_u32(s, pos + 16, e) as u32,
            },
        )
    }

    fn size() -> (r: usize) {
        20
    }

    fn parse(data: &[u8], pos: usize, e: Endian) -> (r: Option<MetadataTableEntry>) {
        let _len = data.len();
        Some(
            MetadataTableEntry {
                asset_id: read_uuid(data, pos, Endian::Little),
                offset: read_u32(data, pos + 16, e).unwrap(),
            },
        )
    }
}

/// Information that an extracted asset carries in its footer: its ID, the
/// compression mode it was stored with and its offset in the package.
#[derive(Copy, Clone, Debug, PartialEq, Eq, Structural)]
pub struct AssetInfo {
    pub id: u128,
    pub compression_mode: u32,
    pub orig_offset: u64,
}

impl FixedRecord for AssetInfo {
    open spec fn spec_size() -> int {
        28
    }

    open spec fn spec_parse(s: Seq<u8>, pos: int, e: Endian) -> Option<AssetInfo> {
        Some(
            AssetInfo {
                id: spec_uuid_at(s, pos, Endian::Little),
                compression_mode: spec_u32(s, pos + 16, e) as u32,
                orig_offset: spec_u64(s, pos + 20, e) as u64,
            },
        )
    }

    fn size() -> (r: usize) {
        28
    }

    fn parse(data: &[u8], pos: usize, e: Endian) -> (r: Option<AssetInfo>) {
        let _len = data.len();
        Some(
            AssetInfo {
                id: read_uuid(data, pos, Endian::Little),
                compression_mode: read_u32(data, pos + 16, e).unwrap(),
                orig_offset: read_u64(data, pos + 20, e).unwrap(),
            },
        )
    }
}

/// One entry of the string table: a name of an asset.
#[derive(Clone, Debug)]
pub struct StringTableEntry {
    pub kind: FourCC,
    pub asset_id: u128,
    pub name: Vec<u8>,
}

/// A string table: names of assets.
#[derive(Clone, Debug)]
pub struct StringTable {
    pub entries: Vec<StringTableEntry>,
}

/// The position of the first entry from `i` on in `t` that names the asset `id`.
pub open spec fn first_entry_for(t: Seq<StringTableEntry>, id: u128, i: int) -> Option<int>
    decreases t.len() - i,
{
    if i < 0 || i >= t.len() {
        None
    } else if t[i].asset_id == id {
        Some(i)
    } else {
        first_entry_for(t, id, i + 1)
    }
}

impl StringTable {
    /// The name in the first entry for the asset `id`, if there is one.
    pub fn name_for_uuid(&self, id: u128) -> (r: Option<String>)
        requires
            first_entry_for(self.entries@, id, 0) matches Some(i) ==> spec_utf8(self.entries@[i].name@) is Some,
        ensures
            match first_entry_for(self.entries@, id, 0) {
                None => r is None,
                Some(i) => text_view(r) == spec_utf8(self.entries@[i].name@),
            },
    {
        let mut i: usize = 0;
        while i < self.entries.len()
            invariant
                i <= self.entries@.len(),
                first_entry_for(self.entries@, id, 0) == first_entry_for(self.entries@, id, i as int),
            decreases self.entries.len() - i,
        {
            if self.entries[i].asset_id == id {
                return string_from_utf8(vstd::slice::slice_to_vec(self.entries[i].name.as_slice()));
            }
            i = i + 1;
        }
        None
    }
}

/// The string table entry stored at `pos`: its kind as a `u32`, the asset's ID, the
/// name's length and the name's bytes; with the position after it.
pub open spec fn spec_string_entry(s: Seq<u8>, pos: int, e: Endian) -> Option<
    ((FourCC, u128, Seq<u8>), int),
> {
    if pos < 0 || pos + 24 > s.len() {
        None
    } else {
        let n = spec_u32(s, pos + 20, e);
        if pos + 24 + n > s.len() {
            None
        } else {
            Some(
                (
                    (
                        spec_four_cc_from_u32(spec_u32(s, pos, e) as u32),
                        spec_uuid_at(s, pos + 4, Endian::Little),
                        s.subrange(pos + 24, pos + 24 + n),
                    ),
                    pos + 24 + n,
                ),
            )
        }
    }
}

/// The `n` string table entries stored one after the other from `pos`.
pub open spec fn spec_string_entries(s: Seq<u8>, pos: int, n: int, e: Endian) -> Option<
    Seq<(FourCC, u128, Seq<u8>)>,
>
    decreases n,
{
    if n <= 0 {
        Some(Seq::empty())
    } else {
        match spec_string_entry(s, pos, e) {
            None => None,
            Some((entry, next)) => match spec_string_entries(s, next, n - 1, e) {
                None => None,
                Some(rest) => Some(seq![entry] + rest),
            },
        }
    }
}

/// The string table stored at the start of `s`: a count, then the entries.
pub open spec fn spec_string_table(s: Seq<u8>, e: Endian) -> Option<Seq<(FourCC, u128, Seq<u8>)>> {
    if s.len() < 4 {
        None
    } else {
        spec_string_entries(s, 4, spec_u32(s, 0, e), e)
    }
}

pub open spec fn string_entry_view(x: StringTableEntry) -> (FourCC, u128, Seq<u8>) {
    (x.kind, x.asset_id, x.name@)
}

/// Reads the string table stored at the start of `data`.
#[verifier::rlimit(40)]
pub fn read_string_table(data: &[u8], e: Endian) -> (r: Option<Vec<StringTableEntry>>)
    ensures
        match (r, spec_string_table(data@, e)) {
            (Some(v), Some(t)) => v@.map_values(|x: StringTableEntry| string_entry_view(x)) == t,
            (None, None) => true,
            _ => false,
        },
{
    let len = data.len();
    if len < 4 {
        return None;
    }
    let count = read_u32(data, 0, e).unwrap();
    let mut out: Vec<StringTableEntry> = Vec::new();
    let mut pos: usize = 4;
    let mut k: u32 = 0;
    while k < count
        invariant
            len == data@.len(),
            4 <= pos <= len,
            k <= count,
            count == spec_u32(data@, 0, e),
            spec_string_entries(data@, 4, count as int, e) == match spec_string_entries(
                data@,
                pos as int,
                count - k,
                e,
            ) {
                Some(rest) => Some(out@.map_values(|x: StringTableEntry| string_entry_view(x)) + rest),
                None => None::<Seq<(FourCC, u128, Seq<u8>)>>,
            },
        decreases count - k,
    {
        if len - pos < 24 {
            return None;
        }
        let n = read_u32(data, pos + 20, e).unwrap();
        if len - pos - 24 < n as usize {
            return None;
        }
        let kind = FourCC::from_u32(read_u32(data, pos, e).unwrap());
        let asset_id = read_uuid(data, pos + 4, Endian::Little);
        let name = vstd::slice::slice_to_vec(&data[pos + 24..pos + 24 + n as usize]);
        let ghost before = out@.map_values(|x: StringTableEntry| string_entry_view(x));
        out.push(StringTableEntry { kind, asset_id, name });
        proof {
            assert(out@.map_values(|x: StringTableEntry| string_entry_view(x)) =~= before + seq![
                (kind, asset_id, data@.subrange(pos + 24, pos + 24 + n)),
            ]);
        }
        pos = pos + 24 + n as usize;
        k = k + 1;
    }
    proof {
        assert(out@.map_values(|x: StringTableEntry| string_entry_view(x)) + Seq::<
            (FourCC, u128, Seq<u8>),
        >::empty() =~= out@.map_values(|x: StringTableEntry| string_entry_view(x)));
    }
    Some(out)
}

/// The PACK form at the start of `data` (reader version 1) and the TOCC form that
/// begins its data (reader version 3), with the TOCC form's data.
#[verifier::opaque]
pub open spec fn spec_pack_tocc(data: Seq<u8>, order: Endian) -> Result<
    (FormDescriptor, FormDescriptor, Seq<u8>),
    FormatError,
> {
    match spec_form_slice(data, order) {
        Err(x) => Err(x),
        Ok((pack, pack_body, _)) => if four_cc_value(pack.id.0) != K_FORM_PACK || pack.reader_version
            != 1 {
            Err(FormatError::UnexpectedForm)
        } else {
            match spec_form_slice(pack_body, order) {
                Err(x) => Err(x),
                Ok((tocc, body, _)) => if four_cc_value(tocc.id.0) != K_FORM_TOCC
                    || tocc.reader_version != 3 {
                    Err(FormatError::UnexpectedForm)
                } else {
                    Ok((pack, tocc, body))
                },
            }
        },
    }
}

/// Both forms lie inside their bytes.
pub open spec fn pack_fits(data: Seq<u8>, order: Endian) -> bool {
    &&& form_fits(data, order)
    &&& (spec_form_slice(data, order) matches Ok((_, pack_body, _)) ==> form_fits(pack_body, order))
}

fn pack_tocc(data: &[u8], order: Endian) -> (r: Result<(FormDescriptor, FormDescriptor, &[u8]), FormatError>)
    requires
        pack_fits(data@, order),
    ensures
        match (r, spec_pack_tocc(data@, order)) {
            (Ok((p, t, b)), Ok((sp, st, sb))) => p == sp && t == st && b@ == sb,
            (Err(x), Err(y)) => x == y,
            _ => false,
        },
{
    reveal(spec_pack_tocc);
    let (pack, pack_data, _) = FormDescriptor::slice(data, order)?;
    if pack.id.as_u32() != K_FORM_PACK || pack.reader_version != 1 {
        return Err(FormatError::UnexpectedForm);
    }
    let (tocc, tocc_data, _) = FormDescriptor::slice(pack_data, order)?;
    if tocc.id.as_u32() != K_FORM_TOCC || tocc.reader_version != 3 {
        return Err(FormatError::UnexpectedForm);
    }
    Ok((pack, tocc, tocc_data))
}

/// The bytes of a package that keeps only the table of contents: the PACK form
/// holding the TOCC form with its data.
pub open spec fn spec_header_only(pack: FormDescriptor, tocc: FormDescriptor, body: Seq<u8>, order: Endian) -> Seq<u8> {
    let inner = spec_form_header_bytes(with_size(tocc, body.len() as int), order) + body;
    spec_form_header_bytes(with_size(pack, inner.len() as int), order) + inner
}

pub open spec fn spec_read_header(data: Seq<u8>, order: Endian) -> Result<Seq<u8>, FormatError> {
    match spec_pack_tocc(data, order) {
        Err(x) => Err(x),
        Ok((pack, tocc, body)) => Ok(spec_header_only(pack, tocc, body, order)),
    }
}

pub open spec fn bytes_view(r: Result<Vec<u8>, FormatError>) -> Result<Seq<u8>, FormatError> {
    match r {
        Ok(v) => Ok(v@),
        Err(e) => Err(e),
    }
}

/// The package read as a chunk sequence from the start of the TOCC form's data: the
/// chunks' codes and data, and whether the sequence ends exactly at the end.
#[verifier::opaque]
pub open spec fn tocc_walk(s: Seq<u8>, e: Endian) -> (Seq<(u32, Seq<u8>)>, bool)
    decreases s.len(),
{
    if s.len() == 0 {
        (Seq::empty(), true)
    } else if s.len() < CHUNK_HEADER_SIZE || !chunk_fits(s, e) {
        (Seq::empty(), false)
    } else {
        let h = spec_chunk_header(s, e);
        let body = s.subrange(CHUNK_HEADER_SIZE + h.skip, spec_chunk_end(h));
        let (rest, clean) = tocc_walk(s.subrange(spec_chunk_end(h), s.len() as int), e);
        (seq![(four_cc_value(h.id.0) as u32, body)] + rest, clean)
    }
}

/// Every chunk of the sequence lies inside its bytes.
#[verifier::opaque]
pub open spec fn tocc_fits(s: Seq<u8>, e: Endian) -> bool
    decreases s.len(),
{
    if s.len() < CHUNK_HEADER_SIZE {
        true
    } else {
        chunk_fits(s, e) && tocc_fits(s.subrange(spec_chunk_end(spec_chunk_header(s, e)), s.len() as int), e)
    }
}

/// Keeps only the table of contents of the package `data`: a PACK form holding its
/// TOCC form.
pub fn read_header(data: &[u8], order: Endian) -> (r: Result<Vec<u8>, FormatError>)
    requires
        pack_fits(data@, order),
    ensures
        bytes_view(r) == spec_read_header(data@, order),
{
    let (pack, tocc, tocc_data) = pack_tocc(data, order)?;
    let mut inner: Vec<u8> = Vec::new();
    tocc.write(&mut inner, tocc_data, order);
    let mut out: Vec<u8> = Vec::new();
    pack.write(&mut out, inner.as_slice(), order);
    assert(inner@ =~= spec_form_header_bytes(with_size(tocc, tocc_data@.len() as int), order) + tocc_data@);
    assert(out@ =~= spec_header_only(pack, tocc, tocc_data@, order));
    Ok(out)
}

/// The asset directory stored in a chunk's data: a count, then the entries.
pub open spec fn spec_adir(body: Seq<u8>, order: Endian) -> Option<Seq<AssetDirectoryEntry>> {
    if body.len() < 4 {
        None
    } else {
        spec_parse_records::<AssetDirectoryEntry>(body, 4, spec_u32(body, 0, order), order)
    }
}

fn read_adir(body: &[u8], order: Endian) -> (r: Option<Vec<AssetDirectoryEntry>>)
    ensures
        match (r, spec_adir(body@, order)) {
            (Some(v), Some(t)) => v@ == t,
            (None, None) => true,
            _ => false,
        },
{
    if body.len() < 4 {
        return None;
    }
    let count = read_u32(body, 0, order).unwrap();
    read_records::<AssetDirectoryEntry>(body, 4, count as usize, order)
}

/// The names that string table entries give, with their assets' IDs, in order;
/// `None` when a name is not valid UTF-8.
pub open spec fn strg_names(t: Seq<(FourCC, u128, Seq<u8>)>) -> Option<Seq<(u128, Seq<char>)>>
    decreases t.len(),
{
    if t.len() == 0 {
        Some(Seq::empty())
    } else {
        match strg_names(t.drop_last()) {
            None => None,
            Some(p) => if valid_utf8(t.last().2) {
                Some(p.push((t.last().1, decode_utf8(t.last().2))))
            } else {
                None
            },
        }
    }
}

/// The names given to asset `id`, in order.
pub open spec fn names_for(l: Seq<(u128, Seq<char>)>, id: u128) -> Seq<Seq<char>>
    decreases l.len(),
{
    if l.len() == 0 {
        Seq::empty()
    } else {
        let p = names_for(l.drop_last(), id);
        if l.last().0 == id {
            p.push(l.last().1)
        } else {
            p
        }
    }
}

/// What the listing of a package has read from the chunks so far: the asset
/// directory and the names.
pub type SparseState = (Option<Seq<AssetDirectoryEntry>>, Seq<(u128, Seq<char>)>);

/// One chunk of the table of contents read for the listing: the asset directory, the
/// metadata table (skipped) or the string table (read little-endian).
#[verifier::opaque]
pub open spec fn sparse_step(st: SparseState, c: (u32, Seq<u8>), order: Endian) -> Result<SparseState, FormatError> {
    let (id, body) = c;
    if id == K_CHUNK_ADIR {
        match spec_adir(body, order) {
            None => Err(FormatError::InvalidData),
            Some(a) => Ok((Some(a), st.1)),
        }
    } else if id == K_CHUNK_META {
        Ok(st)
    } else if id == K_CHUNK_STRG {
        match spec_string_table(body, Endian::Little) {
            None => Err(FormatError::InvalidData),
            Some(t) => match strg_names(t) {
                None => Err(FormatError::InvalidData),
                Some(ns) => Ok((st.0, st.1 + ns)),
            },
        }
    } else {
        Err(FormatError::UnexpectedChunk(id))
    }
}

/// The chunks read one after the other with `step` from the state `init`; the first
/// error stops the reading.
pub open spec fn fold_chunks<S>(
    chunks: Seq<(u32, Seq<u8>)>,
    init: S,
    step: spec_fn(S, (u32, Seq<u8>)) -> Result<S, FormatError>,
) -> Result<S, FormatError>
    decreases chunks.len(),
{
    if chunks.len() == 0 {
        Ok(init)
    } else {
        match fold_chunks(chunks.drop_last(), init, step) {
            Err(x) => Err(x),
            Ok(st) => step(st, chunks.last()),
        }
    }
}

proof fn lemma_fold_push<S>(
    chunks: Seq<(u32, Seq<u8>)>,
    c: (u32, Seq<u8>),
    init: S,
    step: spec_fn(S, (u32, Seq<u8>)) -> Result<S, FormatError>,
)
    ensures
        fold_chunks(chunks.push(c), init, step) == match fold_chunks(chunks, init, step) {
            Err(x) => Err(x),
            Ok(st) => step(st, c),
        },
{
    assert(chunks.push(c).drop_last() =~= chunks);
}

proof fn lemma_fold_err<S>(
    prefix: Seq<(u32, Seq<u8>)>,
    suffix: Seq<(u32, Seq<u8>)>,
    init: S,
    step: spec_fn(S, (u32, Seq<u8>)) -> Result<S, FormatError>,
)
    requires
        fold_chunks(prefix, init, step) is Err,
    ensures
        fold_chunks(prefix + suffix, init, step) == fold_chunks(prefix, init, step),
    decreases suffix.len(),
{
    if suffix.len() == 0 {
        assert(prefix + suffix =~= prefix);
    } else {
        lemma_fold_err(prefix, suffix.drop_last(), init, step);
        assert((prefix + suffix).drop_last() =~= prefix + suffix.drop_last());
    }
}

/// `sparse_step` for the given byte order.
pub open spec fn sparse_stepper(order: Endian) -> spec_fn(SparseState, (u32, Seq<u8>)) -> Result<
    SparseState,
    FormatError,
> {
    |st: SparseState, c: (u32, Seq<u8>)| sparse_step(st, c, order)
}

pub open spec fn sparse_fold(chunks: Seq<(u32, Seq<u8>)>, order: Endian) -> Result<SparseState, FormatError> {
    fold_chunks(chunks, (None, Seq::empty()), sparse_stepper(order))
}

/// One asset of the listing: its ID, type, names and versions.
#[derive(Clone, Debug)]
pub struct SparsePackageEntry {
    pub id: u128,
    pub kind: FourCC,
    pub names: Vec<String>,
    pub reader_version: u32,
    pub writer_version: u32,
}

pub open spec fn strings_view(v: Seq<String>) -> Seq<Seq<char>> {
    v.map_values(|s: String| s@)
}

pub open spec fn sparse_view(x: SparsePackageEntry) -> (u128, FourCC, Seq<Seq<char>>, u32, u32) {
    (x.id, x.kind, strings_view(x.names@), x.reader_version, x.writer_version)
}

/// The listing of the first `n` directory entries: an entry whose ID repeats the one
/// before it is left out.
pub open spec fn sparse_list(a: Seq<AssetDirectoryEntry>, names: Seq<(u128, Seq<char>)>, n: int) -> Seq<
    (u128, FourCC, Seq<Seq<char>>, u32, u32),
>
    decreases n,
{
    if n <= 0 {
        Seq::empty()
    } else {
        let p = sparse_list(a, names, n - 1);
        let x = a[n - 1];
        if n - 1 > 0 && a[n - 2].asset_id == x.asset_id {
            p
        } else {
            p.push((x.asset_id, x.asset_type, names_for(names, x.asset_id), x.version, x.other_version))
        }
    }
}

/// The listing of the package `data`: its assets, each once, with their names.
pub open spec fn spec_read_sparse(data: Seq<u8>, order: Endian) -> Result<
    Seq<(u128, FourCC, Seq<Seq<char>>, u32, u32)>,
    FormatError,
> {
    match spec_pack_tocc(data, order) {
        Err(x) => Err(x),
        Ok((_, _, body)) => {
            let (chunks, clean) = tocc_walk(body, order);
            match sparse_fold(chunks, order) {
                Err(x) => Err(x),
                Ok((adir, names)) => if !clean {
                    Err(FormatError::InvalidChunkHeader)
                } else {
                    match adir {
                        None => Err(FormatError::MissingChunk(K_CHUNK_ADIR)),
                        Some(a) => Ok(sparse_list(a, names, a.len() as int)),
                    }
                },
            }
        },
    }
}

/// The package's forms and the chunks of its table of contents lie inside their
/// bytes.
pub open spec fn package_fits(data: Seq<u8>, order: Endian) -> bool {
    &&& pack_fits(data, order)
    &&& (spec_pack_tocc(data, order) matches Ok((_, _, body)) ==> tocc_fits(body, order))
}

/// Decodes the names of string table entries (see `strg_names`).
fn decode_names(t: Vec<StringTableEntry>) -> (r: Option<Vec<(u128, String)>>)
    ensures
        match (r, strg_names(t@.map_values(|x: StringTableEntry| string_entry_view(x)))) {
            (Some(v), Some(ns)) => v@.map_values(|p: (u128, String)| (p.0, p.1@)) == ns,
            (None, None) => true,
            _ => false,
        },
{
    let ghost tv = t@.map_values(|x: StringTableEntry| string_entry_view(x));
    let mut out: Vec<(u128, String)> = Vec::new();
    let mut k: usize = 0;
    let n = t.len();
    while k < n
        invariant
            n == t@.len(),
            tv == t@.map_values(|x: StringTableEntry| string_entry_view(x)),
            k <= n,
            strg_names(tv.subrange(0, k as int)) == Some(out@.map_values(|p: (u128, String)| (p.0, p.1@))),
        decreases n - k,
    {
        let entry = &t[k];
        let name = match string_from_utf8(entry.name.clone()) {
            Some(s) => s,
            None => {
                proof {
                    assert(tv.subrange(0, k + 1).drop_last() =~= tv.subrange(0, k as int));
                }
                proof {
                    lemma_strg_names_prefix_none(tv, k as int + 1, n as int);
                }
                return None;
            },
        };
        let ghost before = out@.map_values(|p: (u128, String)| (p.0, p.1@));
        out.push((entry.asset_id, name));
        proof {
            assert(tv.subrange(0, k + 1).drop_last() =~= tv.subrange(0, k as int));
            assert(out@.map_values(|p: (u128, String)| (p.0, p.1@)) =~= before.push(
                (tv[k as int].1, decode_utf8(tv[k as int].2)),
            ));
        }
        k = k + 1;
    }
    assert(tv.subrange(0, n as int) =~= tv);
    Some(out)
}

proof fn lemma_strg_names_prefix_none(t: Seq<(FourCC, u128, Seq<u8>)>, k: int, n: int)
    requires
        0 < k <= n,
        n == t.len(),
        strg_names(t.subrange(0, k)) is None,
    ensures
        strg_names(t) is None,
    decreases n - k,
{
    if k < n {
        assert(t.subrange(0, k + 1).drop_last() =~= t.subrange(0, k));
        lemma_strg_names_prefix_none(t, k + 1, n);
    } else {
        assert(t.subrange(0, k) =~= t);
    }
}

/// Adds to `out` the names of asset `id` from the list `names` (see `names_for`).
fn collect_names(names: &Vec<(u128, String)>, id: u128) -> (r: Vec<String>)
    ensures
        strings_view(r@) == names_for(names@.map_values(|p: (u128, String)| (p.0, p.1@)), id),
{
    let ghost nv = names@.map_values(|p: (u128, String)| (p.0, p.1@));
    let mut out: Vec<String> = Vec::new();
    let mut k: usize = 0;
    while k < names.len()
        invariant
            k <= names@.len(),
            nv == names@.map_values(|p: (u128, String)| (p.0, p.1@)),
            strings_view(out@) == names_for(nv.subrange(0, k as int), id),
        decreases names@.len() - k,
    {
        let ghost before = strings_view(out@);
        if names[k].0 == id {
            out.push(names[k].1.clone());
            proof {
                assert(strings_view(out@) =~= before.push(nv[k as int].1));
            }
        }
        proof {
            assert(nv.subrange(0, k + 1).drop_last() =~= nv.subrange(0, k as int));
        }
        k = k + 1;
    }
    assert(nv.subrange(0, names@.len() as int) =~= nv);
    out
}

pub open spec fn adir_view(a: Option<Vec<AssetDirectoryEntry>>) -> Option<Seq<AssetDirectoryEntry>> {
    match a {
        Some(v) => Some(v@),
        None => None,
    }
}

pub open spec fn names_view(n: Seq<(u128, String)>) -> Seq<(u128, Seq<char>)> {
    n.map_values(|p: (u128, String)| (p.0, p.1@))
}

pub open spec fn sparse_result_view(r: Result<Vec<SparsePackageEntry>, FormatError>) -> Result<
    Seq<(u128, FourCC, Seq<Seq<char>>, u32, u32)>,
    FormatError,
> {
    match r {
        Ok(v) => Ok(v@.map_values(|x: SparsePackageEntry| sparse_view(x))),
        Err(e) => Err(e),
    }
}

/// A chunk walk over bytes that hold less than a chunk header ends there.
proof fn lemma_walk_short(s: Seq<u8>, e: Endian)
    requires
        0 < s.len() < CHUNK_HEADER_SIZE,
    ensures
        tocc_walk(s, e) == (Seq::<(u32, Seq<u8>)>::empty(), false),
{
    reveal(tocc_walk);
}

/// A chunk walk over no bytes ends cleanly.
proof fn lemma_walk_empty(s: Seq<u8>, e: Endian)
    requires
        s.len() == 0,
    ensures
        tocc_walk(s, e) == (Seq::<(u32, Seq<u8>)>::empty(), true),
{
    reveal(tocc_walk);
}

/// One step of a chunk walk: the first chunk, then the walk over what follows it.
proof fn lemma_walk_step(s: Seq<u8>, e: Endian)
    requires
        s.len() >= CHUNK_HEADER_SIZE,
        tocc_fits(s, e),
    ensures
        chunk_fits(s, e),
        spec_chunk_slice(s, e) matches Ok((h, body, rest)) && tocc_fits(rest, e) && tocc_walk(s, e) == (
        seq![(four_cc_value(h.id.0) as u32, body)] + tocc_walk(rest, e).0, tocc_walk(rest, e).1),
{
    reveal(tocc_walk);
    reveal(tocc_fits);
}

/// Appends the decoded names `more` to `names`.
fn append_names(names: &mut Vec<(u128, String)>, more: &Vec<(u128, String)>)
    ensures
        names_view(final(names)@) == names_view(old(names)@) + names_view(more@),
{
    let ghost start = names_view(names@);
    let mut k: usize = 0;
    while k < more.len()
        invariant
            k <= more@.len(),
            names_view(names@) == start + names_view(more@).subrange(0, k as int),
        decreases more@.len() - k,
    {
        let ghost prev = names@;
        let item = (more[k].0, more[k].1.clone());
        names.push(item);
        proof {
            assert(names@ == prev.push(item));
            assert(names_view(names@) =~= names_view(prev).push((item.0, item.1@)));
            assert(names_view(more@).subrange(0, k + 1) =~= names_view(more@).subrange(0, k as int).push(
                names_view(more@)[k as int],
            ));
        }
        k = k + 1;
    }
    assert(names_view(more@).subrange(0, more@.len() as int) =~= names_view(more@));
}

/// Reads one chunk of the table of contents for the listing (see `sparse_step`).
fn sparse_chunk(
    id: u32,
    chunk_data: &[u8],
    order: Endian,
    adir: &mut Option<Vec<AssetDirectoryEntry>>,
    names: &mut Vec<(u128, String)>,
) -> (r: Result<(), FormatError>)
    ensures
        match sparse_step((adir_view(*old(adir)), names_view(old(names)@)), (id, chunk_data@), order) {
            Ok(st) => r is Ok && st == (adir_view(*final(adir)), names_view(final(names)@)),
            Err(x) => r == Err::<(), FormatError>(x),
        },
{
    reveal(sparse_step);
    if id == K_CHUNK_ADIR {
        match read_adir(chunk_data, order) {
            Some(v) => {
                *adir = Some(v);
                Ok(())
            },
            None => Err(FormatError::InvalidData),
        }
    } else if id == K_CHUNK_META {
        Ok(())
    } else if id == K_CHUNK_STRG {
        let table = match read_string_table(chunk_data, Endian::Little) {
            Some(t) => t,
            None => {
                return Err(FormatError::InvalidData);
            },
        };
        let decoded = match decode_names(table) {
            Some(d) => d,
            None => {
                return Err(FormatError::InvalidData);
            },
        };
        append_names(names, &decoded);
        Ok(())
    } else {
        Err(FormatError::UnexpectedChunk(id))
    }
}

/// Builds the listing from the directory `a` and the names (see `sparse_list`).
fn sparse_entries(a: &Vec<AssetDirectoryEntry>, names: &Vec<(u128, String)>) -> (r: Vec<SparsePackageEntry>)
    ensures
        r@.map_values(|x: SparsePackageEntry| sparse_view(x)) == sparse_list(
            a@,
            names_view(names@),
            a@.len() as int,
        ),
{
    let ghost nv = names_view(names@);
    let mut out: Vec<SparsePackageEntry> = Vec::new();
    let mut last_id: Option<u128> = None;
    let mut i: usize = 0;
    while i < a.len()
        invariant
            i <= a@.len(),
            nv == names_view(names@),
            last_id == if i == 0 {
                None::<u128>
            } else {
                Some(a@[i - 1].asset_id)
            },
            out@.map_values(|x: SparsePackageEntry| sparse_view(x)) == sparse_list(a@, nv, i as int),
        decreases a@.len() - i,
    {
        let x = a[i];
        let ghost before = out@;
        let repeat = match last_id {
            Some(id) => id == x.asset_id,
            None => false,
        };
        if !repeat {
            let entry_names = collect_names(names, x.asset_id);
            let entry = SparsePackageEntry {
                id: x.asset_id,
                kind: x.asset_type,
                names: entry_names,
                reader_version: x.version,
                writer_version: x.other_version,
            };
            out.push(entry);
            proof {
                assert(out@ == before.push(entry));
                assert(out@.map_values(|x: SparsePackageEntry| sparse_view(x)) =~= before.map_values(
                    |x: SparsePackageEntry| sparse_view(x),
                ).push(sparse_view(entry)));
            }
        }
        last_id = Some(x.asset_id);
        i = i + 1;
    }
    out
}

/// Lists the assets of the package `data`, each once, with their types, names and
/// versions.
pub fn read_sparse(data: &[u8], order: Endian) -> (r: Result<Vec<SparsePackageEntry>, FormatError>)
    requires
        package_fits(data@, order),
    ensures
        sparse_result_view(r) == spec_read_sparse(data@, order),
{
    let (_, _, tocc_body) = pack_tocc(data, order)?;
    let mut tocc_data = tocc_body;
    let ghost all = tocc_walk(tocc_body@, order);
    let ghost step = sparse_stepper(order);
    let ghost init: SparseState = (None, Seq::empty());
    let ghost mut done: Seq<(u32, Seq<u8>)> = Seq::empty();
    let mut adir: Option<Vec<AssetDirectoryEntry>> = None;
    let mut names: Vec<(u128, String)> = Vec::new();
    proof {
        assert(done + all.0 =~= all.0);
        assert(names_view(names@) =~= Seq::<(u128, Seq<char>)>::empty());
    }
    while tocc_data.len() > 0
        invariant
            spec_pack_tocc(data@, order) matches Ok((_, _, b)) && b == tocc_body@,
            all == tocc_walk(tocc_body@, order),
            tocc_fits(tocc_data@, order),
            all.0 == done + tocc_walk(tocc_data@, order).0,
            all.1 == tocc_walk(tocc_data@, order).1,
            fold_chunks(done, init, step) == Ok::<SparseState, FormatError>(
                (adir_view(adir), names_view(names@)),
            ),
            step == sparse_stepper(order),
            init == (None::<Seq<AssetDirectoryEntry>>, Seq::<(u128, Seq<char>)>::empty()),
        decreases tocc_data@.len(),
    {
        if tocc_data.len() < CHUNK_HEADER_SIZE {
            proof {
                lemma_walk_short(tocc_data@, order);
                assert(done + Seq::<(u32, Seq<u8>)>::empty() =~= done);
            }
            return Err(FormatError::InvalidChunkHeader);
        }
        proof {
            lemma_walk_step(tocc_data@, order);
        }
        let (desc, chunk_data, remain) = ChunkDescriptor::slice(tocc_data, order)?;
        let id = desc.id.as_u32();
        let ghost c = (id, chunk_data@);
        let ghost rest_walk = tocc_walk(remain@, order);
        proof {
            assert(tocc_walk(tocc_data@, order).0 == seq![c] + rest_walk.0);
            assert(all.0 =~= done.push(c) + rest_walk.0);
            lemma_fold_push(done, c, init, step);
        }
        match sparse_chunk(id, chunk_data, order, &mut adir, &mut names) {
            Ok(()) => {},
            Err(x) => {
                proof {
                    lemma_fold_err(done.push(c), rest_walk.0, init, step);
                }
                return Err(x);
            },
        }
        proof {
            done = done.push(c);
        }
        tocc_data = remain;
    }
    proof {
        lemma_walk_empty(tocc_data@, order);
        assert(done + Seq::<(u32, Seq<u8>)>::empty() =~= done);
    }
    match adir {
        Some(a) => Ok(sparse_entries(&a, &names)),
        None => Err(FormatError::MissingChunk(K_CHUNK_ADIR)),
    }
}

/// The stored bytes of the asset of directory entry `x`.
pub open spec fn stored_data(data: Seq<u8>, x: AssetDirectoryEntry) -> Seq<u8> {
    data.subrange(x.offset as int, x.offset + x.size)
}

/// The asset's bytes with the mode they were stored with: expanded when the stored
/// and expanded sizes differ, as stored otherwise.
pub open spec fn spec_expanded(data: Seq<u8>, x: AssetDirectoryEntry) -> Result<(u32, Seq<u8>), FormatError> {
    if x.size != x.decompressed_size {
        match spec_decompress_buffer(stored_data(data, x), x.decompressed_size as int) {
            Err(e) => Err(FormatError::Compression(e)),
            Ok(r) => Ok(r),
        }
    } else {
        Ok((0u32, stored_data(data, x)))
    }
}

/// The asset of directory entry `x`, checked against the form that it holds: the
/// form's code and versions must be the entry's, and the entry's expanded size the
/// form's size with its header.
pub open spec fn spec_asset_data(data: Seq<u8>, x: AssetDirectoryEntry, order: Endian) -> Result<
    (u32, Seq<u8>),
    FormatError,
> {
    match spec_expanded(data, x) {
        Err(e) => Err(e),
        Ok((mode, bytes)) => match spec_form_slice(bytes, order) {
            Err(e) => Err(e),
            Ok((form, _, _)) => if form.id.0@ != x.asset_type.0@ || form.reader_version != x.version
                || form.writer_version != x.other_version || x.decompressed_size != form.size + 32 {
                Err(FormatError::InvalidData)
            } else {
                Ok((mode, bytes))
            },
        },
    }
}

/// Reading the asset of `x` runs off no slice and no 64-bit sum.
pub open spec fn asset_data_fits(data: Seq<u8>, x: AssetDirectoryEntry, order: Endian) -> bool {
    &&& x.offset + x.size <= u64::MAX
    &&& x.offset + x.size <= data.len()
    &&& (x.size != x.decompressed_size ==> x.decompressed_size <= usize::MAX && fits(
        stored_data(data, x),
        zeros(x.decompressed_size as int),
    ))
    &&& (spec_expanded(data, x) matches Ok((_, bytes)) ==> form_fits(bytes, order) && (spec_form_slice(
        bytes,
        order,
    ) matches Ok((form, _, _)) ==> form.size + 32 <= u64::MAX))
}

pub open spec fn mode_bytes_view(r: Result<(u32, Vec<u8>), FormatError>) -> Result<(u32, Seq<u8>), FormatError> {
    match r {
        Ok((m, b)) => Ok((m, b@)),
        Err(e) => Err(e),
    }
}

/// Reads and checks the asset of directory entry `x` (see `spec_asset_data`).
fn asset_data(data: &[u8], x: &AssetDirectoryEntry, order: Endian) -> (r: Result<(u32, Vec<u8>), FormatError>)
    requires
        asset_data_fits(data@, *x, order),
    ensures
        mode_bytes_view(r) == spec_asset_data(data@, *x, order),
{
    let _len = data.len();
    let compressed = &data[x.offset as usize..(x.offset + x.size) as usize];
    let (mode, bytes) = if x.size != x.decompressed_size {
        match decompress_buffer(compressed, x.decompressed_size) {
            Ok(r) => r,
            Err(e) => {
                return Err(FormatError::Compression(e));
            },
        }
    } else {
        (0u32, vstd::slice::slice_to_vec(compressed))
    };
    let (form, _, _) = FormDescriptor::slice(bytes.as_slice(), order)?;
    if form.id != x.asset_type || form.reader_version != x.version || form.writer_version
        != x.other_version || x.decompressed_size != form.size + 32 {
        return Err(FormatError::InvalidData);
    }
    Ok((mode, bytes))
}

/// The metadata table stored in a chunk's data: a count, then the entries.
pub open spec fn spec_meta_table(body: Seq<u8>, e: Endian) -> Option<Seq<MetadataTableEntry>> {
    if body.len() < 4 {
        None
    } else {
        spec_parse_records::<MetadataTableEntry>(body, 4, spec_u32(body, 0, e), e)
    }
}

/// The metadata of table entry `x`: a little-endian size at the entry's offset,
/// then that many bytes.
pub open spec fn meta_entry_data(body: Seq<u8>, x: MetadataTableEntry) -> Seq<u8> {
    let n = spec_u32(body, x.offset as int, Endian::Little);
    body.subrange(x.offset + 4, x.offset + 4 + n)
}

/// The metadata of table entry `x` lies inside the chunk, and its end fits in 32 bits.
pub open spec fn meta_entry_fits(body: Seq<u8>, x: MetadataTableEntry) -> bool {
    &&& x.offset + 4 <= body.len()
    &&& x.offset + 4 + spec_u32(body, x.offset as int, Endian::Little) <= u32::MAX
    &&& x.offset + 4 + spec_u32(body, x.offset as int, Endian::Little) <= body.len()
}

/// The metadata that the table entries give, with their assets' IDs, in order.
pub open spec fn meta_pairs(body: Seq<u8>, t: Seq<MetadataTableEntry>) -> Seq<(u128, Seq<u8>)> {
    t.map_values(|x: MetadataTableEntry| (x.asset_id, meta_entry_data(body, x)))
}

/// The metadata of asset `id`: the last that the tables give for it.
pub open spec fn meta_for(l: Seq<(u128, Seq<u8>)>, id: u128) -> Option<Seq<u8>>
    decreases l.len(),
{
    if l.len() == 0 {
        None
    } else if l.last().0 == id {
        Some(l.last().1)
    } else {
        meta_for(l.drop_last(), id)
    }
}

/// What reading a whole package has read from the chunks so far: the asset
/// directory, the metadata and the names.
pub type FullState = (Option<Seq<AssetDirectoryEntry>>, Seq<(u128, Seq<u8>)>, Seq<(u128, Seq<char>)>);

/// One chunk of the table of contents read for the whole package: the tables are
/// read with the byte order `e`.
#[verifier::opaque]
pub open spec fn full_step(st: FullState, c: (u32, Seq<u8>), order: Endian, e: Endian) -> Result<FullState, FormatError> {
    let (id, body) = c;
    if id == K_CHUNK_ADIR {
        match spec_adir(body, order) {
            None => Err(FormatError::InvalidData),
            Some(a) => Ok((Some(a), st.1, st.2)),
        }
    } else if id == K_CHUNK_META {
        match spec_meta_table(body, e) {
            None => Err(FormatError::InvalidData),
            Some(t) => Ok((st.0, st.1 + meta_pairs(body, t), st.2)),
        }
    } else if id == K_CHUNK_STRG {
        match spec_string_table(body, e) {
            None => Err(FormatError::InvalidData),
            Some(t) => match strg_names(t) {
                None => Err(FormatError::InvalidData),
                Some(ns) => Ok((st.0, st.1, st.2 + ns)),
            },
        }
    } else {
        Err(FormatError::UnexpectedChunk(id))
    }
}

pub open spec fn full_stepper(order: Endian, e: Endian) -> spec_fn(FullState, (u32, Seq<u8>)) -> Result<
    FullState,
    FormatError,
> {
    |st: FullState, c: (u32, Seq<u8>)| full_step(st, c, order, e)
}

pub open spec fn full_init() -> FullState {
    (None, Seq::empty(), Seq::empty())
}

/// Every metadata table that the reading reaches gives entries that lie inside it.
pub open spec fn meta_chunks_fit(chunks: Seq<(u32, Seq<u8>)>, order: Endian, e: Endian) -> bool
    decreases chunks.len(),
{
    if chunks.len() == 0 {
        true
    } else {
        let c = chunks.last();
        &&& meta_chunks_fit(chunks.drop_last(), order, e)
        &&& (fold_chunks(chunks.drop_last(), full_init(), full_stepper(order, e)) is Ok && c.0
            == K_CHUNK_META) ==> match spec_meta_table(c.1, e) {
            Some(t) => forall|j: int| 0 <= j < t.len() ==> meta_entry_fits(c.1, #[trigger] t[j]),
            None => true,
        }
    }
}

proof fn lemma_meta_chunks_fit_prefix(
    prefix: Seq<(u32, Seq<u8>)>,
    suffix: Seq<(u32, Seq<u8>)>,
    order: Endian,
    e: Endian,
)
    requires
        meta_chunks_fit(prefix + suffix, order, e),
    ensures
        meta_chunks_fit(prefix, order, e),
    decreases suffix.len(),
{
    if suffix.len() == 0 {
        assert(prefix + suffix =~= prefix);
    } else {
        assert((prefix + suffix).drop_last() =~= prefix + suffix.drop_last());
        lemma_meta_chunks_fit_prefix(prefix, suffix.drop_last(), order, e);
    }
}

/// One asset of a package: its ID, type, names, expanded bytes, metadata, the
/// information on how it was stored, and its versions.
#[derive(Clone, Debug)]
pub struct Asset {
    pub id: u128,
    pub kind: FourCC,
    pub names: Vec<String>,
    pub data: Vec<u8>,
    pub meta: Option<Vec<u8>>,
    pub info: AssetInfo,
    pub version: u32,
    pub other_version: u32,
}

/// A package: its assets in directory order.
#[derive(Clone, Debug)]
pub struct Package {
    pub assets: Vec<Asset>,
}

pub open spec fn opt_bytes_view(o: Option<Vec<u8>>) -> Option<Seq<u8>> {
    match o {
        Some(v) => Some(v@),
        None => None,
    }
}

/// The view of an asset: ID, type, names, bytes, metadata, storage information and
/// versions.
pub open spec fn asset_view(a: Asset) -> (u128, FourCC, Seq<Seq<char>>, Seq<u8>, Option<Seq<u8>>, AssetInfo, u32, u32) {
    (a.id, a.kind, strings_view(a.names@), a.data@, opt_bytes_view(a.meta), a.info, a.version, a.other_version)
}

/// The first `k` assets of the directory `a`, each read, expanded and checked; the
/// first failure stops the reading.
pub open spec fn full_assets(
    data: Seq<u8>,
    a: Seq<AssetDirectoryEntry>,
    metas: Seq<(u128, Seq<u8>)>,
    names: Seq<(u128, Seq<char>)>,
    order: Endian,
    k: int,
) -> Result<Seq<(u128, FourCC, Seq<Seq<char>>, Seq<u8>, Option<Seq<u8>>, AssetInfo, u32, u32)>, FormatError>
    decreases k,
{
    if k <= 0 {
        Ok(Seq::empty())
    } else {
        match full_assets(data, a, metas, names, order, k - 1) {
            Err(x) => Err(x),
            Ok(p) => {
                let x = a[k - 1];
                match spec_asset_data(data, x, order) {
                    Err(y) => Err(y),
                    Ok((mode, bytes)) => Ok(
                        p.push(
                            (
                                x.asset_id,
                                x.asset_type,
                                names_for(names, x.asset_id),
                                bytes,
                                meta_for(metas, x.asset_id),
                                AssetInfo { id: x.asset_id, compression_mode: mode, orig_offset: x.offset },
                                x.version,
                                x.other_version,
                            ),
                        ),
                    ),
                }
            },
        }
    }
}

/// The state after reading all chunks of the package's table of contents.
#[verifier::opaque]
pub open spec fn spec_full_toc(data: Seq<u8>, order: Endian, e: Endian) -> Result<FullState, FormatError> {
    match spec_pack_tocc(data, order) {
        Err(x) => Err(x),
        Ok((_, _, body)) => {
            let (chunks, clean) = tocc_walk(body, order);
            match fold_chunks(chunks, full_init(), full_stepper(order, e)) {
                Err(x) => Err(x),
                Ok(st) => if !clean {
                    Err(FormatError::InvalidChunkHeader)
                } else {
                    Ok(st)
                },
            }
        },
    }
}

/// The whole package `data`: every asset of its directory, expanded and checked,
/// with its names and metadata.
pub open spec fn spec_read_full(data: Seq<u8>, order: Endian, e: Endian) -> Result<
    Seq<(u128, FourCC, Seq<Seq<char>>, Seq<u8>, Option<Seq<u8>>, AssetInfo, u32, u32)>,
    FormatError,
> {
    match spec_full_toc(data, order, e) {
        Err(x) => Err(x),
        Ok((adir, metas, names)) => match adir {
            None => Err(FormatError::MissingChunk(K_CHUNK_ADIR)),
            Some(a) => full_assets(data, a, metas, names, order, a.len() as int),
        },
    }
}

/// Reading the whole package runs off no slice and no fixed-width sum: the forms and
/// chunks, the metadata that the tables give, and each asset that the reading
/// reaches lie inside their bytes.
pub open spec fn full_fits(data: Seq<u8>, order: Endian, e: Endian) -> bool {
    &&& package_fits(data, order)
    &&& (spec_pack_tocc(data, order) matches Ok((_, _, body)) ==> meta_chunks_fit(
        tocc_walk(body, order).0,
        order,
        e,
    ))
    &&& (spec_full_toc(data, order, e) matches Ok((Some(a), metas, names)) ==> forall|k: int|
        0 <= k < a.len() && #[trigger] full_assets(data, a, metas, names, order, k) is Ok
            ==> asset_data_fits(data, a[k], order))
}

pub open spec fn full_result_view(r: Result<Package, FormatError>) -> Result<
    Seq<(u128, FourCC, Seq<Seq<char>>, Seq<u8>, Option<Seq<u8>>, AssetInfo, u32, u32)>,
    FormatError,
> {
    match r {
        Ok(p) => Ok(p.assets@.map_values(|a: Asset| asset_view(a))),
        Err(e) => Err(e),
    }
}

pub open spec fn metas_view(m: Seq<(u128, Vec<u8>)>) -> Seq<(u128, Seq<u8>)> {
    m.map_values(|p: (u128, Vec<u8>)| (p.0, p.1@))
}

fn read_meta_table(body: &[u8], e: Endian) -> (r: Option<Vec<MetadataTableEntry>>)
    ensures
        match (r, spec_meta_table(body@, e)) {
            (Some(v), Some(t)) => v@ == t,
            (None, None) => true,
            _ => false,
        },
{
    if body.len() < 4 {
        return None;
    }
    let count = read_u32(body, 0, e).unwrap();
    read_records::<MetadataTableEntry>(body, 4, count as usize, e)
}

/// Appends the metadata that the table entries `t` give (see `meta_pairs`).
fn append_metas(metas: &mut Vec<(u128, Vec<u8>)>, body: &[u8], t: &Vec<MetadataTableEntry>)
    requires
        forall|j: int| 0 <= j < t@.len() ==> meta_entry_fits(body@, #[trigger] t@[j]),
    ensures
        metas_view(final(metas)@) == metas_view(old(metas)@) + meta_pairs(body@, t@),
{
    let ghost start = metas_view(metas@);
    let len = body.len();
    let mut k: usize = 0;
    while k < t.len()
        invariant
            k <= t@.len(),
            len == body@.len(),
            forall|j: int| 0 <= j < t@.len() ==> meta_entry_fits(body@, #[trigger] t@[j]),
            metas_view(metas@) == start + meta_pairs(body@, t@).subrange(0, k as int),
        decreases t@.len() - k,
    {
        let x = t[k];
        assert(meta_entry_fits(body@, t@[k as int]));
        let at = x.offset as usize;
        let n = read_u32(body, at, Endian::Little).unwrap() as usize;
        let bytes = vstd::slice::slice_to_vec(&body[at + 4..at + 4 + n]);
        let ghost prev = metas@;
        let item = (x.asset_id, bytes);
        metas.push(item);
        proof {
            assert(metas@ == prev.push(item));
            assert(metas_view(metas@) =~= metas_view(prev).push((item.0, item.1@)));
            assert(meta_pairs(body@, t@).subrange(0, k + 1) =~= meta_pairs(body@, t@).subrange(0, k as int).push(
                meta_pairs(body@, t@)[k as int],
            ));
        }
        k = k + 1;
    }
    assert(meta_pairs(body@, t@).subrange(0, t@.len() as int) =~= meta_pairs(body@, t@));
}

/// Reads one chunk of the table of contents for the whole package (see `full_step`).
fn full_chunk(
    id: u32,
    chunk_data: &[u8],
    order: Endian,
    e: Endian,
    adir: &mut Option<Vec<AssetDirectoryEntry>>,
    metas: &mut Vec<(u128, Vec<u8>)>,
    names: &mut Vec<(u128, String)>,
) -> (r: Result<(), FormatError>)
    requires
        id == K_CHUNK_META ==> match spec_meta_table(chunk_data@, e) {
            Some(t) => forall|j: int| 0 <= j < t.len() ==> meta_entry_fits(chunk_data@, #[trigger] t[j]),
            None => true,
        },
    ensures
        match full_step(
            (adir_view(*old(adir)), metas_view(old(metas)@), names_view(old(names)@)),
            (id, chunk_data@),
            order,
            e,
        ) {
            Ok(st) => r is Ok && st == (
                adir_view(*final(adir)),
                metas_view(final(metas)@),
                names_view(final(names)@),
            ),
            Err(x) => r == Err::<(), FormatError>(x),
        },
{
    reveal(full_step);
    if id == K_CHUNK_ADIR {
        match read_adir(chunk_data, order) {
            Some(v) => {
                *adir = Some(v);
                Ok(())
            },
            None => Err(FormatError::InvalidData),
        }
    } else if id == K_CHUNK_META {
        let table = match read_meta_table(chunk_data, e) {
            Some(t) => t,
            None => {
                return Err(FormatError::InvalidData);
            },
        };
        append_metas(metas, chunk_data, &table);
        Ok(())
    } else if id == K_CHUNK_STRG {
        let table = match read_string_table(chunk_data, e) {
            Some(t) => t,
            None => {
                return Err(FormatError::InvalidData);
            },
        };
        let decoded = match decode_names(table) {
            Some(d) => d,
            None => {
                return Err(FormatError::InvalidData);
            },
        };
        append_names(names, &decoded);
        Ok(())
    } else {
        Err(FormatError::UnexpectedChunk(id))
    }
}

/// The metadata of asset `id` (see `meta_for`).
fn collect_meta(metas: &Vec<(u128, Vec<u8>)>, id: u128) -> (r: Option<Vec<u8>>)
    ensures
        opt_bytes_view(r) == meta_for(metas_view(metas@), id),
{
    let ghost mv = metas_view(metas@);
    let mut k: usize = metas.len();
    assert(mv.subrange(0, k as int) =~= mv);
    while k > 0
        invariant
            k <= metas@.len(),
            mv == metas_view(metas@),
            meta_for(mv, id) == meta_for(mv.subrange(0, k as int), id),
        decreases k,
    {
        proof {
            assert(mv.subrange(0, k as int).drop_last() =~= mv.subrange(0, k - 1));
        }
        if metas[k - 1].0 == id {
            return Some(metas[k - 1].1.clone());
        }
        k = k - 1;
    }
    None
}

/// Reads the chunks of the table of contents for the whole package (see
/// `spec_full_toc`).
fn full_toc(data: &[u8], order: Endian, e: Endian) -> (r: Result<
    (Option<Vec<AssetDirectoryEntry>>, Vec<(u128, Vec<u8>)>, Vec<(u128, String)>),
    FormatError,
>)
    requires
        full_fits(data@, order, e),
    ensures
        match (r, spec_full_toc(data@, order, e)) {
            (Ok((a, m, n)), Ok(st)) => st == (adir_view(a), metas_view(m@), names_view(n@)),
            (Err(x), Err(y)) => x == y,
            _ => false,
        },
{
    reveal(spec_full_toc);
    let (_, _, tocc_body) = pack_tocc(data, order)?;
    let mut tocc_data = tocc_body;
    let ghost all = tocc_walk(tocc_body@, order);
    let ghost step = full_stepper(order, e);
    let ghost init = full_init();
    let ghost mut done: Seq<(u32, Seq<u8>)> = Seq::empty();
    let mut adir: Option<Vec<AssetDirectoryEntry>> = None;
    let mut metas: Vec<(u128, Vec<u8>)> = Vec::new();
    let mut names: Vec<(u128, String)> = Vec::new();
    proof {
        assert(done + all.0 =~= all.0);
        assert(names_view(names@) =~= Seq::<(u128, Seq<char>)>::empty());
        assert(metas_view(metas@) =~= Seq::<(u128, Seq<u8>)>::empty());
    }
    while tocc_data.len() > 0
        invariant
            spec_pack_tocc(data@, order) matches Ok((_, _, b)) && b == tocc_body@,
            all == tocc_walk(tocc_body@, order),
            meta_chunks_fit(all.0, order, e),
            tocc_fits(tocc_data@, order),
            all.0 == done + tocc_walk(tocc_data@, order).0,
            all.1 == tocc_walk(tocc_data@, order).1,
            fold_chunks(done, init, step) == Ok::<FullState, FormatError>(
                (adir_view(adir), metas_view(metas@), names_view(names@)),
            ),
            step == full_stepper(order, e),
            init == full_init(),
        decreases tocc_data@.len(),
    {
        if tocc_data.len() < CHUNK_HEADER_SIZE {
            proof {
                reveal(spec_full_toc);
                lemma_walk_short(tocc_data@, order);
                assert(done + Seq::<(u32, Seq<u8>)>::empty() =~= done);
            }
            return Err(FormatError::InvalidChunkHeader);
        }
        proof {
            lemma_walk_step(tocc_data@, order);
        }
        let (desc, chunk_data, remain) = ChunkDescriptor::slice(tocc_data, order)?;
        let id = desc.id.as_u32();
        let ghost c = (id, chunk_data@);
        let ghost rest_walk = tocc_walk(remain@, order);
        proof {
            assert(tocc_walk(tocc_data@, order).0 == seq![c] + rest_walk.0);
            assert(all.0 =~= done.push(c) + rest_walk.0);
            lemma_fold_push(done, c, init, step);
            lemma_meta_chunks_fit_prefix(done.push(c), rest_walk.0, order, e);
            assert(done.push(c).drop_last() =~= done);
        }
        match full_chunk(id, chunk_data, order, e, &mut adir, &mut metas, &mut names) {
            Ok(()) => {},
            Err(x) => {
                proof {
                    reveal(spec_full_toc);
                    lemma_fold_err(done.push(c), rest_walk.0, init, step);
                }
                return Err(x);
            },
        }
        proof {
            done = done.push(c);
        }
        tocc_data = remain;
    }
    proof {
        lemma_walk_empty(tocc_data@, order);
        assert(done + Seq::<(u32, Seq<u8>)>::empty() =~= done);
    }
    Ok((adir, metas, names))
}

/// Reads the assets of the directory `a` (see `full_assets`).
fn read_assets(
    data: &[u8],
    a: &Vec<AssetDirectoryEntry>,
    metas: &Vec<(u128, Vec<u8>)>,
    names: &Vec<(u128, String)>,
    order: Endian,
) -> (r: Result<Vec<Asset>, FormatError>)
    requires
        forall|k: int|
            0 <= k < a@.len() && #[trigger] full_assets(
                data@,
                a@,
                metas_view(metas@),
                names_view(names@),
                order,
                k,
            ) is Ok ==> asset_data_fits(data@, a@[k], order),
    ensures
        match (r, full_assets(data@, a@, metas_view(metas@), names_view(names@), order, a@.len() as int)) {
            (Ok(v), Ok(s)) => v@.map_values(|x: Asset| asset_view(x)) == s,
            (Err(x), Err(y)) => x == y,
            _ => false,
        },
{
    let ghost mv = metas_view(metas@);
    let ghost nv = names_view(names@);
    let mut assets: Vec<Asset> = Vec::new();
    let mut k: usize = 0;
    assert(assets@.map_values(|x: Asset| asset_view(x)) =~= Seq::empty());
    while k < a.len()
        invariant
            k <= a@.len(),
            mv == metas_view(metas@),
            nv == names_view(names@),
            forall|j: int|
                0 <= j < a@.len() && #[trigger] full_assets(data@, a@, mv, nv, order, j) is Ok
                    ==> asset_data_fits(data@, a@[j], order),
            full_assets(data@, a@, mv, nv, order, k as int) == Ok::<
                Seq<(u128, FourCC, Seq<Seq<char>>, Seq<u8>, Option<Seq<u8>>, AssetInfo, u32, u32)>,
                FormatError,
            >(assets@.map_values(|x: Asset| asset_view(x))),
        decreases a@.len() - k,
    {
        let x = a[k];
        assert(asset_data_fits(data@, a@[k as int], order));
        let (mode, bytes) = match asset_data(data, &x, order) {
            Ok(r) => r,
            Err(y) => {
                proof {
                    lemma_full_assets_err(data@, a@, mv, nv, order, k as int + 1);
                }
                return Err(y);
            },
        };
        let asset = Asset {
            id: x.asset_id,
            kind: x.asset_type,
            names: collect_names(names, x.asset_id),
            data: bytes,
            meta: collect_meta(metas, x.asset_id),
            info: AssetInfo { id: x.asset_id, compression_mode: mode, orig_offset: x.offset },
            version: x.version,
            other_version: x.other_version,
        };
        let ghost before = assets@;
        assets.push(asset);
        proof {
            assert(assets@ == before.push(asset));
            assert(assets@.map_values(|x: Asset| asset_view(x)) =~= before.map_values(|x: Asset| asset_view(x)).push(
                asset_view(asset),
            ));
        }
        k = k + 1;
    }
    Ok(assets)
}

/// Reads the whole package `data`: every asset of its directory, expanded and
/// checked against the form it holds, with its names and metadata. The directory,
/// the chunk headers and the assets' forms are read in the byte order `order`, the
/// metadata and string tables in the byte order `e`.
pub fn read_full(data: &[u8], order: Endian, e: Endian) -> (r: Result<Package, FormatError>)
    requires
        full_fits(data@, order, e),
    ensures
        full_result_view(r) == spec_read_full(data@, order, e),
{
    let (adir, metas, names) = full_toc(data, order, e)?;
    let a = match adir {
        Some(a) => a,
        None => {
            return Err(FormatError::MissingChunk(K_CHUNK_ADIR));
        },
    };
    let assets = read_assets(data, &a, &metas, &names, order)?;
    Ok(Package { assets })
}

/// Once reading the assets fails, reading more of them fails the same way.
proof fn lemma_full_assets_err(
    data: Seq<u8>,
    a: Seq<AssetDirectoryEntry>,
    metas: Seq<(u128, Seq<u8>)>,
    names: Seq<(u128, Seq<char>)>,
    order: Endian,
    k: int,
)
    requires
        0 < k <= a.len(),
        full_assets(data, a, metas, names, order, k) is Err,
    ensures
        full_assets(data, a, metas, names, order, a.len() as int) == full_assets(
            data,
            a,
            metas,
            names,
            order,
            k,
        ),
    decreases a.len() - k,
{
    if k < a.len() {
        lemma_full_assets_err(data, a, metas, names, order, k + 1);
    }
}

/// The 16 bytes of the number `v` (below 2^128), most significant first.
pub open spec fn spec_be_bytes(v: int) -> Seq<u8> {
    Seq::new(16, |i: int| ((v / vstd::arithmetic::power::pow(256, (15 - i) as nat)) % 256) as u8)
}

/// Calls `uuid::Uuid::from_u128` and `to_bytes_le`: the crate documents that the
/// value packs the UUID's bytes big-endian and that `to_bytes_le` gives them with the
/// first three fields byte-reversed.
#[verifier::external_body]
pub(crate) fn uuid_to_bytes_le(id: u128) -> (r: [u8; 16])
    ensures
        r@ == spec_uuid_le_order(spec_be_bytes(id as int)),
{
    uuid::Uuid::from_u128(id).to_bytes_le()
}

/// Calls `uuid::Uuid::from_u128` and `as_bytes`: the crate documents that the value
/// packs the UUID's bytes big-endian, and `as_bytes` gives them in that order.
#[verifier::external_body]
pub(crate) fn uuid_to_bytes(id: u128) -> (r: [u8; 16])
    ensures
        r@ == spec_be_bytes(id as int),
{
    *uuid::Uuid::from_u128(id).as_bytes()
}

/// The 28 bytes of the asset information `info`, little-endian.
pub open spec fn spec_asset_info_bytes(info: AssetInfo) -> Seq<u8> {
    spec_uuid_le_order(spec_be_bytes(info.id as int)) + spec_u32_bytes(
        info.compression_mode as int,
        Endian::Little,
    ) + spec_u64_bytes(info.orig_offset as int, Endian::Little)
}

/// A chunk header with the code `id` and every other field zero.
pub open spec fn plain_chunk(id: u32) -> ChunkDescriptor {
    ChunkDescriptor { id: spec_four_cc_from_u32(id), size: 0, unk: 0, skip: 0 }
}

/// The data of the footer form: the asset information chunk, then the metadata and
/// name chunks where there are metadata and a name.
pub open spec fn spec_foot_data(info: AssetInfo, meta: Option<Seq<u8>>, name: Option<Seq<u8>>, order: Endian) -> Seq<u8> {
    spec_chunk_bytes(plain_chunk(K_CHUNK_AINF), spec_asset_info_bytes(info), order) + match meta {
        Some(m) => spec_chunk_bytes(plain_chunk(crate::format::foot::K_CHUNK_META), m, order),
        None => Seq::empty(),
    } + match name {
        Some(n) => spec_chunk_bytes(plain_chunk(K_CHUNK_NAME), n, order),
        None => Seq::empty(),
    }
}

/// The footer form header: the FOOT code, versions 1 and 1.
pub open spec fn foot_form() -> FormDescriptor {
    FormDescriptor {
        magic: spec_four_cc_from_u32(K_CHUNK_RFRM),
        size: 0,
        unk: 0,
        id: spec_four_cc_from_u32(K_FORM_FOOT),
        reader_version: 1,
        writer_version: 1,
    }
}

/// The footer form that an extracted asset carries.
pub open spec fn spec_foot(info: AssetInfo, meta: Option<Seq<u8>>, name: Option<Seq<u8>>, order: Endian) -> Seq<u8> {
    let body = spec_foot_data(info, meta, name, order);
    spec_form_header_bytes(with_size(foot_form(), body.len() as int), order) + body
}

/// Builds the footer form (see `spec_foot`).
fn write_foot(out: &mut Vec<u8>, info: AssetInfo, meta: &Option<Vec<u8>>, name: &Option<Vec<u8>>, order: Endian)
    ensures
        final(out)@ == old(out)@ + spec_foot(info, opt_bytes_view(*meta), opt_bytes_view(*name), order),
{
    let mut ainf: Vec<u8> = Vec::new();
    let idb = uuid_to_bytes_le(info.id);
    push_bytes(&mut ainf, &idb);
    push_u32(&mut ainf, info.compression_mode, Endian::Little);
    push_u64(&mut ainf, info.orig_offset, Endian::Little);
    let mut body: Vec<u8> = Vec::new();
    let ainf_desc = ChunkDescriptor { id: FourCC::from_u32(K_CHUNK_AINF), size: 0, unk: 0, skip: 0 };
    ainf_desc.write(&mut body, ainf.as_slice(), order);
    let ghost b1 = body@;
    match meta {
        Some(m) => {
            let desc = ChunkDescriptor {
                id: FourCC::from_u32(crate::format::foot::K_CHUNK_META),
                size: 0,
                unk: 0,
                skip: 0,
            };
            desc.write(&mut body, m.as_slice(), order);
        },
        None => {},
    }
    let ghost b2 = body@;
    match name {
        Some(n) => {
            let desc = ChunkDescriptor { id: FourCC::from_u32(K_CHUNK_NAME), size: 0, unk: 0, skip: 0 };
            desc.write(&mut body, n.as_slice(), order);
        },
        None => {},
    }
    proof {
        assert(ainf@ =~= spec_asset_info_bytes(info));
        assert(body@ =~= spec_foot_data(info, opt_bytes_view(*meta), opt_bytes_view(*name), order));
    }
    let foot = FormDescriptor {
        magic: FourCC::from_u32(K_CHUNK_RFRM),
        size: 0,
        unk: 0,
        id: FourCC::from_u32(K_FORM_FOOT),
        reader_version: 1,
        writer_version: 1,
    };
    foot.write(out, body.as_slice(), order);
}

/// What extracting an asset has read from the chunks so far: its directory entry,
/// its metadata and the bytes of its name.
pub type AssetState = (Option<AssetDirectoryEntry>, Option<Seq<u8>>, Option<Seq<u8>>);

/// The first directory entry of asset `id`.
pub open spec fn find_entry(a: Seq<AssetDirectoryEntry>, id: u128) -> Option<AssetDirectoryEntry>
    decreases a.len(),
{
    if a.len() == 0 {
        None
    } else {
        match find_entry(a.drop_last(), id) {
            Some(x) => Some(x),
            None => if a.last().asset_id == id {
                Some(a.last())
            } else {
                None
            },
        }
    }
}

/// The last table entry of asset `id`.
pub open spec fn last_meta_entry(t: Seq<MetadataTableEntry>, id: u128) -> Option<MetadataTableEntry>
    decreases t.len(),
{
    if t.len() == 0 {
        None
    } else if t.last().asset_id == id {
        Some(t.last())
    } else {
        last_meta_entry(t.drop_last(), id)
    }
}

/// The first string table entry of asset `id`.
pub open spec fn first_name(t: Seq<(FourCC, u128, Seq<u8>)>, id: u128) -> Option<Seq<u8>>
    decreases t.len(),
{
    if t.len() == 0 {
        None
    } else {
        match first_name(t.drop_last(), id) {
            Some(n) => Some(n),
            None => if t.last().1 == id {
                Some(t.last().2)
            } else {
                None
            },
        }
    }
}

/// One chunk of the table of contents read to extract asset `id`: its directory
/// entry (which must be there), its last metadata and its first name (which must be
/// valid UTF-8); the tables are read little-endian.
#[verifier::opaque]
pub open spec fn asset_step(st: AssetState, c: (u32, Seq<u8>), id: u128, order: Endian) -> Result<
    AssetState,
    FormatError,
> {
    let (cid, body) = c;
    if cid == K_CHUNK_ADIR {
        match spec_adir(body, order) {
            None => Err(FormatError::InvalidData),
            Some(a) => match find_entry(a, id) {
                None => Err(FormatError::MissingAsset),
                Some(x) => Ok((Some(x), st.1, st.2)),
            },
        }
    } else if cid == K_CHUNK_META {
        match spec_meta_table(body, Endian::Little) {
            None => Err(FormatError::InvalidData),
            Some(t) => match last_meta_entry(t, id) {
                None => Ok(st),
                Some(x) => Ok((st.0, Some(meta_entry_data(body, x)), st.2)),
            },
        }
    } else if cid == K_CHUNK_STRG {
        match spec_string_table(body, Endian::Little) {
            None => Err(FormatError::InvalidData),
            Some(t) => match first_name(t, id) {
                None => Ok(st),
                Some(n) => if valid_utf8(n) {
                    Ok((st.0, st.1, Some(n)))
                } else {
                    Err(FormatError::InvalidData)
                },
            },
        }
    } else {
        Err(FormatError::UnexpectedChunk(cid))
    }
}

pub open spec fn asset_stepper(id: u128, order: Endian) -> spec_fn(AssetState, (u32, Seq<u8>)) -> Result<
    AssetState,
    FormatError,
> {
    |st: AssetState, c: (u32, Seq<u8>)| asset_step(st, c, id, order)
}

pub open spec fn asset_init() -> AssetState {
    (None, None, None)
}

/// The metadata of asset `id` in every metadata table that the reading reaches lies
/// inside the table's chunk.
pub open spec fn asset_meta_fit(chunks: Seq<(u32, Seq<u8>)>, id: u128, order: Endian) -> bool
    decreases chunks.len(),
{
    if chunks.len() == 0 {
        true
    } else {
        let c = chunks.last();
        &&& asset_meta_fit(chunks.drop_last(), id, order)
        &&& (fold_chunks(chunks.drop_last(), asset_init(), asset_stepper(id, order)) is Ok && c.0
            == K_CHUNK_META) ==> match spec_meta_table(c.1, Endian::Little) {
            Some(t) => match last_meta_entry(t, id) {
                Some(x) => meta_entry_fits(c.1, x),
                None => true,
            },
            None => true,
        }
    }
}

proof fn lemma_asset_meta_fit_prefix(
    prefix: Seq<(u32, Seq<u8>)>,
    suffix: Seq<(u32, Seq<u8>)>,
    id: u128,
    order: Endian,
)
    requires
        asset_meta_fit(prefix + suffix, id, order),
    ensures
        asset_meta_fit(prefix, id, order),
    decreases suffix.len(),
{
    if suffix.len() == 0 {
        assert(prefix + suffix =~= prefix);
    } else {
        assert((prefix + suffix).drop_last() =~= prefix + suffix.drop_last());
        lemma_asset_meta_fit_prefix(prefix, suffix.drop_last(), id, order);
    }
}

/// The state after reading all chunks of the package's table of contents to
/// extract asset `id`.
#[verifier::opaque]
pub open spec fn spec_asset_toc(data: Seq<u8>, id: u128, order: Endian) -> Result<AssetState, FormatError> {
    match spec_pack_tocc(data, order) {
        Err(x) => Err(x),
        Ok((_, _, body)) => {
            let (chunks, clean) = tocc_walk(body, order);
            match fold_chunks(chunks, asset_init(), asset_stepper(id, order)) {
                Err(x) => Err(x),
                Ok(st) => if !clean {
                    Err(FormatError::InvalidChunkHeader)
                } else {
                    Ok(st)
                },
            }
        },
    }
}

/// Asset `id` extracted from the package `data`: its expanded and checked bytes,
/// followed by a footer form with its information, metadata and name.
pub open spec fn spec_read_asset(data: Seq<u8>, id: u128, order: Endian) -> Result<Seq<u8>, FormatError> {
    match spec_asset_toc(data, id, order) {
        Err(x) => Err(x),
        Ok((entry, meta, name)) => match entry {
            None => Err(FormatError::MissingChunk(K_CHUNK_ADIR)),
            Some(x) => match spec_asset_data(data, x, order) {
                Err(y) => Err(y),
                Ok((mode, bytes)) => Ok(
                    bytes + spec_foot(
                        AssetInfo { id, compression_mode: mode, orig_offset: x.offset },
                        meta,
                        name,
                        order,
                    ),
                ),
            },
        },
    }
}

/// Extracting asset `id` runs off no slice and no fixed-width sum.
pub open spec fn asset_fits(data: Seq<u8>, id: u128, order: Endian) -> bool {
    &&& package_fits(data, order)
    &&& (spec_pack_tocc(data, order) matches Ok((_, _, body)) ==> asset_meta_fit(
        tocc_walk(body, order).0,
        id,
        order,
    ))
    &&& (spec_asset_toc(data, id, order) matches Ok((Some(x), _, _)) ==> asset_data_fits(data, x, order))
}

/// The first directory entry of asset `id` (see `find_entry`).
fn find_entry_exec(a: &Vec<AssetDirectoryEntry>, id: u128) -> (r: Option<AssetDirectoryEntry>)
    ensures
        r == find_entry(a@, id),
{
    let mut k: usize = 0;
    while k < a.len()
        invariant
            k <= a@.len(),
            find_entry(a@.subrange(0, k as int), id) is None,
        decreases a@.len() - k,
    {
        proof {
            assert(a@.subrange(0, k + 1).drop_last() =~= a@.subrange(0, k as int));
        }
        if a[k].asset_id == id {
            proof {
                lemma_find_entry_prefix(a@, k as int + 1, id);
            }
            return Some(a[k]);
        }
        k = k + 1;
    }
    assert(a@.subrange(0, a@.len() as int) =~= a@);
    None
}

/// The last table entry of asset `id` (see `last_meta_entry`).
fn last_meta_exec(t: &Vec<MetadataTableEntry>, id: u128) -> (r: Option<MetadataTableEntry>)
    ensures
        r == last_meta_entry(t@, id),
{
    let mut k: usize = t.len();
    assert(t@.subrange(0, k as int) =~= t@);
    while k > 0
        invariant
            k <= t@.len(),
            last_meta_entry(t@, id) == last_meta_entry(t@.subrange(0, k as int), id),
        decreases k,
    {
        proof {
            assert(t@.subrange(0, k as int).drop_last() =~= t@.subrange(0, k - 1));
        }
        if t[k - 1].asset_id == id {
            return Some(t[k - 1]);
        }
        k = k - 1;
    }
    None
}

/// The name bytes of the first string table entry of asset `id` (see `first_name`).
fn first_name_exec(t: &Vec<StringTableEntry>, id: u128) -> (r: Option<Vec<u8>>)
    ensures
        opt_bytes_view(r) == first_name(t@.map_values(|x: StringTableEntry| string_entry_view(x)), id),
{
    let ghost tv = t@.map_values(|x: StringTableEntry| string_entry_view(x));
    let mut k: usize = 0;
    while k < t.len()
        invariant
            k <= t@.len(),
            tv == t@.map_values(|x: StringTableEntry| string_entry_view(x)),
            first_name(tv.subrange(0, k as int), id) is None,
        decreases t@.len() - k,
    {
        proof {
            assert(tv.subrange(0, k + 1).drop_last() =~= tv.subrange(0, k as int));
        }
        if t[k].asset_id == id {
            proof {
                lemma_first_name_prefix(tv, k as int + 1, id);
            }
            return Some(t[k].name.clone());
        }
        k = k + 1;
    }
    assert(tv.subrange(0, t@.len() as int) =~= tv);
    None
}

/// Reads one chunk of the table of contents to extract asset `id` (see `asset_step`).
fn asset_chunk(
    cid: u32,
    chunk_data: &[u8],
    id: u128,
    order: Endian,
    entry: &mut Option<AssetDirectoryEntry>,
    meta: &mut Option<Vec<u8>>,
    name: &mut Option<Vec<u8>>,
) -> (r: Result<(), FormatError>)
    requires
        cid == K_CHUNK_META ==> match spec_meta_table(chunk_data@, Endian::Little) {
            Some(t) => match last_meta_entry(t, id) {
                Some(x) => meta_entry_fits(chunk_data@, x),
                None => true,
            },
            None => true,
        },
    ensures
        match asset_step(
            (*old(entry), opt_bytes_view(*old(meta)), opt_bytes_view(*old(name))),
            (cid, chunk_data@),
            id,
            order,
        ) {
            Ok(st) => r is Ok && st == (*final(entry), opt_bytes_view(*final(meta)), opt_bytes_view(*final(name))),
            Err(x) => r == Err::<(), FormatError>(x),
        },
{
    reveal(asset_step);
    let len = chunk_data.len();
    if cid == K_CHUNK_ADIR {
        let a = match read_adir(chunk_data, order) {
            Some(v) => v,
            None => {
                return Err(FormatError::InvalidData);
            },
        };
        match find_entry_exec(&a, id) {
            Some(x) => {
                *entry = Some(x);
                Ok(())
            },
            None => Err(FormatError::MissingAsset),
        }
    } else if cid == K_CHUNK_META {
        let t = match read_meta_table(chunk_data, Endian::Little) {
            Some(t) => t,
            None => {
                return Err(FormatError::InvalidData);
            },
        };
        match last_meta_exec(&t, id) {
            Some(x) => {
                let at = x.offset as usize;
                let n = read_u32(chunk_data, at, Endian::Little).unwrap() as usize;
                *meta = Some(vstd::slice::slice_to_vec(&chunk_data[at + 4..at + 4 + n]));
                Ok(())
            },
            None => Ok(()),
        }
    } else if cid == K_CHUNK_STRG {
        let t = match read_string_table(chunk_data, Endian::Little) {
            Some(t) => t,
            None => {
                return Err(FormatError::InvalidData);
            },
        };
        match first_name_exec(&t, id) {
            Some(bytes) => match string_from_utf8(bytes.clone()) {
                Some(_) => {
                    *name = Some(bytes);
                    Ok(())
                },
                None => Err(FormatError::InvalidData),
            },
            None => Ok(()),
        }
    } else {
        Err(FormatError::UnexpectedChunk(cid))
    }
}

proof fn lemma_find_entry_prefix(a: Seq<AssetDirectoryEntry>, k: int, id: u128)
    requires
        0 < k <= a.len(),
        find_entry(a.subrange(0, k), id) is Some,
    ensures
        find_entry(a, id) == find_entry(a.subrange(0, k), id),
    decreases a.len() - k,
{
    if k < a.len() {
        assert(a.subrange(0, k + 1).drop_last() =~= a.subrange(0, k));
        lemma_find_entry_prefix(a, k + 1, id);
    } else {
        assert(a.subrange(0, k) =~= a);
    }
}

proof fn lemma_first_name_prefix(t: Seq<(FourCC, u128, Seq<u8>)>, k: int, id: u128)
    requires
        0 < k <= t.len(),
        first_name(t.subrange(0, k), id) is Some,
    ensures
        first_name(t, id) == first_name(t.subrange(0, k), id),
    decreases t.len() - k,
{
    if k < t.len() {
        assert(t.subrange(0, k + 1).drop_last() =~= t.subrange(0, k));
        lemma_first_name_prefix(t, k + 1, id);
    } else {
        assert(t.subrange(0, k) =~= t);
    }
}

/// Reads the chunks of the table of contents to extract asset `id` (see
/// `spec_asset_toc`).
fn asset_toc(data: &[u8], id: u128, order: Endian) -> (r: Result<
    (Option<AssetDirectoryEntry>, Option<Vec<u8>>, Option<Vec<u8>>),
    FormatError,
>)
    requires
        asset_fits(data@, id, order),
    ensures
        match (r, spec_asset_toc(data@, id, order)) {
            (Ok((a, m, n)), Ok(st)) => st == (a, opt_bytes_view(m), opt_bytes_view(n)),
            (Err(x), Err(y)) => x == y,
            _ => false,
        },
{
    reveal(spec_asset_toc);
    let (_, _, tocc_body) = pack_tocc(data, order)?;
    let mut tocc_data = tocc_body;
    let ghost all = tocc_walk(tocc_body@, order);
    let ghost step = asset_stepper(id, order);
    let ghost init = asset_init();
    let ghost mut done: Seq<(u32, Seq<u8>)> = Seq::empty();
    let mut entry: Option<AssetDirectoryEntry> = None;
    let mut meta: Option<Vec<u8>> = None;
    let mut name: Option<Vec<u8>> = None;
    proof {
        assert(done + all.0 =~= all.0);
    }
    while tocc_data.len() > 0
        invariant
            spec_pack_tocc(data@, order) matches Ok((_, _, b)) && b == tocc_body@,
            all == tocc_walk(tocc_body@, order),
            asset_meta_fit(all.0, id, order),
            tocc_fits(tocc_data@, order),
            all.0 == done + tocc_walk(tocc_data@, order).0,
            all.1 == tocc_walk(tocc_data@, order).1,
            fold_chunks(done, init, step) == Ok::<AssetState, FormatError>(
                (entry, opt_bytes_view(meta), opt_bytes_view(name)),
            ),
            step == asset_stepper(id, order),
            init == asset_init(),
        decreases tocc_data@.len(),
    {
        if tocc_data.len() < CHUNK_HEADER_SIZE {
            proof {
                reveal(spec_asset_toc);
                lemma_walk_short(tocc_data@, order);
                assert(done + Seq::<(u32, Seq<u8>)>::empty() =~= done);
            }
            return Err(FormatError::InvalidChunkHeader);
        }
        proof {
            lemma_walk_step(tocc_data@, order);
        }
        let (desc, chunk_data, remain) = ChunkDescriptor::slice(tocc_data, order)?;
        let cid = desc.id.as_u32();
        let ghost c = (cid, chunk_data@);
        let ghost rest_walk = tocc_walk(remain@, order);
        proof {
            assert(tocc_walk(tocc_data@, order).0 == seq![c] + rest_walk.0);
            assert(all.0 =~= done.push(c) + rest_walk.0);
            lemma_fold_push(done, c, init, step);
            lemma_asset_meta_fit_prefix(done.push(c), rest_walk.0, id, order);
            assert(done.push(c).drop_last() =~= done);
        }
        match asset_chunk(cid, chunk_data, id, order, &mut entry, &mut meta, &mut name) {
            Ok(()) => {},
            Err(x) => {
                proof {
                    reveal(spec_asset_toc);
                    lemma_fold_err(done.push(c), rest_walk.0, init, step);
                }
                return Err(x);
            },
        }
        proof {
            done = done.push(c);
        }
        tocc_data = remain;
    }
    proof {
        lemma_walk_empty(tocc_data@, order);
        assert(done + Seq::<(u32, Seq<u8>)>::empty() =~= done);
    }
    Ok((entry, meta, name))
}

/// Extracts asset `id` from the package `data`: its bytes, expanded and checked
/// against the form that they hold, followed by a footer form with the asset's
/// information, its metadata and its name.
pub fn read_asset(data: &[u8], id: u128, order: Endian) -> (r: Result<Vec<u8>, FormatError>)
    requires
        asset_fits(data@, id, order),
    ensures
        bytes_view(r) == spec_read_asset(data@, id, order),
{
    let (entry, meta, name) = asset_toc(data, id, order)?;
    let x = match entry {
        Some(x) => x,
        None => {
            return Err(FormatError::MissingChunk(K_CHUNK_ADIR));
        },
    };
    let (mode, bytes) = asset_data(data, &x, order)?;
    let mut out = bytes;
    write_foot(&mut out, AssetInfo { id, compression_mode: mode, orig_offset: x.offset }, &meta, &name, order);
    Ok(out)
}

/// Every directory chunk among `chunks` that can be read lists asset `id`.
pub open spec fn directories_list(chunks: Seq<(u32, Seq<u8>)>, id: u128, order: Endian) -> bool {
    forall|i: int|
        0 <= i < chunks.len() && (#[trigger] chunks[i]).0 == K_CHUNK_ADIR && spec_adir(chunks[i].1, order) is Some
            ==> find_entry(spec_adir(chunks[i].1, order)->0, id) is Some
}

proof fn lemma_find_entry_none(a: Seq<AssetDirectoryEntry>, id: u128)
    requires
        forall|j: int| 0 <= j < a.len() ==> (#[trigger] a[j]).asset_id != id,
    ensures
        find_entry(a, id) is None,
    decreases a.len(),
{
    if a.len() > 0 {
        lemma_find_entry_none(a.drop_last(), id);
    }
}

proof fn lemma_find_entry_first(a: Seq<AssetDirectoryEntry>, id: u128, k: int)
    requires
        0 <= k < a.len(),
        a[k].asset_id == id,
        forall|j: int| 0 <= j < k ==> (#[trigger] a[j]).asset_id != id,
    ensures
        find_entry(a, id) == Some(a[k]),
    decreases a.len(),
{
    if k < a.len() - 1 {
        lemma_find_entry_first(a.drop_last(), id, k);
    } else {
        lemma_find_entry_none(a.drop_last(), id);
    }
}

/// Reading the table of contents for the whole package (tables little-endian) and
/// for asset `id` go through the same chunks: where every directory chunk lists
/// `id`, the second succeeds where the first does, and its entry is the first
/// entry of `id` in the directory that the first keeps.
proof fn lemma_tocs_agree(chunks: Seq<(u32, Seq<u8>)>, id: u128, order: Endian)
    requires
        fold_chunks(chunks, full_init(), full_stepper(order, Endian::Little)) is Ok,
        directories_list(chunks, id, order),
    ensures
        fold_chunks(chunks, asset_init(), asset_stepper(id, order)) matches Ok(st) && match (fold_chunks(
            chunks,
            full_init(),
            full_stepper(order, Endian::Little),
        )->Ok_0).0 {
            Some(a) => st.0 == find_entry(a, id),
            None => st.0 is None,
        },
    decreases chunks.len(),
{
    if chunks.len() > 0 {
        let c = chunks.last();
        let prev = chunks.drop_last();
        assert(directories_list(prev, id, order)) by {
            assert forall|i: int|
                0 <= i < prev.len() && (#[trigger] prev[i]).0 == K_CHUNK_ADIR && spec_adir(prev[i].1, order) is Some
                    implies find_entry(spec_adir(prev[i].1, order)->0, id) is Some by {
                assert(prev[i] == chunks[i]);
            }
        }
        lemma_tocs_agree(prev, id, order);
        assert(chunks[chunks.len() - 1] == c);
        reveal(full_step);
        reveal(asset_step);
        if c.0 == K_CHUNK_STRG {
            let t = spec_string_table(c.1, Endian::Little)->0;
            lemma_first_name_valid(t, id);
        }
    }
}

proof fn lemma_first_name_valid(t: Seq<(FourCC, u128, Seq<u8>)>, id: u128)
    requires
        strg_names(t) is Some,
    ensures
        first_name(t, id) matches Some(n) ==> valid_utf8(n),
    decreases t.len(),
{
    if t.len() > 0 {
        lemma_first_name_valid(t.drop_last(), id);
    }
}

/// What reading the whole package gives for each directory entry: its ID and its
/// bytes and compression mode as `spec_asset_data` reads them.
proof fn lemma_full_assets_entries(
    data: Seq<u8>,
    a: Seq<AssetDirectoryEntry>,
    metas: Seq<(u128, Seq<u8>)>,
    names: Seq<(u128, Seq<char>)>,
    order: Endian,
    n: int,
)
    requires
        0 <= n <= a.len(),
        full_assets(data, a, metas, names, order, n) is Ok,
    ensures
        ({
            let p = full_assets(data, a, metas, names, order, n)->Ok_0;
            &&& p.len() == n
            &&& forall|j: int| 0 <= j < n ==> (#[trigger] p[j]).0 == a[j].asset_id && spec_asset_data(data, a[j], order)
                == Ok::<_, FormatError>((p[j].5.compression_mode, p[j].3)) && p[j].5.id == a[j].asset_id
                && p[j].5.orig_offset == a[j].offset
        }),
    decreases n,
{
    if n > 0 {
        lemma_full_assets_entries(data, a, metas, names, order, n - 1);
    }
}

proof fn lemma_full_parts(data: Seq<u8>, order: Endian)
    requires
        spec_read_full(data, order, Endian::Little) is Ok,
    ensures
        spec_pack_tocc(data, order) is Ok,
        ({
            let body = (spec_pack_tocc(data, order)->Ok_0).2;
            let chunks = tocc_walk(body, order).0;
            let toc = spec_full_toc(data, order, Endian::Little)->Ok_0;
            &&& tocc_walk(body, order).1
            &&& spec_full_toc(data, order, Endian::Little) is Ok
            &&& fold_chunks(chunks, full_init(), full_stepper(order, Endian::Little)) == Ok::<_, FormatError>(toc)
            &&& toc.0 is Some
            &&& full_assets(data, toc.0->0, toc.1, toc.2, order, (toc.0->0).len() as int) == spec_read_full(
                data,
                order,
                Endian::Little,
            )
        }),
{
    reveal(spec_full_toc);
}

proof fn lemma_asset_toc_parts(data: Seq<u8>, id: u128, order: Endian)
    requires
        spec_pack_tocc(data, order) is Ok,
        tocc_walk((spec_pack_tocc(data, order)->Ok_0).2, order).1,
        fold_chunks(tocc_walk((spec_pack_tocc(data, order)->Ok_0).2, order).0, asset_init(), asset_stepper(id, order))
            is Ok,
    ensures
        spec_asset_toc(data, id, order) == fold_chunks(
            tocc_walk((spec_pack_tocc(data, order)->Ok_0).2, order).0,
            asset_init(),
            asset_stepper(id, order),
        ),
{
    reveal(spec_asset_toc);
}

proof fn lemma_read_asset_parts(data: Seq<u8>, id: u128, order: Endian, st: AssetState, x: AssetDirectoryEntry, mode: u32, bytes: Seq<u8>)
    requires
        spec_asset_toc(data, id, order) == Ok::<_, FormatError>(st),
        st.0 == Some(x),
        spec_asset_data(data, x, order) == Ok::<_, FormatError>((mode, bytes)),
    ensures
        spec_read_asset(data, id, order) == Ok::<_, FormatError>(
            bytes + spec_foot((AssetInfo { id, compression_mode: mode, orig_offset: x.offset }), st.1, st.2, order),
        ),
{
}

/// Extracting asset `id` gives the bytes that reading the whole package (tables
/// little-endian) gives for the first directory entry of `id`, followed by a footer
/// form that carries that entry's asset information (its ID, compression mode and
/// original offset), where every directory chunk of the package lists `id`.
#[verifier::spinoff_prover]
pub proof fn lemma_read_asset_matches_read_full(data: Seq<u8>, id: u128, order: Endian, k: int)
    requires
        spec_read_full(data, order, Endian::Little) is Ok,
        0 <= k < spec_read_full(data, order, Endian::Little)->Ok_0.len(),
        spec_read_full(data, order, Endian::Little)->Ok_0[k].0 == id,
        forall|j: int| 0 <= j < k ==> (#[trigger] spec_read_full(data, order, Endian::Little)->Ok_0[j]).0 != id,
        spec_pack_tocc(data, order) matches Ok((_, _, body)) ==> directories_list(tocc_walk(body, order).0, id, order),
    ensures
        ({
            let asset = spec_read_full(data, order, Endian::Little)->Ok_0[k];
            &&& asset.5.id == id
            &&& spec_read_asset(data, id, order) matches Ok(out) && out.len() >= asset.3.len()
                && out.take(asset.3.len() as int) == asset.3
                && exists|m: Option<Seq<u8>>, n: Option<Seq<u8>>| out == asset.3 + #[trigger] spec_foot(asset.5, m, n, order)
        }),
{
    let p = spec_read_full(data, order, Endian::Little)->Ok_0;
    lemma_full_parts(data, order);
    let body = (spec_pack_tocc(data, order)->Ok_0).2;
    let chunks = tocc_walk(body, order).0;
    let toc = spec_full_toc(data, order, Endian::Little)->Ok_0;
    let a = toc.0->0;
    lemma_tocs_agree(chunks, id, order);
    lemma_full_assets_entries(data, a, toc.1, toc.2, order, a.len() as int);
    assert forall|j: int| 0 <= j < k implies (#[trigger] a[j]).asset_id != id by {
        assert(p[j].0 == a[j].asset_id);
    }
    lemma_find_entry_first(a, id, k);
    let st = fold_chunks(chunks, asset_init(), asset_stepper(id, order))->Ok_0;
    lemma_asset_toc_parts(data, id, order);
    let mode = p[k].5.compression_mode;
    let bytes = p[k].3;
    lemma_read_asset_parts(data, id, order, st, a[k], mode, bytes);
    let foot = spec_foot((AssetInfo { id, compression_mode: mode, orig_offset: a[k].offset }), st.1, st.2, order);
    assert((bytes + foot).take(bytes.len() as int) =~= bytes);
    assert(p[k].5 == (AssetInfo { id, compression_mode: mode, orig_offset: a[k].offset }));
    assert(spec_read_asset(data, id, order)->Ok_0 == bytes + spec_foot(p[k].5, st.1, st.2, order));
}

/// A resource that is exactly one form, followed by `f`, reads as that form with `f`
/// after it.
#[verifier::spinoff_prover]
proof fn lemma_form_then(b: Seq<u8>, f: Seq<u8>, order: Endian)
    requires
        form_fits(b, order),
        spec_form_slice(b, order) matches Ok((_, _, r)) && r.len() == 0,
    ensures
        form_fits(b + f, order),
        spec_form_slice(b + f, order) matches Ok((_, _, r)) && r == f,
{
    let s = b + f;
    assert forall|k: int| 0 <= k < 32 implies #[trigger] s[k] == b[k] by {}
    assert(s.subrange(0, 32) =~= b.subrange(0, 32));
    assert(spec_form_header(s, order) == spec_form_header(b, order));
    let h = spec_form_header(b, order);
    assert(spec_form_end(h) == b.len());
    assert(s.subrange(spec_form_end(h), s.len() as int) =~= f);
}

#[verifier::spinoff_prover]
proof fn lemma_foot_form(info: AssetInfo, m: Option<Seq<u8>>, n: Option<Seq<u8>>, order: Endian)
    requires
        spec_foot_data(info, m, n, order).len() <= u64::MAX,
    ensures
        ({
            let body = spec_foot_data(info, m, n, order);
            let f = spec_foot(info, m, n, order);
            &&& form_fits(f, order)
            &&& spec_form_slice(f, order) matches Ok((h, fb, r)) && fb == body && r.len() == 0 && four_cc_value(h.id.0)
                == K_FORM_FOOT && h.reader_version == 1 && h.writer_version == 1
        }),
{
    let body = spec_foot_data(info, m, n, order);
    let fh = with_size(foot_form(), body.len() as int);
    let f = spec_form_header_bytes(fh, order) + body;
    lemma_four_cc_value_of_from_u32(K_CHUNK_RFRM);
    lemma_four_cc_value_of_from_u32(K_FORM_FOOT);
    lemma_form_write_slice(fh, body, Seq::<u8>::empty(), order);
    assert(spec_form_header_bytes(fh, order) + body + Seq::<u8>::empty() =~= f);
}

#[verifier::spinoff_prover]
#[verifier::rlimit(40)]
proof fn lemma_foot_body_ainf(info: AssetInfo, m: Option<Seq<u8>>, n: Option<Seq<u8>>, order: Endian)
    ensures
        chunks_fit_until(spec_foot_data(info, m, n, order), order, K_CHUNK_AINF),
        spec_locate_chunk(spec_foot_data(info, m, n, order), order, K_CHUNK_AINF) == Ok::<_, FormatError>(
            spec_asset_info_bytes(info),
        ),
{
    let body = spec_foot_data(info, m, n, order);
    let ib = spec_asset_info_bytes(info);
    let parts = (match m {
        Some(x) => spec_chunk_bytes(plain_chunk(crate::format::foot::K_CHUNK_META), x, order),
        None => Seq::empty(),
    }) + (match n {
        Some(x) => spec_chunk_bytes(plain_chunk(K_CHUNK_NAME), x, order),
        None => Seq::empty(),
    });
    assert(body =~= spec_chunk_bytes(plain_chunk(K_CHUNK_AINF), ib, order) + parts);
    lemma_chunk_write_slice(plain_chunk(K_CHUNK_AINF), ib, parts, order);
    lemma_four_cc_value_of_from_u32(K_CHUNK_AINF);
}

#[verifier::spinoff_prover]
proof fn lemma_info_bytes_id(info: AssetInfo)
    ensures
        spec_asset_info_bytes(info).len() == 28,
        spec_uuid_at(spec_asset_info_bytes(info), 0, Endian::Little) == info.id,
{
    let ib = spec_asset_info_bytes(info);
    let idb = spec_be_bytes(info.id as int);
    assert(ib.subrange(0, 16) =~= spec_uuid_le_order(idb));
    assert(spec_uuid_le_order(spec_uuid_le_order(idb)) =~= idb);
    crate::format::asset_file::lemma_be_round_trip(info.id as int);
}

proof fn lemma_foot_search(s: Seq<u8>, b: Seq<u8>, f: Seq<u8>, body: Seq<u8>, ib: Seq<u8>, id: u128, order: Endian)
    requires
        s == b + f,
        form_fits(b + f, order),
        spec_form_slice(b + f, order) matches Ok((_, _, r)) && r == f,
        form_fits(f, order),
        spec_form_slice(f, order) matches Ok((h, fb, r)) && fb == body && r.len() == 0 && four_cc_value(h.id.0)
            == K_FORM_FOOT && h.reader_version == 1 && h.writer_version == 1,
        chunks_fit_until(body, order, K_CHUNK_AINF),
        spec_locate_chunk(body, order, K_CHUNK_AINF) == Ok::<_, FormatError>(ib),
        ib.len() == 28,
        spec_uuid_at(ib, 0, Endian::Little) == id,
    ensures
        foot_fits(s, order, K_CHUNK_AINF),
        spec_asset_id_in_foot(s, order) == Ok::<u128, FormatError>(id),
{
}

/// The footer that extraction appends after a resource that is exactly one form
/// holds the asset's ID where a search for it looks, and every form and chunk that
/// the search reads lies inside the bytes.
#[verifier::spinoff_prover]
pub proof fn lemma_foot_holds_id(b: Seq<u8>, info: AssetInfo, m: Option<Seq<u8>>, n: Option<Seq<u8>>, order: Endian)
    requires
        form_fits(b, order),
        spec_form_slice(b, order) matches Ok((_, _, r)) && r.len() == 0,
        spec_foot_data(info, m, n, order).len() <= u64::MAX,
    ensures
        foot_fits(b + spec_foot(info, m, n, order), order, K_CHUNK_AINF),
        spec_asset_id_in_foot(b + spec_foot(info, m, n, order), order) == Ok::<u128, FormatError>(info.id),
{
    let f = spec_foot(info, m, n, order);
    lemma_form_then(b, f, order);
    lemma_foot_form(info, m, n, order);
    lemma_foot_body_ainf(info, m, n, order);
    lemma_info_bytes_id(info);
    lemma_foot_search(b + f, b, f, spec_foot_data(info, m, n, order), spec_asset_info_bytes(info), info.id, order);
}

/// Where the asset that extraction gives is exactly one form, the footer after it
/// holds the asset's ID: a search for the asset information chunk reads inside the
/// bytes and finds `id` (see `lemma_read_asset_matches_read_full` for the premises).
#[verifier::spinoff_prover]
pub proof fn lemma_read_asset_footer_holds_id(data: Seq<u8>, id: u128, order: Endian, k: int)
    requires
        spec_read_full(data, order, Endian::Little) is Ok,
        0 <= k < spec_read_full(data, order, Endian::Little)->Ok_0.len(),
        spec_read_full(data, order, Endian::Little)->Ok_0[k].0 == id,
        forall|j: int| 0 <= j < k ==> (#[trigger] spec_read_full(data, order, Endian::Little)->Ok_0[j]).0 != id,
        spec_pack_tocc(data, order) matches Ok((_, _, body)) ==> directories_list(tocc_walk(body, order).0, id, order),
        form_fits(spec_read_full(data, order, Endian::Little)->Ok_0[k].3, order),
        spec_form_slice(spec_read_full(data, order, Endian::Little)->Ok_0[k].3, order) matches Ok((_, _, r))
            && r.len() == 0,
        spec_read_asset(data, id, order) matches Ok(out) ==> out.len() <= u64::MAX,
    ensures
        spec_read_asset(data, id, order) matches Ok(out) && foot_fits(out, order, K_CHUNK_AINF)
            && spec_asset_id_in_foot(out, order) == Ok::<u128, FormatError>(id),
{
    lemma_read_asset_matches_read_full(data, id, order, k);
    let asset = spec_read_full(data, order, Endian::Little)->Ok_0[k];
    let out = spec_read_asset(data, id, order)->Ok_0;
    let (m, n) = choose|m: Option<Seq<u8>>, n: Option<Seq<u8>>| out == asset.3 + #[trigger] spec_foot(asset.5, m, n, order);
    assert(out == asset.3 + spec_foot(asset.5, m, n, order));
    assert(spec_foot_data(asset.5, m, n, order).len() <= out.len());
    lemma_foot_holds_id(asset.3, asset.5, m, n, order);
}

/// Whether every chunk of the table of contents `s` lies inside it (see `tocc_fits`).
fn tocc_fits_check(s: &[u8], e: Endian) -> (r: bool)
    ensures
        r == tocc_fits(s@, e),
{
    let mut rest = s;
    while rest.len() >= CHUNK_HEADER_SIZE
        invariant
            tocc_fits(s@, e) == tocc_fits(rest@, e),
        decreases rest@.len(),
    {
        proof {
            reveal(tocc_fits);
        }
        if !chunk_fits_check(rest, e) {
            return false;
        }
        let (_, _, remain) = match ChunkDescriptor::slice(rest, e) {
            Ok(x) => x,
            Err(_) => {
                return false;
            },
        };
        rest = remain;
    }
    proof {
        reveal(tocc_fits);
    }
    true
}

/// Whether every entry of the metadata table in `body` lies inside it (see
/// `meta_entry_fits`); true where there is no table.
fn meta_entries_fit_check(body: &[u8], e: Endian) -> (r: bool)
    ensures
        r == match spec_meta_table(body@, e) {
            Some(t) => forall|j: int| 0 <= j < t.len() ==> meta_entry_fits(body@, #[trigger] t[j]),
            None => true,
        },
{
    let t = match read_meta_table(body, e) {
        Some(t) => t,
        None => {
            return true;
        },
    };
    let n = t.len();
    let mut j: usize = 0;
    while j < n
        invariant
            n == t@.len(),
            j <= n,
            spec_meta_table(body@, e) == Some(t@),
            forall|i: int| 0 <= i < j ==> meta_entry_fits(body@, #[trigger] t@[i]),
        decreases n - j,
    {
        let x = t[j];
        let off = x.offset as usize;
        if body.len() < 4 || off > body.len() - 4 {
            assert(!meta_entry_fits(body@, t@[j as int]));
            assert(!(forall|i: int| 0 <= i < t@.len() ==> meta_entry_fits(body@, #[trigger] t@[i])));
            let ghost tt = spec_meta_table(body@, e)->Some_0;
            assert(tt == t@);
            assert(tt[j as int] == t@[j as int]);
            return false;
        }
        let size = read_u32(body, off, Endian::Little).unwrap() as u64;
        let end: u64 = off as u64 + 4 + size;
        if end > 0xFFFF_FFFF || end > body.len() as u64 {
            assert(!meta_entry_fits(body@, t@[j as int]));
            assert(!(forall|i: int| 0 <= i < t@.len() ==> meta_entry_fits(body@, #[trigger] t@[i])));
            let ghost tt = spec_meta_table(body@, e)->Some_0;
            assert(tt == t@);
            assert(tt[j as int] == t@[j as int]);
            return false;
        }
        j = j + 1;
    }
    true
}

proof fn lemma_meta_chunks_fit_after_err(
    prefix: Seq<(u32, Seq<u8>)>,
    suffix: Seq<(u32, Seq<u8>)>,
    order: Endian,
    e: Endian,
)
    requires
        meta_chunks_fit(prefix, order, e),
        fold_chunks(prefix, full_init(), full_stepper(order, e)) is Err,
    ensures
        meta_chunks_fit(prefix + suffix, order, e),
    decreases suffix.len(),
{
    if suffix.len() == 0 {
        assert(prefix + suffix =~= prefix);
    } else {
        lemma_meta_chunks_fit_after_err(prefix, suffix.drop_last(), order, e);
        assert((prefix + suffix).drop_last() =~= prefix + suffix.drop_last());
        lemma_fold_err(prefix, suffix.drop_last(), full_init(), full_stepper(order, e));
    }
}

/// Reads the table of contents for the whole package (as `full_toc`), telling first
/// whether the metadata of every table it reaches lies inside its chunk: `None`
/// where some does not.
fn full_toc_checked(data: &[u8], order: Endian, e: Endian) -> (r: Option<
    Result<(Option<Vec<AssetDirectoryEntry>>, Vec<(u128, Vec<u8>)>, Vec<(u128, String)>), FormatError>,
>)
    requires
        package_fits(data@, order),
    ensures
        r is Some <==> (spec_pack_tocc(data@, order) matches Ok((_, _, b)) ==> meta_chunks_fit(
            tocc_walk(b, order).0,
            order,
            e,
        )),
        r matches Some(res) ==> match (res, spec_full_toc(data@, order, e)) {
            (Ok((a, m, n)), Ok(st)) => st == (adir_view(a), metas_view(m@), names_view(n@)),
            (Err(x), Err(y)) => x == y,
            _ => false,
        },
{
    reveal(spec_full_toc);
    let (_, _, tocc_body) = match pack_tocc(data, order) {
        Ok(x) => x,
        Err(x) => {
            return Some(Err(x));
        },
    };
    let mut tocc_data = tocc_body;
    let ghost all = tocc_walk(tocc_body@, order);
    let ghost step = full_stepper(order, e);
    let ghost init = full_init();
    let ghost mut done: Seq<(u32, Seq<u8>)> = Seq::empty();
    let mut adir: Option<Vec<AssetDirectoryEntry>> = None;
    let mut metas: Vec<(u128, Vec<u8>)> = Vec::new();
    let mut names: Vec<(u128, String)> = Vec::new();
    proof {
        assert(done + all.0 =~= all.0);
        assert(names_view(names@) =~= Seq::<(u128, Seq<char>)>::empty());
        assert(metas_view(metas@) =~= Seq::<(u128, Seq<u8>)>::empty());
    }
    while tocc_data.len() > 0
        invariant
            spec_pack_tocc(data@, order) matches Ok((_, _, b)) && b == tocc_body@,
            all == tocc_walk(tocc_body@, order),
            meta_chunks_fit(done, order, e),
            tocc_fits(tocc_data@, order),
            all.0 == done + tocc_walk(tocc_data@, order).0,
            all.1 == tocc_walk(tocc_data@, order).1,
            fold_chunks(done, init, step) == Ok::<FullState, FormatError>(
                (adir_view(adir), metas_view(metas@), names_view(names@)),
            ),
            step == full_stepper(order, e),
            init == full_init(),
        decreases tocc_data@.len(),
    {
        if tocc_data.len() < CHUNK_HEADER_SIZE {
            proof {
                reveal(spec_full_toc);
                lemma_walk_short(tocc_data@, order);
                assert(done + Seq::<(u32, Seq<u8>)>::empty() =~= done);
            }
            return Some(Err(FormatError::InvalidChunkHeader));
        }
        proof {
            lemma_walk_step(tocc_data@, order);
        }
        let (desc, chunk_data, remain) = match ChunkDescriptor::slice(tocc_data, order) {
            Ok(x) => x,
            Err(x) => {
                return Some(Err(x));
            },
        };
        let id = desc.id.as_u32();
        let ghost c = (id, chunk_data@);
        let ghost rest_walk = tocc_walk(remain@, order);
        proof {
            assert(tocc_walk(tocc_data@, order).0 == seq![c] + rest_walk.0);
            assert(all.0 =~= done.push(c) + rest_walk.0);
            lemma_fold_push(done, c, init, step);
            assert(done.push(c).drop_last() =~= done);
            assert(done.push(c).last() == c);
        }
        if id == K_CHUNK_META && !meta_entries_fit_check(chunk_data, e) {
            proof {
                assert(!meta_chunks_fit(done.push(c), order, e));
                if meta_chunks_fit(all.0, order, e) {
                    lemma_meta_chunks_fit_prefix(done.push(c), rest_walk.0, order, e);
                }
            }
            return None;
        }
        assert(meta_chunks_fit(done.push(c), order, e));
        match full_chunk(id, chunk_data, order, e, &mut adir, &mut metas, &mut names) {
            Ok(()) => {},
            Err(x) => {
                proof {
                    reveal(spec_full_toc);
                    lemma_fold_err(done.push(c), rest_walk.0, init, step);
                    lemma_meta_chunks_fit_after_err(done.push(c), rest_walk.0, order, e);
                }
                return Some(Err(x));
            },
        }
        proof {
            done = done.push(c);
        }
        tocc_data = remain;
    }
    proof {
        lemma_walk_empty(tocc_data@, order);
        assert(done + Seq::<(u32, Seq<u8>)>::empty() =~= done);
    }
    Some(Ok((adir, metas, names)))
}

/// Whether the asset of directory entry `x` lies inside the package and expands
/// within the machine's sizes into a form that lies inside its bytes (see
/// `asset_data_fits`).
fn asset_data_fits_check(data: &[u8], x: &AssetDirectoryEntry, order: Endian) -> (r: bool)
    ensures
        r == asset_data_fits(data@, *x, order),
{
    if x.offset > 0xFFFF_FFFF_FFFF_FFFFu64 - x.size {
        return false;
    }
    let end: u64 = x.offset + x.size;
    if end > data.len() as u64 {
        return false;
    }
    let stored = &data[x.offset as usize..end as usize];
    assert(stored@ == stored_data(data@, *x));
    let bytes: Vec<u8> = if x.size != x.decompressed_size {
        if x.decompressed_size > usize::MAX as u64 {
            return false;
        }
        let ex = expand_check(stored, x.decompressed_size as usize);
        assert(zeros(x.decompressed_size as int).len() == x.decompressed_size);
        if ex.is_none() {
            assert(!fits(stored@, zeros(x.decompressed_size as int)));
            return false;
        }
        match decompress_buffer(stored, x.decompressed_size) {
            Ok((_, b)) => b,
            Err(_) => {
                return true;
            },
        }
    } else {
        vstd::slice::slice_to_vec(stored)
    };
    if !form_fits_check(bytes.as_slice(), order) {
        return false;
    }
    match FormDescriptor::slice(bytes.as_slice(), order) {
        Ok((form, _, _)) => form.size <= 0xFFFF_FFFF_FFFF_FFFFu64 - 32,
        Err(_) => true,
    }
}

proof fn lemma_full_assets_err_from(
    data: Seq<u8>,
    a: Seq<AssetDirectoryEntry>,
    metas: Seq<(u128, Seq<u8>)>,
    names: Seq<(u128, Seq<char>)>,
    order: Endian,
    k: int,
    j: int,
)
    requires
        k <= j,
        full_assets(data, a, metas, names, order, k) is Err,
    ensures
        full_assets(data, a, metas, names, order, j) is Err,
    decreases j - k,
{
    if k < j {
        lemma_full_assets_err_from(data, a, metas, names, order, k, j - 1);
    }
}

/// Whether every asset of the directory `a` that reading the whole package reaches
/// lies inside it and expands into a form inside its bytes.
fn assets_fit_check(
    data: &[u8],
    a: &Vec<AssetDirectoryEntry>,
    metas: &Vec<(u128, Vec<u8>)>,
    names: &Vec<(u128, String)>,
    order: Endian,
) -> (r: bool)
    ensures
        r == (forall|j: int|
            0 <= j < a@.len() && #[trigger] full_assets(
                data@,
                a@,
                metas_view(metas@),
                names_view(names@),
                order,
                j,
            ) is Ok ==> asset_data_fits(data@, a@[j], order)),
{
    let ghost mv = metas_view(metas@);
    let ghost nv = names_view(names@);
    let n = a.len();
    let mut k: usize = 0;
    while k < n
        invariant
            n == a@.len(),
            k <= n,
            mv == metas_view(metas@),
            nv == names_view(names@),
            full_assets(data@, a@, mv, nv, order, k as int) is Ok,
            forall|j: int|
                0 <= j < k && #[trigger] full_assets(data@, a@, mv, nv, order, j) is Ok
                    ==> asset_data_fits(data@, a@[j], order),
        decreases n - k,
    {
        if !asset_data_fits_check(data, &a[k], order) {
            return false;
        }
        match asset_data(data, &a[k], order) {
            Ok(_) => {},
            Err(_) => {
                proof {
                    assert forall|j: int|
                        0 <= j < a@.len() && #[trigger] full_assets(data@, a@, mv, nv, order, j) is Ok
                            implies asset_data_fits(data@, a@[j], order) by {
                        if j > k {
                            lemma_full_assets_err_from(data@, a@, mv, nv, order, k + 1, j);
                        }
                    }
                }
                return true;
            },
        }
        k = k + 1;
    }
    true
}

/// Whether reading the whole package `data` runs off no slice and no fixed-width sum
/// (see `full_fits`).
pub fn full_fits_check(data: &[u8], order: Endian, e: Endian) -> (r: bool)
    ensures
        r == full_fits(data@, order, e),
{
    if !form_fits_check(data, order) {
        return false;
    }
    match FormDescriptor::slice(data, order) {
        Ok((_, pb, _)) => {
            if !form_fits_check(pb, order) {
                return false;
            }
        },
        Err(_) => {},
    }
    assert(pack_fits(data@, order));
    let body = match pack_tocc(data, order) {
        Ok((_, _, b)) => b,
        Err(_) => {
            proof {
                reveal(spec_full_toc);
            }
            return true;
        },
    };
    if !tocc_fits_check(body, order) {
        return false;
    }
    let toc = match full_toc_checked(data, order, e) {
        Some(t) => t,
        None => {
            return false;
        },
    };
    let (adir, metas, names) = match toc {
        Ok(t) => t,
        Err(_) => {
            return true;
        },
    };
    let a = match adir {
        Some(a) => a,
        None => {
            return true;
        },
    };
    assets_fit_check(data, &a, &metas, &names, order)
}

} // verus!

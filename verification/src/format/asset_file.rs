//! Single-asset files: an asset's form followed by a footer form (FOOT) that keeps
//! what the package knew of it: its information, metadata and names. Extracting a
//! package writes them; packaging reads them back.
use vstd::prelude::*;
use vstd::utf8::{decode_utf8, encode_utf8, valid_utf8};
use vstd::arithmetic::power::{pow, lemma_pow_positive};
use vstd::arithmetic::div_mod::{lemma_div_denominator, lemma_fundamental_div_mod};
use crate::format::{FormatError, FourCC, four_cc_value, spec_four_cc_from_u32, spec_utf8, string_from_utf8};
use crate::format::chunk::{ChunkDescriptor, chunk_fits, chunk_fits_check, spec_chunk_bytes, spec_chunk_header, spec_chunk_slice};
use crate::format::foot::{K_CHUNK_AINF, K_CHUNK_META, K_CHUNK_NAME, K_FORM_FOOT};
use crate::format::pack::{
    Asset, AssetInfo, spec_asset_info_bytes, spec_be_bytes, spec_be_value, spec_uuid_at, spec_uuid_le_order,
    read_uuid, uuid_to_bytes_le,
};
use crate::format::lemma_four_cc_value_of_from_u32;
use crate::format::chunk::lemma_chunk_write_slice;
use crate::format::rfrm::{lemma_form_write_slice, spec_form_header, spec_form_header_bytes, with_size};
use crate::util::write::{lemma_u32_bytes_round_trip, lemma_u64_bytes_round_trip, spec_u32_bytes, spec_u64_bytes};
use crate::format::pack_write::{form_bytes, versioned_form};
use crate::format::rfrm::{FormDescriptor, form_fits, form_fits_check, spec_form_slice};
use crate::util::read::{Endian, read_u32, read_u64, spec_u32, spec_u64};
use crate::util::write::{push_bytes, push_u32, push_u64};

verus! {

/// A footer chunk header with the code `id`, every other field zero.
pub open spec fn foot_chunk(id: u32) -> ChunkDescriptor {
    ChunkDescriptor { id: spec_four_cc_from_u32(id), size: 0, unk: 0, skip: 0 }
}

/// The name chunks of the first `k` names of `a`.
pub open spec fn name_chunks(a: Asset, k: int) -> Seq<u8>
    decreases k,
{
    if k <= 0 {
        Seq::empty()
    } else {
        name_chunks(a, k - 1) + spec_chunk_bytes(
            foot_chunk(K_CHUNK_NAME),
            encode_utf8(a.names[k - 1]@),
            Endian::Little,
        )
    }
}

/// The footer's data: the information chunk, the metadata chunk when the asset has
/// metadata, then one name chunk per name.
pub open spec fn foot_data(a: Asset) -> Seq<u8> {
    spec_chunk_bytes(foot_chunk(K_CHUNK_AINF), spec_asset_info_bytes(a.info), Endian::Little) + match a.meta {
        Some(m) => spec_chunk_bytes(foot_chunk(K_CHUNK_META), m@, Endian::Little),
        None => Seq::empty(),
    } + name_chunks(a, a.names.len() as int)
}

/// The file of an extracted asset: its data, then the footer form (little-endian,
/// versions 1 and 1).
pub open spec fn spec_asset_file(a: Asset) -> Seq<u8> {
    a.data@ + form_bytes(versioned_form(K_FORM_FOOT, 1), foot_data(a), Endian::Little)
}

fn push_chunk(out: &mut Vec<u8>, id: u32, body: &[u8])
    ensures
        final(out)@ == old(out)@ + spec_chunk_bytes(foot_chunk(id), body@, Endian::Little),
{
    let desc = ChunkDescriptor { id: FourCC::from_u32(id), size: 0, unk: 0, skip: 0 };
    desc.write(out, body, Endian::Little);
}

/// The bytes of the file that extracting `asset` writes (see `spec_asset_file`).
pub fn asset_file_bytes(asset: &Asset) -> (r: Vec<u8>)
    ensures
        r@ == spec_asset_file(*asset),
{
    let mut ainf: Vec<u8> = Vec::new();
    let idb = uuid_to_bytes_le(asset.info.id);
    push_bytes(&mut ainf, &idb);
    push_u32(&mut ainf, asset.info.compression_mode, Endian::Little);
    push_u64(&mut ainf, asset.info.orig_offset, Endian::Little);
    assert(ainf@ =~= spec_asset_info_bytes(asset.info));
    let mut body: Vec<u8> = Vec::new();
    push_chunk(&mut body, K_CHUNK_AINF, ainf.as_slice());
    match &asset.meta {
        Some(m) => push_chunk(&mut body, K_CHUNK_META, m.as_slice()),
        None => {},
    }
    let ghost head = body@;
    let mut k: usize = 0;
    while k < asset.names.len()
        invariant
            k <= asset.names@.len(),
            body@ == head + name_chunks(*asset, k as int),
        decreases asset.names.len() - k,
    {
        let name = asset.names[k].as_str().as_bytes();
        push_chunk(&mut body, K_CHUNK_NAME, name);
        assert(body@ =~= head + name_chunks(*asset, k + 1));
        k = k + 1;
    }
    assert(body@ =~= foot_data(*asset));
    let mut out: Vec<u8> = Vec::new();
    push_bytes(&mut out, asset.data.as_slice());
    let foot = FormDescriptor {
        magic: FourCC::from_u32(crate::format::rfrm::K_CHUNK_RFRM),
        size: 0,
        unk: 0,
        id: FourCC::from_u32(K_FORM_FOOT),
        reader_version: 1,
        writer_version: 1,
    };
    foot.write(&mut out, body.as_slice(), Endian::Little);
    out
}

/// What reading the footer's chunks has found: the last asset information and the
/// last metadata, and the names in order.
pub type FootState = (Option<AssetInfo>, Option<Seq<u8>>, Seq<Seq<char>>);

/// What one footer chunk with code `id` and data `body` contributes: asset
/// information (which needs 28 bytes), metadata, or a name (which must be UTF-8);
/// other chunks contribute nothing.
#[verifier::opaque]
pub open spec fn foot_chunk_value(id: u32, body: Seq<u8>) -> Result<
    (Option<AssetInfo>, Option<Seq<u8>>, Option<Seq<char>>),
    FormatError,
> {
    if id == K_CHUNK_AINF {
        if body.len() < 28 {
            Err(FormatError::InvalidData)
        } else {
            Ok(
                (
                    Some(
                        AssetInfo {
                            id: spec_uuid_at(body, 0, Endian::Little),
                            compression_mode: spec_u32(body, 16, Endian::Little) as u32,
                            orig_offset: spec_u64(body, 20, Endian::Little) as u64,
                        },
                    ),
                    None,
                    None,
                ),
            )
        }
    } else if id == K_CHUNK_META {
        Ok((None, Some(body), None))
    } else if id == K_CHUNK_NAME {
        match spec_utf8(body) {
            Some(n) => Ok((None, None, Some(n))),
            None => Err(FormatError::InvalidData),
        }
    } else {
        Ok((None, None, None))
    }
}

/// The state after a chunk's contribution `c`.
pub open spec fn foot_step(st: FootState, c: (Option<AssetInfo>, Option<Seq<u8>>, Option<Seq<char>>)) -> FootState {
    (
        if c.0 is Some {
            c.0
        } else {
            st.0
        },
        if c.1 is Some {
            c.1
        } else {
            st.1
        },
        match c.2 {
            Some(n) => st.2.push(n),
            None => st.2,
        },
    )
}

/// Reads the footer chunks `s` from the state `st`.
#[verifier::opaque]
pub open spec fn foot_walk(s: Seq<u8>, st: FootState) -> Result<FootState, FormatError>
    decreases s.len(),
{
    if s.len() == 0 {
        Ok(st)
    } else {
        match spec_chunk_slice(s, Endian::Little) {
            Err(x) => Err(x),
            Ok((h, body, rest)) => if rest.len() < s.len() {
                match foot_chunk_value(four_cc_value(h.id.0) as u32, body) {
                    Err(x) => Err(x),
                    Ok(c) => foot_walk(rest, foot_step(st, c)),
                }
            } else {
                Err(FormatError::InvalidChunkHeader)
            },
        }
    }
}

proof fn lemma_foot_walk(s: Seq<u8>, st: FootState)
    ensures
        s.len() == 0 ==> foot_walk(s, st) == Ok::<FootState, FormatError>(st),
        s.len() > 0 ==> foot_walk(s, st) == match spec_chunk_slice(s, Endian::Little) {
            Err(x) => Err(x),
            Ok((h, body, rest)) => if rest.len() < s.len() {
                match foot_chunk_value(four_cc_value(h.id.0) as u32, body) {
                    Err(x) => Err(x),
                    Ok(c) => foot_walk(rest, foot_step(st, c)),
                }
            } else {
                Err(FormatError::InvalidChunkHeader)
            },
        },
{
    reveal(foot_walk);
}

proof fn lemma_foot_chunks_fit(s: Seq<u8>)
    ensures
        foot_chunks_fit(s) == (chunk_fits(s, Endian::Little) && (spec_chunk_slice(s, Endian::Little) matches Ok(
            (_, _, rest),
        ) ==> (rest.len() < s.len() ==> foot_chunks_fit(rest)))),
{
    reveal(foot_chunks_fit);
}

/// Reads what one footer chunk contributes (see `foot_chunk_value`).
fn read_foot_chunk(id: u32, chunk: &[u8]) -> (r: Result<(Option<AssetInfo>, Option<Vec<u8>>, Option<String>), FormatError>)
    ensures
        match r {
            Ok((i, m, n)) => foot_chunk_value(id, chunk@) == Ok::<_, FormatError>((i, opt_view(m), match n {
                Some(t) => Some(t@),
                None => None,
            })),
            Err(e) => foot_chunk_value(id, chunk@) == Err::<(Option<AssetInfo>, Option<Seq<u8>>, Option<Seq<char>>), FormatError>(e),
        },
{
    reveal(foot_chunk_value);
    if id == K_CHUNK_AINF {
        if chunk.len() < 28 {
            return Err(FormatError::InvalidData);
        }
        Ok(
            (
                Some(
                    AssetInfo {
                        id: read_uuid(chunk, 0, Endian::Little),
                        compression_mode: read_u32(chunk, 16, Endian::Little).unwrap(),
                        orig_offset: read_u64(chunk, 20, Endian::Little).unwrap(),
                    },
                ),
                None,
                None,
            ),
        )
    } else if id == K_CHUNK_META {
        Ok((None, Some(vstd::slice::slice_to_vec(chunk)), None))
    } else if id == K_CHUNK_NAME {
        match string_from_utf8(vstd::slice::slice_to_vec(chunk)) {
            Some(n) => Ok((None, None, Some(n))),
            None => Err(FormatError::InvalidData),
        }
    } else {
        Ok((None, None, None))
    }
}

/// Every chunk that reading the footer chunks `s` reaches lies inside its bytes.
#[verifier::opaque]
pub open spec fn foot_chunks_fit(s: Seq<u8>) -> bool
    decreases s.len(),
{
    &&& chunk_fits(s, Endian::Little)
    &&& (spec_chunk_slice(s, Endian::Little) matches Ok((_, _, rest)) ==> (rest.len() < s.len()
        ==> foot_chunks_fit(rest)))
}

/// The asset that an extracted asset file `data` holds: its form (kind and versions
/// from the form's header) and, from the footer that follows, its information,
/// metadata and names; its ID is the one of the information.
pub open spec fn spec_asset_from_file(data: Seq<u8>) -> Result<
    (u128, FourCC, Seq<Seq<char>>, Seq<u8>, Option<Seq<u8>>, AssetInfo, u32, u32),
    FormatError,
> {
    match spec_form_slice(data, Endian::Little) {
        Err(x) => Err(x),
        Ok((form, _, rest)) => match spec_form_slice(rest, Endian::Little) {
            Err(x) => Err(x),
            Ok((foot, body, _)) => if four_cc_value(foot.id.0) != K_FORM_FOOT || foot.reader_version
                != 1 {
                Err(FormatError::UnexpectedForm)
            } else {
                match foot_walk(body, (None, None, Seq::empty())) {
                    Err(x) => Err(x),
                    Ok((info, meta, names)) => match info {
                        None => Err(FormatError::MissingChunk(K_CHUNK_AINF)),
                        Some(i) => Ok(
                            (
                                i.id,
                                form.id,
                                names,
                                data.subrange(0, data.len() - rest.len()),
                                meta,
                                i,
                                form.reader_version,
                                form.writer_version,
                            ),
                        ),
                    },
                }
            },
        },
    }
}

/// Both forms of `data`, and the chunks of its footer, lie inside their bytes.
pub open spec fn asset_file_fits(data: Seq<u8>) -> bool {
    &&& form_fits(data, Endian::Little)
    &&& (spec_form_slice(data, Endian::Little) matches Ok((_, _, rest)) ==> form_fits(
        rest,
        Endian::Little,
    ))
    &&& (spec_form_slice(data, Endian::Little) matches Ok((_, _, rest)) ==> (spec_form_slice(
        rest,
        Endian::Little,
    ) matches Ok((_, body, _)) ==> foot_chunks_fit(body)))
}

pub open spec fn names_view(v: Seq<String>) -> Seq<Seq<char>> {
    v.map_values(|s: String| s@)
}

pub open spec fn opt_view(o: Option<Vec<u8>>) -> Option<Seq<u8>> {
    match o {
        Some(v) => Some(v@),
        None => None,
    }
}

/// The value of an asset.
pub open spec fn asset_model(a: Asset) -> (u128, FourCC, Seq<Seq<char>>, Seq<u8>, Option<Seq<u8>>, AssetInfo, u32, u32) {
    (a.id, a.kind, names_view(a.names@), a.data@, opt_view(a.meta), a.info, a.version, a.other_version)
}

pub open spec fn asset_result_view(r: Result<Asset, FormatError>) -> Result<
    (u128, FourCC, Seq<Seq<char>>, Seq<u8>, Option<Seq<u8>>, AssetInfo, u32, u32),
    FormatError,
> {
    match r {
        Ok(a) => Ok(asset_model(a)),
        Err(e) => Err(e),
    }
}

pub open spec fn foot_view(r: Result<(Option<AssetInfo>, Option<Vec<u8>>, Vec<String>), FormatError>) -> Result<
    FootState,
    FormatError,
> {
    match r {
        Ok((i, m, n)) => Ok((i, opt_view(m), names_view(n@))),
        Err(e) => Err(e),
    }
}

/// Reads the footer chunks `body` (see `foot_walk`).
fn read_foot(body: &[u8]) -> (r: Result<(Option<AssetInfo>, Option<Vec<u8>>, Vec<String>), FormatError>)
    requires
        foot_chunks_fit(body@),
    ensures
        foot_view(r) == foot_walk(body@, (None, None, Seq::empty())),
{
    let mut info: Option<AssetInfo> = None;
    let mut meta: Option<Vec<u8>> = None;
    let mut names: Vec<String> = Vec::new();
    let mut s = body;
    proof {
        assert(names_view(names@) =~= Seq::<Seq<char>>::empty());
    }
    while s.len() > 0
        invariant
            foot_chunks_fit(s@),
            foot_walk(s@, (info, opt_view(meta), names_view(names@))) == foot_walk(
                body@,
                (None, None, Seq::empty()),
            ),
        decreases s@.len(),
    {
        proof {
            lemma_foot_walk(s@, (info, opt_view(meta), names_view(names@)));
            lemma_foot_chunks_fit(s@);
        }
        let (h, chunk, remain) = ChunkDescriptor::slice(s, Endian::Little)?;
        if remain.len() >= s.len() {
            return Err(FormatError::InvalidChunkHeader);
        }
        let (i, m, n) = read_foot_chunk(h.id.as_u32(), chunk)?;
        if i.is_some() {
            info = i;
        }
        if m.is_some() {
            meta = m;
        }
        match n {
            Some(t) => {
                let ghost before = names@;
                names.push(t);
                proof {
                    assert(names_view(names@) =~= names_view(before).push(t@));
                }
            },
            None => {},
        }
        s = remain;
    }
    proof {
        lemma_foot_walk(s@, (info, opt_view(meta), names_view(names@)));
    }
    Ok((info, meta, names))
}

/// Reads the asset of an extracted asset file (see `spec_asset_from_file`).
pub fn asset_from_file(data: &[u8]) -> (r: Result<Asset, FormatError>)
    requires
        asset_file_fits(data@),
    ensures
        asset_result_view(r) == spec_asset_from_file(data@),
{
    let (form, _, rest) = FormDescriptor::slice(data, Endian::Little)?;
    let (foot, body, _) = FormDescriptor::slice(rest, Endian::Little)?;
    if foot.id.as_u32() != K_FORM_FOOT || foot.reader_version != 1 {
        return Err(FormatError::UnexpectedForm);
    }
    let (info, meta, names) = read_foot(body)?;
    let i = match info {
        Some(i) => i,
        None => {
            return Err(FormatError::MissingChunk(K_CHUNK_AINF));
        },
    };
    let len = data.len() - rest.len();
    Ok(
        Asset {
            id: i.id,
            kind: form.id,
            names,
            data: vstd::slice::slice_to_vec(&data[0..len]),
            meta,
            info: i,
            version: form.reader_version,
            other_version: form.writer_version,
        },
    )
}

/// The first `k` bytes of the big-endian bytes of `v` read back the top of `v`.
proof fn lemma_be_prefix(v: int, k: int)
    requires
        0 <= v < 0x1_0000_0000_0000_0000_0000_0000_0000_0000,
        0 <= k <= 16,
    ensures
        spec_be_value(spec_be_bytes(v).take(k)) == v / pow(256, (16 - k) as nat),
    decreases k,
{
    reveal(pow);
    if k == 0 {
        reveal_with_fuel(pow, 17);
        assert(spec_be_bytes(v).take(0) =~= Seq::<u8>::empty());
        assert(pow(256, 16) == 0x1_0000_0000_0000_0000_0000_0000_0000_0000);
        assert(v / 0x1_0000_0000_0000_0000_0000_0000_0000_0000int == 0);
        assert(spec_be_value(Seq::<u8>::empty()) == 0);
    } else {
        lemma_be_prefix(v, k - 1);
        let b = spec_be_bytes(v);
        assert(b.take(k).drop_last() =~= b.take(k - 1));
        let p = pow(256, (16 - k) as nat);
        lemma_pow_positive(256, (16 - k) as nat);
        assert(pow(256, (16 - (k - 1)) as nat) == 256 * p);
        let q = v / p;
        assert(q >= 0) by (nonlinear_arith)
            requires
                v >= 0,
                p > 0,
                q == v / p,
        ;
        lemma_div_denominator(v, p, 256);
        assert(p * 256 == 256 * p);
        assert(v / pow(256, (16 - (k - 1)) as nat) == q / 256);
        lemma_fundamental_div_mod(q, 256);
        assert(0 <= q % 256 < 256);
        assert(b[k - 1] == (q % 256) as u8);
        assert((q % 256) as u8 == q % 256);
        assert(b.take(k).last() == b[k - 1]);
        assert(spec_be_value(b.take(k)) == spec_be_value(b.take(k - 1)) * 256 + b[k - 1]);
        assert(spec_be_value(b.take(k)) == (q / 256) * 256 + q % 256);
        assert((q / 256) * 256 == 256 * (q / 256));
        assert(spec_be_value(b.take(k)) == q);
    }
}

/// Reading back the big-endian bytes of a 128-bit value gives the value.
pub proof fn lemma_be_round_trip(v: int)
    requires
        0 <= v < 0x1_0000_0000_0000_0000_0000_0000_0000_0000,
    ensures
        spec_be_value(spec_be_bytes(v)) == v,
{
    lemma_be_prefix(v, 16);
    reveal(pow);
    assert(spec_be_bytes(v).take(16) =~= spec_be_bytes(v));
}

/// The information chunk of `info` reads back `info`.
proof fn lemma_info_round_trip(info: AssetInfo)
    ensures
        foot_chunk_value(K_CHUNK_AINF, spec_asset_info_bytes(info)) == Ok::<
            (Option<AssetInfo>, Option<Seq<u8>>, Option<Seq<char>>),
            FormatError,
        >((Some(info), None, None)),
{
    reveal(foot_chunk_value);
    let bytes = spec_asset_info_bytes(info);
    let idb = spec_be_bytes(info.id as int);
    assert(bytes.subrange(0, 16) =~= spec_uuid_le_order(idb));
    assert(spec_uuid_le_order(spec_uuid_le_order(idb)) =~= idb);
    lemma_be_round_trip(info.id as int);
    assert(bytes.subrange(16, 20) =~= spec_u32_bytes(info.compression_mode as int, Endian::Little));
    assert(bytes.subrange(20, 28) =~= spec_u64_bytes(info.orig_offset as int, Endian::Little));
    lemma_u32_bytes_round_trip(info.compression_mode as int, Endian::Little, bytes, 16);
    lemma_u64_bytes_round_trip(info.orig_offset as int, Endian::Little, bytes, 20);
}

/// A chunk read from the start of `x` reads the same from `x` followed by `y`.
proof fn lemma_chunk_prefix(x: Seq<u8>, y: Seq<u8>)
    requires
        x.len() >= 24,
        chunk_fits(x, Endian::Little),
    ensures
        chunk_fits(x + y, Endian::Little),
        spec_chunk_slice(x + y, Endian::Little) == Ok::<(ChunkDescriptor, Seq<u8>, Seq<u8>), FormatError>(
            (
                spec_chunk_slice(x, Endian::Little)->Ok_0.0,
                spec_chunk_slice(x, Endian::Little)->Ok_0.1,
                spec_chunk_slice(x, Endian::Little)->Ok_0.2 + y,
            ),
        ),
{
    let s = x + y;
    assert forall|k: int| 0 <= k < 24 implies #[trigger] s[k] == x[k] by {}
    assert(spec_chunk_header(s, Endian::Little) == spec_chunk_header(x, Endian::Little));
    let h = spec_chunk_header(x, Endian::Little);
    assert(s.subrange(24 + h.skip, 24 + h.skip + h.size) =~= x.subrange(24 + h.skip, 24 + h.skip + h.size));
    assert(s.subrange(24 + h.skip + h.size, s.len() as int) =~= x.subrange(
        24 + h.skip + h.size,
        x.len() as int,
    ) + y);
}

/// Reading chunks `x` then `y` is reading `x` followed by `y`.
proof fn lemma_walk_concat(x: Seq<u8>, y: Seq<u8>, st: FootState, st2: FootState)
    requires
        foot_chunks_fit(x),
        foot_chunks_fit(y),
        foot_walk(x, st) == Ok::<FootState, FormatError>(st2),
    ensures
        foot_chunks_fit(x + y),
        foot_walk(x + y, st) == foot_walk(y, st2),
    decreases x.len(),
{
    lemma_foot_walk(x, st);
    lemma_foot_chunks_fit(x);
    if x.len() == 0 {
        assert(x + y =~= y);
    } else {
        let s = x + y;
        let (h, body, r) = spec_chunk_slice(x, Endian::Little)->Ok_0;
        lemma_chunk_prefix(x, y);
        lemma_foot_walk(s, st);
        lemma_foot_chunks_fit(s);
        match foot_chunk_value(four_cc_value(h.id.0) as u32, body) {
            Ok(c) => {
                lemma_walk_concat(r, y, foot_step(st, c), st2);
            },
            Err(_) => {},
        }
    }
}

/// Reading a single chunk gives its contribution.
proof fn lemma_walk_chunk(id: u32, body: Seq<u8>, st: FootState)
    requires
        body.len() <= u64::MAX,
    ensures
        foot_chunks_fit(spec_chunk_bytes(foot_chunk(id), body, Endian::Little)),
        foot_walk(spec_chunk_bytes(foot_chunk(id), body, Endian::Little), st) == match foot_chunk_value(
            id,
            body,
        ) {
            Ok(c) => Ok(foot_step(st, c)),
            Err(x) => Err::<FootState, FormatError>(x),
        },
{
    let c = spec_chunk_bytes(foot_chunk(id), body, Endian::Little);
    lemma_chunk_write_slice(foot_chunk(id), body, Seq::empty(), Endian::Little);
    assert(c + Seq::<u8>::empty() =~= c);
    lemma_four_cc_value_of_from_u32(id);
    lemma_foot_walk(c, st);
    lemma_foot_chunks_fit(c);
    let e: Seq<u8> = Seq::empty();
    lemma_foot_chunks_fit(e);
    match foot_chunk_value(id, body) {
        Ok(v) => {
            lemma_foot_walk(e, foot_step(st, v));
        },
        Err(_) => {},
    }
}

/// Reading the name chunks of the first `k` names adds those names.
proof fn lemma_walk_names(a: Asset, k: int, st: FootState)
    requires
        0 <= k <= a.names.len(),
        forall|i: int| 0 <= i < a.names.len() ==> encode_utf8(#[trigger] a.names[i]@).len() <= u64::MAX,
    ensures
        foot_chunks_fit(name_chunks(a, k)),
        foot_walk(name_chunks(a, k), st) == Ok::<FootState, FormatError>(
            (st.0, st.1, st.2 + names_view(a.names@).take(k)),
        ),
    decreases k,
{
    reveal(foot_chunk_value);
    if k == 0 {
        let e: Seq<u8> = Seq::empty();
        lemma_foot_chunks_fit(e);
        lemma_foot_walk(e, st);
        assert(st.2 + names_view(a.names@).take(0) =~= st.2);
    } else {
        lemma_walk_names(a, k - 1, st);
        let st1 = (st.0, st.1, st.2 + names_view(a.names@).take(k - 1));
        let n = a.names[k - 1]@;
        let bytes = encode_utf8(n);
        vstd::utf8::encode_utf8_valid_utf8(n);
        vstd::utf8::encode_utf8_decode_utf8(n);
        lemma_walk_chunk(K_CHUNK_NAME, bytes, st1);
        lemma_walk_concat(
            name_chunks(a, k - 1),
            spec_chunk_bytes(foot_chunk(K_CHUNK_NAME), bytes, Endian::Little),
            st,
            st1,
        );
        assert(st1.2.push(n) =~= st.2 + names_view(a.names@).take(k));
    }
}

/// A form read from the start of `x`, which it fills, reads the same from `x`
/// followed by `y`.
proof fn lemma_form_prefix(x: Seq<u8>, y: Seq<u8>)
    requires
        form_fits(x, Endian::Little),
        spec_form_slice(x, Endian::Little) is Ok,
    ensures
        form_fits(x + y, Endian::Little),
        spec_form_slice(x + y, Endian::Little) == Ok::<(FormDescriptor, Seq<u8>, Seq<u8>), FormatError>(
            (
                spec_form_slice(x, Endian::Little)->Ok_0.0,
                spec_form_slice(x, Endian::Little)->Ok_0.1,
                spec_form_slice(x, Endian::Little)->Ok_0.2 + y,
            ),
        ),
{
    let s = x + y;
    assert forall|k: int| 0 <= k < 32 implies #[trigger] s[k] == x[k] by {}
    assert(spec_form_header(s, Endian::Little) == spec_form_header(x, Endian::Little));
    let h = spec_form_header(x, Endian::Little);
    assert(s.subrange(32, 32 + h.size) =~= x.subrange(32, 32 + h.size));
    assert(s.subrange(32 + h.size, s.len() as int) =~= x.subrange(32 + h.size, x.len() as int) + y);
}

/// Reading the footer data of `a` finds its information, metadata and names.
proof fn lemma_foot_data_walk(a: Asset)
    requires
        a.meta matches Some(m) ==> m@.len() <= u64::MAX,
        forall|i: int| 0 <= i < a.names.len() ==> encode_utf8(#[trigger] a.names[i]@).len() <= u64::MAX,
    ensures
        foot_chunks_fit(foot_data(a)),
        foot_walk(foot_data(a), (None, None, Seq::empty())) == Ok::<FootState, FormatError>(
            (Some(a.info), opt_view(a.meta), names_view(a.names@)),
        ),
{
    let fd = foot_data(a);
    let init: FootState = (None, None, Seq::empty());
    let ainf = spec_chunk_bytes(foot_chunk(K_CHUNK_AINF), spec_asset_info_bytes(a.info), Endian::Little);
    lemma_info_round_trip(a.info);
    lemma_walk_chunk(K_CHUNK_AINF, spec_asset_info_bytes(a.info), init);
    let st1: FootState = (Some(a.info), None, Seq::empty());
    let mpart = match a.meta {
        Some(m) => spec_chunk_bytes(foot_chunk(K_CHUNK_META), m@, Endian::Little),
        None => Seq::empty(),
    };
    let st2: FootState = (Some(a.info), opt_view(a.meta), Seq::empty());
    match a.meta {
        Some(m) => {
            reveal(foot_chunk_value);
            lemma_walk_chunk(K_CHUNK_META, m@, st1);
        },
        None => {
            lemma_foot_chunks_fit(mpart);
            lemma_foot_walk(mpart, st1);
        },
    }
    lemma_walk_concat(ainf, mpart, init, st1);
    let names = name_chunks(a, a.names.len() as int);
    lemma_walk_names(a, a.names.len() as int, st2);
    lemma_walk_concat(ainf + mpart, names, init, st2);
    assert(fd =~= ainf + mpart + names);
    assert(names_view(a.names@).take(a.names.len() as int) =~= names_view(a.names@));
    assert(Seq::<Seq<char>>::empty() + names_view(a.names@) =~= names_view(a.names@));
}

/// A footer form with data `fd` reads back its header and data.
proof fn lemma_foot_form(fd: Seq<u8>)
    requires
        fd.len() <= u64::MAX,
    ensures
        form_fits(form_bytes(versioned_form(K_FORM_FOOT, 1), fd, Endian::Little), Endian::Little),
        spec_form_slice(form_bytes(versioned_form(K_FORM_FOOT, 1), fd, Endian::Little), Endian::Little)
            == Ok::<(FormDescriptor, Seq<u8>, Seq<u8>), FormatError>(
            (with_size(versioned_form(K_FORM_FOOT, 1), fd.len() as int), fd, Seq::empty()),
        ),
        four_cc_value(versioned_form(K_FORM_FOOT, 1).id.0) == K_FORM_FOOT,
{
    let foot = with_size(versioned_form(K_FORM_FOOT, 1), fd.len() as int);
    let ff = form_bytes(versioned_form(K_FORM_FOOT, 1), fd, Endian::Little);
    lemma_four_cc_value_of_from_u32(crate::format::rfrm::K_CHUNK_RFRM);
    lemma_four_cc_value_of_from_u32(K_FORM_FOOT);
    lemma_form_write_slice(foot, fd, Seq::empty(), Endian::Little);
    assert(spec_form_header_bytes(foot, Endian::Little) + fd + Seq::<u8>::empty() =~= ff);
}

/// Writing an asset's file and reading it back gives the asset, when the asset's data
/// is exactly one form of the asset's kind and versions and its information carries
/// its ID.
pub proof fn lemma_asset_file_round_trip(a: Asset)
    requires
        spec_form_slice(a.data@, Endian::Little) matches Ok((h, _, rest)) && rest.len() == 0
            && h.id == a.kind && h.reader_version == a.version && h.writer_version == a.other_version,
        form_fits(a.data@, Endian::Little),
        a.info.id == a.id,
        a.meta matches Some(m) ==> m@.len() <= u64::MAX,
        forall|i: int| 0 <= i < a.names.len() ==> encode_utf8(#[trigger] a.names[i]@).len() <= u64::MAX,
        spec_asset_file(a).len() <= u64::MAX,
    ensures
        asset_file_fits(spec_asset_file(a)),
        spec_asset_from_file(spec_asset_file(a)) == Ok::<_, FormatError>(asset_model(a)),
{
    let ff = form_bytes(versioned_form(K_FORM_FOOT, 1), foot_data(a), Endian::Little);
    lemma_foot_data_walk(a);
    lemma_foot_form(foot_data(a));
    lemma_form_prefix(a.data@, ff);
    let file = spec_asset_file(a);
    assert(file =~= a.data@ + ff);
    assert(Seq::<u8>::empty() + ff =~= ff);
    assert(file.subrange(0, file.len() - ff.len()) =~= a.data@);
}

/// Whether every chunk of the footer chunk sequence `data` lies inside it (see
/// `foot_chunks_fit`).
fn foot_chunks_fit_check(data: &[u8]) -> (r: bool)
    ensures
        r == foot_chunks_fit(data@),
{
    let e = Endian::Little;
    let mut s = data;
    loop
        invariant
            e == Endian::Little,
            foot_chunks_fit(data@) == foot_chunks_fit(s@),
        decreases s@.len(),
    {
        proof {
            reveal_with_fuel(foot_chunks_fit, 2);
        }
        if !chunk_fits_check(s, e) {
            return false;
        }
        match ChunkDescriptor::slice(s, e) {
            Err(_) => {
                return true;
            },
            Ok((_, _, rest)) => {
                if rest.len() >= s.len() {
                    return true;
                }
                s = rest;
            },
        }
    }
}

/// Whether both forms of `data`, and the chunks of its footer, lie inside it (see
/// `asset_file_fits`).
pub fn asset_file_fits_check(data: &[u8]) -> (r: bool)
    ensures
        r == asset_file_fits(data@),
{
    let e = Endian::Little;
    if !form_fits_check(data, e) {
        return false;
    }
    let rest = match FormDescriptor::slice(data, e) {
        Ok((_, _, rest)) => rest,
        Err(_) => {
            return true;
        },
    };
    if !form_fits_check(rest, e) {
        return false;
    }
    match FormDescriptor::slice(rest, e) {
        Ok((_, body, _)) => foot_chunks_fit_check(body),
        Err(_) => true,
    }
}

} // verus!

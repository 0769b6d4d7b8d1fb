//! Writing a package: the PACK form with its table of contents (asset directory,
//! metadata table, string table) and the assets' data, padded to 16 bytes.
use vstd::prelude::*;
use crate::format::{FormatError, FourCC, four_cc_value, spec_four_cc_from_u32};
use crate::format::chunk::{ChunkDescriptor, spec_chunk_bytes};
use crate::format::pack::{
    Asset, Package, K_CHUNK_ADIR, K_CHUNK_META, K_CHUNK_STRG, K_FORM_PACK, K_FORM_TOCC, spec_be_bytes,
    spec_uuid_le_order, uuid_to_bytes, uuid_to_bytes_le,
};
use crate::format::rfrm::{FormDescriptor, K_CHUNK_RFRM, spec_form_header_bytes, with_size};
use crate::util::compression::zeros;
use crate::util::read::Endian;
use crate::util::write::{push_bytes, push_u32, push_u64, spec_u32_bytes, spec_u64_bytes};
use vstd::utf8::encode_utf8;

verus! {

/// Each asset's ID is at least the one of the asset before it.
pub open spec fn ids_ascending(s: Seq<Asset>) -> bool {
    forall|i: int| 0 < i < s.len() ==> s[i - 1].id <= #[trigger] s[i].id
}

/// The IDs of the assets `idx` of `s`.
pub open spec fn ids_at(s: Seq<Asset>, idx: Seq<int>) -> Seq<u128> {
    idx.map_values(|i: int| s[i].id)
}

/// The numbers `0, 1, .., n - 1`.
pub open spec fn first_indices(n: int) -> Seq<int> {
    Seq::new(n as nat, |i: int| i)
}

/// Group of element `i` of `ids`, where a group is a run of equal consecutive IDs:
/// how many times the ID changes up to element `i`.
pub open spec fn id_group(ids: Seq<u128>, i: int) -> int
    decreases i,
{
    if i <= 0 {
        0
    } else {
        id_group(ids, i - 1) + if ids[i] != ids[i - 1] {
            1int
        } else {
            0int
        }
    }
}

/// Number of runs of equal consecutive IDs in `ids`.
pub open spec fn id_groups(ids: Seq<u128>) -> int {
    if ids.len() == 0 {
        0
    } else {
        id_group(ids, ids.len() - 1) + 1
    }
}

/// The first position from `p` on in `o` whose asset is stored after `key`, or the
/// length of `o`.
pub open spec fn first_after(s: Seq<Asset>, o: Seq<int>, key: u64, p: int) -> int
    decreases o.len() - p,
{
    if p >= o.len() || p < 0 {
        o.len() as int
    } else if s[o[p]].info.orig_offset > key {
        p
    } else {
        first_after(s, o, key, p + 1)
    }
}

/// Assets `0 .. n` of `s` in ascending order of their original offset, assets with
/// equal offsets keeping their order (each is placed after those before it whose
/// offset is not larger).
pub open spec fn stable_order(s: Seq<Asset>, n: int) -> Seq<int>
    decreases n,
{
    if n <= 0 {
        Seq::empty()
    } else {
        let o = stable_order(s, n - 1);
        o.insert(first_after(s, o, s[n - 1].info.orig_offset, 0), n - 1)
    }
}

/// The values of `v` as integers.
pub open spec fn as_ints(v: Seq<usize>) -> Seq<int> {
    v.map_values(|x: usize| x as int)
}

/// Whether the IDs of `assets` are ascending (each at least the one before).
fn check_order(assets: &Vec<Asset>) -> (r: bool)
    ensures
        r == ids_ascending(assets@),
{
    let mut i: usize = 1;
    while i < assets.len()
        invariant
            1 <= i,
            forall|j: int| 0 < j < i && j < assets@.len() ==> assets@[j - 1].id <= #[trigger] assets@[j].id,
        decreases assets.len() - i,
    {
        if assets[i].id < assets[i - 1].id {
            return false;
        }
        i = i + 1;
    }
    true
}

/// Number of runs of equal consecutive IDs among the assets `idx`.
fn count_groups(assets: &Vec<Asset>, idx: &Vec<usize>) -> (r: usize)
    requires
        forall|t: int| 0 <= t < idx@.len() ==> idx@[t] < assets@.len(),
    ensures
        r == id_groups(ids_at(assets@, as_ints(idx@))),
        r <= idx@.len(),
{
    let ghost ids = ids_at(assets@, as_ints(idx@));
    if idx.len() == 0 {
        return 0;
    }
    let mut g: usize = 0;
    let mut t: usize = 1;
    while t < idx.len()
        invariant
            1 <= t <= idx@.len(),
            ids == ids_at(assets@, as_ints(idx@)),
            forall|u: int| 0 <= u < idx@.len() ==> idx@[u] < assets@.len(),
            g == id_group(ids, t - 1),
            g < t,
        decreases idx.len() - t,
    {
        if assets[idx[t]].id != assets[idx[t - 1]].id {
            g = g + 1;
        }
        t = t + 1;
    }
    g + 1
}

/// The indices `0 .. n` of `assets` in the order of `stable_order`.
fn stable_order_exec(assets: &Vec<Asset>, n: usize) -> (o: Vec<usize>)
    requires
        n <= assets@.len(),
    ensures
        as_ints(o@) == stable_order(assets@, n as int),
        o@.len() == n,
        forall|k: int| 0 <= k < o@.len() ==> o@[k] < n,
{
    let mut o: Vec<usize> = Vec::new();
    let mut i: usize = 0;
    while i < n
        invariant
            i <= n <= assets@.len(),
            as_ints(o@) == stable_order(assets@, i as int),
            o@.len() == i,
            forall|k: int| 0 <= k < o@.len() ==> o@[k] < i,
        decreases n - i,
    {
        let key = assets[i].info.orig_offset;
        let ghost os = as_ints(o@);
        let mut p: usize = 0;
        while p < o.len() && assets[o[p]].info.orig_offset <= key
            invariant
                i < n <= assets@.len(),
                os == as_ints(o@),
                o@.len() == i,
                forall|k: int| 0 <= k < o@.len() ==> o@[k] < i,
                p <= o@.len(),
                first_after(assets@, os, key, 0) == first_after(assets@, os, key, p as int),
            decreases o.len() - p,
        {
            p = p + 1;
        }
        o.insert(p, i);
        proof {
            assert(first_after(assets@, os, key, 0) == p);
            assert(as_ints(o@) =~= os.insert(p as int, i as int));
        }
        i = i + 1;
    }
    o
}

/// The IDs of all assets of `s`, in order.
pub open spec fn all_ids(s: Seq<Asset>) -> Seq<u128> {
    ids_at(s, first_indices(s.len() as int))
}

/// The 16 bytes of the UUID `id` stored in the byte order `e`.
pub open spec fn uuid_bytes(id: u128, e: Endian) -> Seq<u8> {
    if e == Endian::Little {
        spec_uuid_le_order(spec_be_bytes(id as int))
    } else {
        spec_be_bytes(id as int)
    }
}

fn push_uuid(out: &mut Vec<u8>, id: u128, e: Endian)
    ensures
        final(out)@ == old(out)@ + uuid_bytes(id, e),
{
    let b = match e {
        Endian::Little => uuid_to_bytes_le(id),
        Endian::Big => uuid_to_bytes(id),
    };
    push_bytes(out, &b);
}

/// Directory entries of an asset: one per name, at least one.
pub open spec fn entry_count(a: Asset) -> int {
    if a.names.len() == 0 {
        1
    } else {
        a.names.len() as int
    }
}

/// Directory entries of the assets `idx[0 .. t]` of `s`.
pub open spec fn entries_total(s: Seq<Asset>, idx: Seq<int>, t: int) -> int
    decreases t,
{
    if t <= 0 {
        0
    } else {
        entries_total(s, idx, t - 1) + entry_count(s[idx[t - 1]])
    }
}

/// `b` written `n` times.
pub open spec fn repeated(b: Seq<u8>, n: int) -> Seq<u8>
    decreases n,
{
    if n <= 0 {
        Seq::empty()
    } else {
        repeated(b, n - 1) + b
    }
}

/// The 52 bytes of the directory entry of `a` whose data lies at `offset`.
pub open spec fn adir_entry_bytes(a: Asset, offset: u64, e: Endian) -> Seq<u8> {
    a.kind.0@ + uuid_bytes(a.id, e) + spec_u32_bytes(a.version as int, e) + spec_u32_bytes(
        a.other_version as int,
        e,
    ) + spec_u64_bytes(offset as int, e) + spec_u64_bytes(a.data@.len() as int, e)
        + spec_u64_bytes(a.data@.len() as int, e)
}

/// The directory entries of the first `n` assets: those of asset `i` point at
/// `offsets[g]`, where `g` is the group of equal consecutive IDs that `i` is in.
pub open spec fn adir_entries(s: Seq<Asset>, offsets: Seq<u64>, n: int, e: Endian) -> Seq<u8>
    decreases n,
{
    if n <= 0 {
        Seq::empty()
    } else {
        adir_entries(s, offsets, n - 1, e) + repeated(
            adir_entry_bytes(s[n - 1], offsets[id_group(all_ids(s), n - 1)], e),
            entry_count(s[n - 1]),
        )
    }
}

/// The asset directory chunk's data: the entry count (32 bits, little-endian) and
/// the entries.
#[verifier::opaque]
pub open spec fn adir_data(s: Seq<Asset>, offsets: Seq<u64>, e: Endian) -> Seq<u8> {
    spec_u32_bytes(
        (entries_total(s, first_indices(s.len() as int), s.len() as int) as u32) as int,
        Endian::Little,
    ) + adir_entries(s, offsets, s.len() as int, e)
}

proof fn lemma_repeated_len(b: Seq<u8>, n: int)
    requires
        0 <= n,
    ensures
        repeated(b, n).len() == n * b.len(),
    decreases n,
{
    if n > 0 {
        lemma_repeated_len(b, n - 1);
        assert(repeated(b, n) == repeated(b, n - 1) + b);
        assert(n * b.len() == (n - 1) * b.len() + b.len()) by (nonlinear_arith);
    } else {
        assert(n * b.len() == 0) by (nonlinear_arith)
            requires
                n == 0,
        ;
    }
}

proof fn lemma_adir_entries_len(s: Seq<Asset>, offsets: Seq<u64>, n: int, e: Endian)
    requires
        0 <= n <= s.len(),
    ensures
        adir_entries(s, offsets, n, e).len() == 52 * entries_total(s, first_indices(s.len() as int), n),
        entries_total(s, first_indices(s.len() as int), n) >= n,
    decreases n,
{
    if n > 0 {
        lemma_adir_entries_len(s, offsets, n - 1, e);
        let a = s[n - 1];
        let g = id_group(all_ids(s), n - 1);
        lemma_repeated_len(adir_entry_bytes(a, offsets[g], e), entry_count(a));
        assert(uuid_bytes(a.id, e).len() == 16);
        assert(adir_entry_bytes(a, offsets[g], e).len() == 52);
        assert(first_indices(s.len() as int)[n - 1] == n - 1);
        assert(entries_total(s, first_indices(s.len() as int), n) == entries_total(
            s,
            first_indices(s.len() as int),
            n - 1,
        ) + entry_count(a));
        assert(adir_entries(s, offsets, n, e) == adir_entries(s, offsets, n - 1, e) + repeated(
            adir_entry_bytes(a, offsets[g], e),
            entry_count(a),
        ));
        assert(52 * entries_total(s, first_indices(s.len() as int), n) == 52 * entries_total(
            s,
            first_indices(s.len() as int),
            n - 1,
        ) + entry_count(a) * 52) by (nonlinear_arith)
            requires
                entries_total(s, first_indices(s.len() as int), n) == entries_total(
                    s,
                    first_indices(s.len() as int),
                    n - 1,
                ) + entry_count(a),
        ;
    }
}

fn push_adir_entry(out: &mut Vec<u8>, a: &Asset, offset: u64, e: Endian)
    ensures
        final(out)@ == old(out)@ + adir_entry_bytes(*a, offset, e),
{
    push_bytes(out, &a.kind.0);
    push_uuid(out, a.id, e);
    push_u32(out, a.version, e);
    push_u32(out, a.other_version, e);
    push_u64(out, offset, e);
    push_u64(out, a.data.len() as u64, e);
    push_u64(out, a.data.len() as u64, e);
    assert(final(out)@ =~= old(out)@ + adir_entry_bytes(*a, offset, e));
}

/// Builds the asset directory chunk's data; `offsets` holds the data offset of each
/// group of equal consecutive IDs.
fn build_adir(assets: &Vec<Asset>, offsets: &Vec<u64>, e: Endian) -> (out: Vec<u8>)
    requires
        offsets@.len() == id_groups(all_ids(assets@)),
        entries_total(assets@, first_indices(assets@.len() as int), assets@.len() as int) * 52 + 4
            <= usize::MAX,
    ensures
        out@ == adir_data(assets@, offsets@, e),
        out@.len() == 4 + 52 * entries_total(
            assets@,
            first_indices(assets@.len() as int),
            assets@.len() as int,
        ),
{
    let ghost s = assets@;
    proof {
        reveal(adir_data);
    }
    let ghost ids = all_ids(s);
    let ghost idx = first_indices(s.len() as int);
    let ghost total = entries_total(s, idx, s.len() as int);
    proof {
        lemma_adir_entries_len(s, offsets@, s.len() as int, e);
        lemma_entries_monotone(s, idx, s.len() as int);
    }
    let mut count: usize = 0;
    let mut i: usize = 0;
    while i < assets.len()
        invariant
            s == assets@,
            idx == first_indices(s.len() as int),
            i <= s.len(),
            count == entries_total(s, idx, i as int),
            total == entries_total(s, idx, s.len() as int),
            total * 52 + 4 <= usize::MAX,
        decreases assets.len() - i,
    {
        let n = assets[i].names.len();
        proof {
            lemma_entries_le(s, idx, i + 1, s.len() as int);
        }
        assert(idx[i as int] == i);
        assert(entries_total(s, idx, i + 1) == count + entry_count(s[i as int]));
        count = count + if n == 0 {
            1
        } else {
            n
        };
        i = i + 1;
    }
    let mut out: Vec<u8> = Vec::new();
    push_u32(&mut out, count as u32, Endian::Little);
    let ghost head = out@;
    let mut g: usize = 0;
    let mut i: usize = 0;
    while i < assets.len()
        invariant
            s == assets@,
            ids == all_ids(s),
            idx == first_indices(s.len() as int),
            i <= s.len(),
            offsets@.len() == id_groups(ids),
            out@ == head + adir_entries(s, offsets@, i as int, e),
            i > 0 ==> g == id_group(ids, i - 1),
            i > 0 ==> g < offsets@.len(),
            i == 0 ==> g == 0,
        decreases assets.len() - i,
    {
        proof {
            lemma_group_bound(ids, i as int);
            assert(ids[i as int] == s[i as int].id);
            if i > 0 {
                assert(ids[i - 1] == s[i - 1].id);
            }
        }
        if i > 0 && assets[i].id != assets[i - 1].id {
            g = g + 1;
        }
        proof {
            if i > 0 {
                assert(id_group(ids, i as int) == id_group(ids, i - 1) + if ids[i as int] != ids[i
                    - 1] {
                    1int
                } else {
                    0int
                });
            } else {
                assert(id_group(ids, 0) == 0);
            }
        }
        assert(g == id_group(ids, i as int));
        let a = &assets[i];
        let n = if a.names.len() == 0 {
            1
        } else {
            a.names.len()
        };
        let ghost before = out@;
        let mut k: usize = 0;
        while k < n
            invariant
                g < offsets@.len(),
                k <= n,
                out@ == before + repeated(adir_entry_bytes(*a, offsets@[g as int], e), k as int),
            decreases n - k,
        {
            push_adir_entry(&mut out, a, offsets[g], e);
            k = k + 1;
        }
        i = i + 1;
    }
    out
}

/// Groups of equal consecutive IDs are numbered below their count.
proof fn lemma_group_bound(ids: Seq<u128>, i: int)
    requires
        0 <= i < ids.len(),
    ensures
        0 <= id_group(ids, i) <= i,
        id_group(ids, i) < id_groups(ids),
    decreases ids.len() - i,
{
    lemma_group_le(ids, i);
    lemma_group_mono(ids, i, ids.len() - 1);
}

proof fn lemma_group_le(ids: Seq<u128>, i: int)
    requires
        0 <= i,
    ensures
        0 <= id_group(ids, i) <= i,
    decreases i,
{
    if i > 0 {
        lemma_group_le(ids, i - 1);
    }
}

proof fn lemma_group_mono(ids: Seq<u128>, i: int, j: int)
    requires
        0 <= i <= j,
    ensures
        id_group(ids, i) <= id_group(ids, j),
    decreases j - i,
{
    if i < j {
        lemma_group_mono(ids, i, j - 1);
    }
}

proof fn lemma_entries_le(s: Seq<Asset>, idx: Seq<int>, k: int, t: int)
    requires
        0 <= k <= t,
    ensures
        entries_total(s, idx, k) <= entries_total(s, idx, t),
    decreases t - k,
{
    if k < t {
        lemma_entries_le(s, idx, k, t - 1);
    }
}

proof fn lemma_entries_monotone(s: Seq<Asset>, idx: Seq<int>, t: int)
    requires
        0 <= t,
    ensures
        forall|k: int| 0 <= k <= t ==> entries_total(s, idx, k) <= entries_total(s, idx, t),
        entries_total(s, idx, t) >= t,
    decreases t,
{
    if t > 0 {
        lemma_entries_monotone(s, idx, t - 1);
    }
}

/// The indices of those of the first `n` assets that carry metadata.
pub open spec fn meta_indices(s: Seq<Asset>, n: int) -> Seq<int>
    decreases n,
{
    if n <= 0 {
        Seq::empty()
    } else {
        meta_indices(s, n - 1) + if s[n - 1].meta is Some {
            seq![n - 1]
        } else {
            Seq::empty()
        }
    }
}

/// The metadata bytes of `a` (none when it has no metadata).
pub open spec fn meta_of(a: Asset) -> Seq<u8> {
    match a.meta {
        Some(m) => m@,
        None => Seq::empty(),
    }
}

/// Where the `r`-th metadata written starts in the metadata chunk's data: after the
/// table (a count, then 20 bytes per entry) and the metadata written before it, each
/// with its 32-bit size.
pub open spec fn meta_offset(s: Seq<Asset>, f: Seq<int>, r: int) -> int
    decreases r,
{
    if r <= 0 {
        4 + 20 * entries_total(s, f, f.len() as int)
    } else {
        meta_offset(s, f, r - 1) + 4 + meta_of(s[f[r - 1]]).len()
    }
}

/// The table entries of the assets `f[0 .. t]`: each asset gets as many entries as
/// directory entries, each holding its ID and (as 32 bits) the offset of the
/// metadata written for its group of equal consecutive IDs.
pub open spec fn meta_table(s: Seq<Asset>, f: Seq<int>, t: int) -> Seq<u8>
    decreases t,
{
    if t <= 0 {
        Seq::empty()
    } else {
        meta_table(s, f, t - 1) + repeated(
            uuid_bytes(s[f[t - 1]].id, Endian::Little) + spec_u32_bytes(
                (meta_offset(s, f, id_group(ids_at(s, f), t - 1)) as u32) as int,
                Endian::Little,
            ),
            entry_count(s[f[t - 1]]),
        )
    }
}

/// The first `r` metadata written: those of the assets `f[0 .. r]`, each after its
/// size (as 32 bits).
pub open spec fn meta_payloads(s: Seq<Asset>, f: Seq<int>, r: int) -> Seq<u8>
    decreases r,
{
    if r <= 0 {
        Seq::empty()
    } else {
        meta_payloads(s, f, r - 1) + spec_u32_bytes(
            (meta_of(s[f[r - 1]]).len() as u32) as int,
            Endian::Little,
        ) + meta_of(s[f[r - 1]])
    }
}

/// The metadata chunk's data: the entry count, the table, then one metadata per group
/// of equal consecutive IDs among the assets that carry metadata, taken from the
/// group's place in that list.
#[verifier::opaque]
pub open spec fn meta_data(s: Seq<Asset>) -> Seq<u8> {
    let f = meta_indices(s, s.len() as int);
    spec_u32_bytes(entries_total(s, f, f.len() as int), Endian::Little) + meta_table(
        s,
        f,
        f.len() as int,
    ) + meta_payloads(s, f, id_groups(ids_at(s, f)))
}

proof fn lemma_meta_indices(s: Seq<Asset>, n: int)
    requires
        0 <= n <= s.len(),
    ensures
        meta_indices(s, n).len() <= n,
        forall|t: int|
            0 <= t < meta_indices(s, n).len() ==> 0 <= #[trigger] meta_indices(s, n)[t] < n && s[meta_indices(
                s,
                n,
            )[t]].meta is Some,
    decreases n,
{
    if n > 0 {
        lemma_meta_indices(s, n - 1);
    }
}

proof fn lemma_meta_table_len(s: Seq<Asset>, f: Seq<int>, t: int)
    requires
        0 <= t,
    ensures
        meta_table(s, f, t).len() == 20 * entries_total(s, f, t),
    decreases t,
{
    if t > 0 {
        lemma_meta_table_len(s, f, t - 1);
        let g = id_group(ids_at(s, f), t - 1);
        let unit = uuid_bytes(s[f[t - 1]].id, Endian::Little) + spec_u32_bytes(
            (meta_offset(s, f, g) as u32) as int,
            Endian::Little,
        );
        assert(uuid_bytes(s[f[t - 1]].id, Endian::Little).len() == 16);
        assert(unit.len() == 20);
        lemma_repeated_len(unit, entry_count(s[f[t - 1]]));
    }
}

proof fn lemma_meta_offset(s: Seq<Asset>, f: Seq<int>, r: int)
    requires
        0 <= r,
    ensures
        meta_offset(s, f, r) == 4 + 20 * entries_total(s, f, f.len() as int) + meta_payloads(
            s,
            f,
            r,
        ).len(),
    decreases r,
{
    if r > 0 {
        lemma_meta_offset(s, f, r - 1);
    }
}

proof fn lemma_meta_payloads_mono(s: Seq<Asset>, f: Seq<int>, r: int, q: int)
    requires
        0 <= r <= q,
    ensures
        meta_payloads(s, f, r).len() <= meta_payloads(s, f, q).len(),
        meta_payloads(s, f, r) == meta_payloads(s, f, q).subrange(0, meta_payloads(s, f, r).len() as int),
    decreases q - r,
{
    if r < q {
        lemma_meta_payloads_mono(s, f, r, q - 1);
        let p = meta_payloads(s, f, q - 1);
        assert(meta_payloads(s, f, q).subrange(0, p.len() as int) =~= p);
        assert(meta_payloads(s, f, q).subrange(0, meta_payloads(s, f, r).len() as int) =~= p.subrange(
            0,
            meta_payloads(s, f, r).len() as int,
        ));
    }
}

/// The indices of the assets that carry metadata.
fn collect_meta_indices(assets: &Vec<Asset>) -> (f: Vec<usize>)
    ensures
        as_ints(f@) == meta_indices(assets@, assets@.len() as int),
        forall|t: int| 0 <= t < f@.len() ==> f@[t] < assets@.len(),
{
    let mut f: Vec<usize> = Vec::new();
    let mut i: usize = 0;
    while i < assets.len()
        invariant
            i <= assets@.len(),
            as_ints(f@) == meta_indices(assets@, i as int),
            forall|t: int| 0 <= t < f@.len() ==> f@[t] < i,
        decreases assets.len() - i,
    {
        if assets[i].meta.is_some() {
            f.push(i);
        }
        proof {
            assert(as_ints(f@) =~= meta_indices(assets@, i + 1));
        }
        i = i + 1;
    }
    f
}

/// Directory entries of the assets `idx`.
fn total_entries(assets: &Vec<Asset>, idx: &Vec<usize>) -> (r: usize)
    requires
        forall|t: int| 0 <= t < idx@.len() ==> idx@[t] < assets@.len(),
        entries_total(assets@, as_ints(idx@), idx@.len() as int) <= u32::MAX,
    ensures
        r == entries_total(assets@, as_ints(idx@), idx@.len() as int),
{
    let ghost s = assets@;
    let ghost f = as_ints(idx@);
    proof {
        lemma_entries_monotone(s, f, idx@.len() as int);
    }
    let mut m: usize = 0;
    let mut t: usize = 0;
    while t < idx.len()
        invariant
            s == assets@,
            f == as_ints(idx@),
            t <= idx@.len(),
            forall|u: int| 0 <= u < idx@.len() ==> idx@[u] < assets@.len(),
            m == entries_total(s, f, t as int),
            forall|k: int| 0 <= k <= f.len() ==> #[trigger] entries_total(s, f, k) <= entries_total(s, f, f.len() as int),
            entries_total(s, f, f.len() as int) <= u32::MAX,
        decreases idx.len() - t,
    {
        let n = assets[idx[t]].names.len();
        assert(entries_total(s, f, t + 1) == m + entry_count(s[f[t as int]]));
        m = m + if n == 0 {
            1
        } else {
            n
        };
        t = t + 1;
    }
    m
}

/// Builds the metadata chunk's data.
fn build_meta(assets: &Vec<Asset>) -> (out: Vec<u8>)
    requires
        entries_total(
            assets@,
            meta_indices(assets@, assets@.len() as int),
            meta_indices(assets@, assets@.len() as int).len() as int,
        ) <= u32::MAX,
        meta_data(assets@).len() <= usize::MAX,
    ensures
        out@ == meta_data(assets@),
{
    let ghost s = assets@;
    proof {
        reveal(meta_data);
    }
    let f = collect_meta_indices(assets);
    let ghost fs = as_ints(f@);
    let ghost ids = ids_at(s, fs);
    proof {
        lemma_meta_indices(s, s.len() as int);
        assert forall|t: int| 0 <= t < f@.len() implies assets@[#[trigger] f@[t] as int].meta is Some by {
            assert(fs[t] == f@[t] as int);
        }
    }
    let m = total_entries(assets, &f);
    let groups = count_groups(assets, &f);
    let ghost full = meta_payloads(s, fs, groups as int);
    proof {
        lemma_meta_offset(s, fs, groups as int);
        lemma_meta_table_len(s, fs, fs.len() as int);
        assert(4 + 20 * m + full.len() <= usize::MAX);
    }
    let mut payloads: Vec<u8> = Vec::new();
    let mut offsets: Vec<u32> = Vec::new();
    let mut r: usize = 0;
    while r < groups
        invariant
            s == assets@,
            fs == as_ints(f@),
            forall|t: int| 0 <= t < f@.len() ==> f@[t] < assets@.len(),
            forall|t: int| 0 <= t < f@.len() ==> assets@[#[trigger] f@[t] as int].meta is Some,
            groups <= f@.len(),
            full == meta_payloads(s, fs, groups as int),
            4 + 20 * m + full.len() <= usize::MAX,
            m == entries_total(s, fs, fs.len() as int),
            r <= groups,
            payloads@ == meta_payloads(s, fs, r as int),
            offsets@.len() == r,
            forall|q: int| 0 <= q < r ==> offsets@[q] == (meta_offset(s, fs, q) as u32),
        decreases groups - r,
    {
        proof {
            lemma_meta_payloads_mono(s, fs, r + 1, groups as int);
            lemma_meta_offset(s, fs, r as int);
        }
        let at: usize = 4 + 20 * m + payloads.len();
        offsets.push(at as u32);
        let meta = assets[f[r]].meta.as_ref().unwrap();
        push_u32(&mut payloads, meta.len() as u32, Endian::Little);
        push_bytes(&mut payloads, meta.as_slice());
        proof {
            assert(meta_of(s[fs[r as int]]) == meta@);
            assert(payloads@ =~= meta_payloads(s, fs, r + 1));
        }
        r = r + 1;
    }
    let mut out: Vec<u8> = Vec::new();
    push_u32(&mut out, m as u32, Endian::Little);
    let ghost head = out@;
    let mut g: usize = 0;
    let mut t: usize = 0;
    while t < f.len()
        invariant
            s == assets@,
            fs == as_ints(f@),
            ids == ids_at(s, fs),
            forall|u: int| 0 <= u < f@.len() ==> f@[u] < assets@.len(),
            groups == id_groups(ids),
            offsets@.len() == groups,
            forall|q: int| 0 <= q < groups ==> offsets@[q] == (meta_offset(s, fs, q) as u32),
            t <= f@.len(),
            out@ == head + meta_table(s, fs, t as int),
            t > 0 ==> g == id_group(ids, t - 1),
            t == 0 ==> g == 0,
        decreases f.len() - t,
    {
        proof {
            lemma_group_bound(ids, t as int);
            if t > 0 {
                assert(id_group(ids, t as int) == id_group(ids, t - 1) + if ids[t as int] != ids[t
                    - 1] {
                    1int
                } else {
                    0int
                });
            } else {
                assert(id_group(ids, 0) == 0);
            }
        }
        let a = &assets[f[t]];
        if t > 0 && a.id != assets[f[t - 1]].id {
            g = g + 1;
        }
        assert(g == id_group(ids, t as int));
        let n = if a.names.len() == 0 {
            1
        } else {
            a.names.len()
        };
        let ghost before = out@;
        let ghost unit = uuid_bytes(a.id, Endian::Little) + spec_u32_bytes(
            (meta_offset(s, fs, g as int) as u32) as int,
            Endian::Little,
        );
        let mut k: usize = 0;
        while k < n
            invariant
                g < offsets@.len(),
                offsets@[g as int] == (meta_offset(s, fs, g as int) as u32),
                k <= n,
                out@ == before + repeated(unit, k as int),
                unit == uuid_bytes(a.id, Endian::Little) + spec_u32_bytes(
                    (meta_offset(s, fs, g as int) as u32) as int,
                    Endian::Little,
                ),
            decreases n - k,
        {
            push_uuid(&mut out, a.id, Endian::Little);
            push_u32(&mut out, offsets[g], Endian::Little);
            k = k + 1;
        }
        t = t + 1;
    }
    push_bytes(&mut out, payloads.as_slice());
    out
}

/// The string table entry of the name `name` of asset `a`: the asset's kind as a
/// number (little-endian, so its bytes reversed), its ID, the name's length and bytes.
pub open spec fn name_entry_bytes(a: Asset, name: Seq<u8>) -> Seq<u8> {
    spec_u32_bytes(four_cc_value(a.kind.0), Endian::Little) + uuid_bytes(a.id, Endian::Little)
        + spec_u32_bytes(name.len() as int, Endian::Little) + name
}

/// The string table entries of the first `k` names of `a`.
pub open spec fn asset_names_bytes(a: Asset, k: int) -> Seq<u8>
    decreases k,
{
    if k <= 0 {
        Seq::empty()
    } else {
        asset_names_bytes(a, k - 1) + name_entry_bytes(a, encode_utf8(a.names[k - 1]@))
    }
}

/// The string table entries of the first `n` assets.
pub open spec fn strg_entries(s: Seq<Asset>, n: int) -> Seq<u8>
    decreases n,
{
    if n <= 0 {
        Seq::empty()
    } else {
        strg_entries(s, n - 1) + asset_names_bytes(s[n - 1], s[n - 1].names.len() as int)
    }
}

/// Number of names of the first `n` assets.
pub open spec fn names_total(s: Seq<Asset>, n: int) -> int
    decreases n,
{
    if n <= 0 {
        0
    } else {
        names_total(s, n - 1) + s[n - 1].names.len()
    }
}

/// The string table chunk's data: the number of names, then one entry per name.
#[verifier::opaque]
pub open spec fn strg_data(s: Seq<Asset>) -> Seq<u8> {
    spec_u32_bytes(names_total(s, s.len() as int), Endian::Little) + strg_entries(s, s.len() as int)
}

/// Every name of every asset has fewer than 2^32 bytes.
pub open spec fn names_fit(s: Seq<Asset>) -> bool {
    forall|i: int, k: int|
        0 <= i < s.len() && 0 <= k < s[i].names.len() ==> encode_utf8(#[trigger] s[i].names[k]@).len()
            <= u32::MAX
}

proof fn lemma_names_le(s: Seq<Asset>, k: int, t: int)
    requires
        0 <= k <= t,
    ensures
        names_total(s, k) <= names_total(s, t),
    decreases t - k,
{
    if k < t {
        lemma_names_le(s, k, t - 1);
    }
}

/// Builds the string table chunk's data.
fn build_strg(assets: &Vec<Asset>) -> (out: Vec<u8>)
    requires
        names_total(assets@, assets@.len() as int) <= u32::MAX,
        names_fit(assets@),
    ensures
        out@ == strg_data(assets@),
{
    let ghost s = assets@;
    proof {
        reveal(strg_data);
    }
    let mut count: usize = 0;
    let mut i: usize = 0;
    while i < assets.len()
        invariant
            s == assets@,
            i <= s.len(),
            count == names_total(s, i as int),
            names_total(s, s.len() as int) <= u32::MAX,
        decreases assets.len() - i,
    {
        proof {
            lemma_names_le(s, i + 1, s.len() as int);
        }
        count = count + assets[i].names.len();
        i = i + 1;
    }
    let mut out: Vec<u8> = Vec::new();
    push_u32(&mut out, count as u32, Endian::Little);
    let ghost head = out@;
    let mut i: usize = 0;
    while i < assets.len()
        invariant
            s == assets@,
            names_fit(s),
            i <= s.len(),
            out@ == head + strg_entries(s, i as int),
        decreases assets.len() - i,
    {
        let a = &assets[i];
        let ghost before = out@;
        let kind = a.kind.as_u32();
        let mut k: usize = 0;
        while k < a.names.len()
            invariant
                s == assets@,
                names_fit(s),
                i < s.len(),
                *a == s[i as int],
                k <= a.names@.len(),
                kind == four_cc_value(a.kind.0),
                out@ == before + asset_names_bytes(*a, k as int),
            decreases a.names.len() - k,
        {
            let name = a.names[k].as_str().as_bytes();
            assert(encode_utf8(s[i as int].names[k as int]@).len() <= u32::MAX);
            push_u32(&mut out, kind, Endian::Little);
            push_uuid(&mut out, a.id, Endian::Little);
            push_u32(&mut out, name.len() as u32, Endian::Little);
            push_bytes(&mut out, name);
            proof {
                assert(out@ =~= before + asset_names_bytes(*a, k + 1));
            }
            k = k + 1;
        }
        i = i + 1;
    }
    out
}

/// The data of the assets `o[0 .. k]`, one after the other.
pub open spec fn data_run(s: Seq<Asset>, o: Seq<int>, k: int) -> Seq<u8>
    decreases k,
{
    if k <= 0 {
        Seq::empty()
    } else {
        data_run(s, o, k - 1) + s[o[k - 1]].data@
    }
}

/// Where each of the assets `0 .. o.len()` has its data once those of `o[0 .. k]` are
/// written one after the other from position `start` (zero for those not written yet).
pub open spec fn data_positions(s: Seq<Asset>, o: Seq<int>, start: int, k: int) -> Seq<u64>
    decreases k,
{
    if k <= 0 {
        Seq::new(o.len(), |r: int| 0u64)
    } else {
        data_positions(s, o, start, k - 1).update(o[k - 1], (start + data_run(s, o, k - 1).len()) as u64)
    }
}

/// A table of contents chunk header: the code `id`, the unknown word 1.
pub open spec fn toc_chunk(id: u32) -> ChunkDescriptor {
    ChunkDescriptor { id: spec_four_cc_from_u32(id), size: 0, unk: 1, skip: 0 }
}

/// A form header with the code `id` and both versions `version`.
pub open spec fn versioned_form(id: u32, version: u32) -> FormDescriptor {
    FormDescriptor {
        magic: spec_four_cc_from_u32(K_CHUNK_RFRM),
        size: 0,
        unk: 0,
        id: spec_four_cc_from_u32(id),
        reader_version: version,
        writer_version: version,
    }
}

/// A form with header `h` (carrying the data's size) and data `body`.
pub open spec fn form_bytes(h: FormDescriptor, body: Seq<u8>, e: Endian) -> Seq<u8> {
    spec_form_header_bytes(with_size(h, body.len() as int), e) + body
}

/// The table of contents' data: the directory, metadata and string table chunks.
#[verifier::opaque]
pub open spec fn toc_body(s: Seq<Asset>, offsets: Seq<u64>, e: Endian) -> Seq<u8> {
    spec_chunk_bytes(toc_chunk(K_CHUNK_ADIR), adir_data(s, offsets, e), e) + spec_chunk_bytes(
        toc_chunk(K_CHUNK_META),
        meta_data(s),
        e,
    ) + spec_chunk_bytes(toc_chunk(K_CHUNK_STRG), strg_data(s), e)
}

/// Where the first data lands in a package written from position `base`: after the
/// PACK and TOCC headers and the three chunks.
pub open spec fn data_start(s: Seq<Asset>, base: int) -> int {
    base + 64 + 24 + 4 + 52 * entries_total(s, first_indices(s.len() as int), s.len() as int) + 24
        + meta_data(s).len() + 24 + strg_data(s).len()
}

/// The assets whose data is written, in the order written: one per group of equal
/// consecutive IDs (the group's place in the list), in ascending order of original
/// offset, equal offsets keeping their order.
pub open spec fn data_order(s: Seq<Asset>) -> Seq<int> {
    stable_order(s, id_groups(all_ids(s)))
}

/// The package form of the assets `s` written from position `base`: the TOCC form,
/// whose directory points each asset at the data written for its group, then the data.
#[verifier::opaque]
pub open spec fn spec_package_bytes(s: Seq<Asset>, base: int, e: Endian) -> Seq<u8> {
    let o = data_order(s);
    let offsets = data_positions(s, o, data_start(s, base), o.len() as int);
    let tocc = form_bytes(versioned_form(K_FORM_TOCC, 3), toc_body(s, offsets, e), e);
    form_bytes(versioned_form(K_FORM_PACK, 1), tocc + data_run(s, o, o.len() as int), e)
}

/// Zero bytes that bring position `end` up to a multiple of 16.
pub open spec fn padding(end: int) -> int {
    (end + 15) / 16 * 16 - end
}

/// The bytes that writing the package of the assets `s` from position `base` appends.
pub open spec fn spec_write(s: Seq<Asset>, base: int, e: Endian) -> Seq<u8> {
    let b = spec_package_bytes(s, base, e);
    b + zeros(padding(base + b.len()))
}

/// Writing the package of `s` from position `base`, with ascending IDs, counts its
/// table entries in 32 bits, each name's length too, and ends within the machine's
/// integers.
pub open spec fn write_fits(s: Seq<Asset>, base: int, e: Endian) -> bool {
    ids_ascending(s) ==> {
        &&& entries_total(s, first_indices(s.len() as int), s.len() as int) <= u32::MAX
        &&& names_fit(s)
        &&& base + spec_package_bytes(s, base, e).len() + 15 <= usize::MAX
    }
}

proof fn lemma_entries_ext(s: Seq<Asset>, a: Seq<int>, b: Seq<int>, t: int)
    requires
        0 <= t,
        forall|u: int| 0 <= u < t ==> a[u] == b[u],
    ensures
        entries_total(s, a, t) == entries_total(s, b, t),
    decreases t,
{
    if t > 0 {
        lemma_entries_ext(s, a, b, t - 1);
    }
}

/// Entries of the assets with metadata are among all entries; names are fewer than
/// entries.
proof fn lemma_counts_le(s: Seq<Asset>, n: int)
    requires
        0 <= n <= s.len(),
    ensures
        entries_total(s, meta_indices(s, n), meta_indices(s, n).len() as int) <= entries_total(
            s,
            first_indices(s.len() as int),
            n,
        ),
        names_total(s, n) <= entries_total(s, first_indices(s.len() as int), n),
    decreases n,
{
    if n > 0 {
        lemma_counts_le(s, n - 1);
        let f0 = meta_indices(s, n - 1);
        let f1 = meta_indices(s, n);
        assert(first_indices(s.len() as int)[n - 1] == n - 1);
        if s[n - 1].meta is Some {
            assert(f1 == f0 + seq![n - 1]);
            lemma_entries_ext(s, f0, f1, f0.len() as int);
            assert(f1[f0.len() as int] == n - 1);
        } else {
            assert(f1 == f0);
        }
    }
}

proof fn lemma_data_run_le(s: Seq<Asset>, o: Seq<int>, k: int, t: int)
    requires
        0 <= k <= t,
    ensures
        data_run(s, o, k).len() <= data_run(s, o, t).len(),
    decreases t - k,
{
    if k < t {
        lemma_data_run_le(s, o, k, t - 1);
    }
}

proof fn lemma_stable_order_len(s: Seq<Asset>, n: int)
    requires
        0 <= n,
    ensures
        stable_order(s, n).len() == n,
    decreases n,
{
    if n > 0 {
        lemma_stable_order_len(s, n - 1);
        lemma_first_after_bound(s, stable_order(s, n - 1), s[n - 1].info.orig_offset, 0);
    }
}

proof fn lemma_first_after_bound(s: Seq<Asset>, o: Seq<int>, key: u64, p: int)
    requires
        0 <= p,
    ensures
        0 <= first_after(s, o, key, p) <= o.len(),
    decreases o.len() - p,
{
    if p < o.len() && s[o[p]].info.orig_offset <= key {
        lemma_first_after_bound(s, o, key, p + 1);
    }
}

/// The numbers `0 .. n`.
fn index_list(n: usize) -> (v: Vec<usize>)
    ensures
        as_ints(v@) == first_indices(n as int),
        v@.len() == n,
        forall|t: int| 0 <= t < n ==> v@[t] == t,
{
    let mut v: Vec<usize> = Vec::new();
    let mut i: usize = 0;
    while i < n
        invariant
            i <= n,
            v@.len() == i,
            forall|t: int| 0 <= t < i ==> v@[t] == t,
        decreases n - i,
    {
        v.push(i);
        i = i + 1;
    }
    assert(as_ints(v@) =~= first_indices(n as int));
    v
}

/// Lays out the data of the assets `o` from position `start`: gives where each one's
/// data lands and the data, one after the other.
fn place_data(assets: &Vec<Asset>, o: &Vec<usize>, start: usize) -> (r: (Vec<u64>, Vec<u8>))
    requires
        forall|t: int| 0 <= t < o@.len() ==> o@[t] < o@.len(),
        o@.len() <= assets@.len(),
        start + data_run(assets@, as_ints(o@), o@.len() as int).len() <= usize::MAX,
    ensures
        r.0@ == data_positions(assets@, as_ints(o@), start as int, o@.len() as int),
        r.1@ == data_run(assets@, as_ints(o@), o@.len() as int),
{
    let ghost s = assets@;
    let ghost os = as_ints(o@);
    let n = o.len();
    let mut offsets: Vec<u64> = vec![0u64; n];
    let mut data: Vec<u8> = Vec::new();
    let mut k: usize = 0;
    proof {
        assert(offsets@ =~= data_positions(s, os, start as int, 0));
    }
    while k < n
        invariant
            s == assets@,
            os == as_ints(o@),
            n == o@.len(),
            forall|t: int| 0 <= t < o@.len() ==> o@[t] < n,
            n <= s.len(),
            k <= n,
            start + data_run(s, os, n as int).len() <= usize::MAX,
            offsets@ == data_positions(s, os, start as int, k as int),
            offsets@.len() == n,
            data@ == data_run(s, os, k as int),
        decreases n - k,
    {
        proof {
            lemma_data_run_le(s, os, k as int, n as int);
        }
        let at = start + data.len();
        offsets.set(o[k], at as u64);
        push_bytes(&mut data, assets[o[k]].data.as_slice());
        k = k + 1;
    }
    (offsets, data)
}

/// Builds the TOCC form from the three chunks' data.
fn build_toc(adir: &[u8], meta: &[u8], strg: &[u8], order: Endian) -> (out: Vec<u8>)
    ensures
        out@ == form_bytes(
            versioned_form(K_FORM_TOCC, 3),
            spec_chunk_bytes(toc_chunk(K_CHUNK_ADIR), adir@, order) + spec_chunk_bytes(
                toc_chunk(K_CHUNK_META),
                meta@,
                order,
            ) + spec_chunk_bytes(toc_chunk(K_CHUNK_STRG), strg@, order),
            order,
        ),
{
    let mut body: Vec<u8> = Vec::new();
    ChunkDescriptor { id: FourCC::from_u32(K_CHUNK_ADIR), size: 0, unk: 1, skip: 0 }.write(
        &mut body,
        adir,
        order,
    );
    ChunkDescriptor { id: FourCC::from_u32(K_CHUNK_META), size: 0, unk: 1, skip: 0 }.write(
        &mut body,
        meta,
        order,
    );
    ChunkDescriptor { id: FourCC::from_u32(K_CHUNK_STRG), size: 0, unk: 1, skip: 0 }.write(
        &mut body,
        strg,
        order,
    );
    let mut out: Vec<u8> = Vec::new();
    FormDescriptor {
        magic: FourCC::from_u32(K_CHUNK_RFRM),
        size: 0,
        unk: 0,
        id: FourCC::from_u32(K_FORM_TOCC),
        reader_version: 3,
        writer_version: 3,
    }.write(&mut out, body.as_slice(), order);
    assert(body@ =~= spec_chunk_bytes(toc_chunk(K_CHUNK_ADIR), adir@, order) + spec_chunk_bytes(
        toc_chunk(K_CHUNK_META),
        meta@,
        order,
    ) + spec_chunk_bytes(toc_chunk(K_CHUNK_STRG), strg@, order));
    out
}

/// Appends the PACK form with data `body`.
fn write_pack_form(w: &mut Vec<u8>, body: &[u8], order: Endian)
    ensures
        final(w)@ == old(w)@ + form_bytes(versioned_form(K_FORM_PACK, 1), body@, order),
{
    FormDescriptor {
        magic: FourCC::from_u32(K_CHUNK_RFRM),
        size: 0,
        unk: 0,
        id: FourCC::from_u32(K_FORM_PACK),
        reader_version: 1,
        writer_version: 1,
    }.write(w, body, order);
}

proof fn lemma_positions_len(s: Seq<Asset>, o: Seq<int>, start: int, k: int)
    requires
        k <= o.len(),
        forall|t: int| 0 <= t < o.len() ==> 0 <= #[trigger] o[t] < o.len(),
    ensures
        data_positions(s, o, start, k).len() == o.len(),
    decreases k,
{
    if k > 0 {
        lemma_positions_len(s, o, start, k - 1);
    }
}

proof fn lemma_chunk_bytes_len(h: ChunkDescriptor, body: Seq<u8>, e: Endian)
    ensures
        spec_chunk_bytes(h, body, e).len() == 24 + h.skip + body.len(),
{
}

proof fn lemma_form_bytes_len(h: FormDescriptor, body: Seq<u8>, e: Endian)
    ensures
        form_bytes(h, body, e).len() == 32 + body.len(),
{
    reveal(spec_form_header_bytes);
}

/// Length of the written package form.
proof fn lemma_package_len(s: Seq<Asset>, base: int, e: Endian)
    ensures
        spec_package_bytes(s, base, e).len() == data_start(s, base) - base + data_run(
            s,
            data_order(s),
            data_order(s).len() as int,
        ).len(),
{
    reveal(spec_package_bytes);
    reveal(toc_body);
    reveal(adir_data);
    let o = data_order(s);
    let offsets = data_positions(s, o, data_start(s, base), o.len() as int);
    lemma_adir_entries_len(s, offsets, s.len() as int, e);
    let tb = toc_body(s, offsets, e);
    lemma_chunk_bytes_len(toc_chunk(K_CHUNK_ADIR), adir_data(s, offsets, e), e);
    lemma_chunk_bytes_len(toc_chunk(K_CHUNK_META), meta_data(s), e);
    lemma_chunk_bytes_len(toc_chunk(K_CHUNK_STRG), strg_data(s), e);
    assert(adir_data(s, offsets, e).len() == 4 + 52 * entries_total(
        s,
        first_indices(s.len() as int),
        s.len() as int,
    ));
    lemma_form_bytes_len(versioned_form(K_FORM_TOCC, 3), tb, e);
    let tocc = form_bytes(versioned_form(K_FORM_TOCC, 3), tb, e);
    lemma_form_bytes_len(versioned_form(K_FORM_PACK, 1), tocc + data_run(s, o, o.len() as int), e);
}

/// The package form is the PACK form holding the TOCC form and the data.
proof fn lemma_package_parts(s: Seq<Asset>, base: int, e: Endian, offsets: Seq<u64>)
    requires
        offsets == data_positions(s, data_order(s), data_start(s, base), data_order(s).len() as int),
    ensures
        spec_package_bytes(s, base, e) == form_bytes(
            versioned_form(K_FORM_PACK, 1),
            form_bytes(versioned_form(K_FORM_TOCC, 3), toc_body(s, offsets, e), e) + data_run(
                s,
                data_order(s),
                data_order(s).len() as int,
            ),
            e,
        ),
{
    reveal(spec_package_bytes);
}

/// The table of contents' data is the three chunks.
proof fn lemma_toc_parts(s: Seq<Asset>, offsets: Seq<u64>, e: Endian)
    ensures
        toc_body(s, offsets, e) == spec_chunk_bytes(toc_chunk(K_CHUNK_ADIR), adir_data(s, offsets, e), e)
            + spec_chunk_bytes(toc_chunk(K_CHUNK_META), meta_data(s), e) + spec_chunk_bytes(
            toc_chunk(K_CHUNK_STRG),
            strg_data(s),
            e,
        ),
{
    reveal(toc_body);
}

impl Package {
    /// Writes the package at the end of `w`: the PACK form, holding the TOCC form
    /// (asset directory, metadata table, string table) and the assets' data, then
    /// zeros up to a multiple of 16 bytes. Offsets in the directory are positions in
    /// `w`. Fails, writing nothing, when the assets are not in ascending order of ID.
    pub fn write(&self, w: &mut Vec<u8>, order: Endian) -> (r: Result<(), FormatError>)
        requires
            write_fits(self.assets@, old(w)@.len() as int, order),
        ensures
            ids_ascending(self.assets@) ==> r is Ok && final(w)@ == old(w)@ + spec_write(
                self.assets@,
                old(w)@.len() as int,
                order,
            ),
            ids_ascending(self.assets@) ==> final(w)@.len() % 16 == 0,
            !ids_ascending(self.assets@) ==> r == Err::<(), FormatError>(FormatError::UnsortedAssets)
                && final(w)@ == old(w)@,
    {
        let assets = &self.assets;
        if !check_order(assets) {
            return Err(FormatError::UnsortedAssets);
        }
        let ghost s = assets@;
        let base = w.len();
        let all = index_list(assets.len());
        let groups = count_groups(assets, &all);
        let o = stable_order_exec(assets, groups);
        let ghost os = as_ints(o@);
        proof {
            assert(all_ids(s) == ids_at(s, as_ints(all@)));
            assert(os == data_order(s));
            lemma_counts_le(s, s.len() as int);
            lemma_package_len(s, base as int, order);
            lemma_meta_table_len(
                s,
                meta_indices(s, s.len() as int),
                meta_indices(s, s.len() as int).len() as int,
            );
        }
        let meta = build_meta(assets);
        let strg = build_strg(assets);
        let count = total_entries(assets, &all);
        let start: usize = base + 64 + 24 + 4 + 52 * count + 24 + meta.len() + 24 + strg.len();
        let (offsets, data) = place_data(assets, &o, start);
        proof {
            assert forall|t: int| 0 <= t < os.len() implies 0 <= #[trigger] os[t] < os.len() by {
                assert(os[t] == o@[t] as int);
            }
            lemma_positions_len(s, os, start as int, os.len() as int);
        }
        let adir = build_adir(assets, &offsets, order);
        let tocc = build_toc(adir.as_slice(), meta.as_slice(), strg.as_slice(), order);
        let mut pack_body = tocc;
        push_bytes(&mut pack_body, data.as_slice());
        let ghost w0 = w@;
        write_pack_form(w, pack_body.as_slice(), order);
        proof {
            lemma_toc_parts(s, offsets@, order);
            lemma_package_parts(s, base as int, order, offsets@);
            assert(pack_body@ =~= form_bytes(
                versioned_form(K_FORM_TOCC, 3),
                toc_body(s, offsets@, order),
                order,
            ) + data_run(s, os, os.len() as int));
        }
        let pos = w.len();
        let pad: usize = (pos + 15) / 16 * 16 - pos;
        let fill: Vec<u8> = vec![0u8; pad];
        push_bytes(w, fill.as_slice());
        proof {
            assert(fill@ =~= zeros(pad as int));
            assert(((pos + 15) / 16 * 16) % 16 == 0) by (nonlinear_arith);
        }
        Ok(())
    }
}

/// The first position from `p` on in `s` whose asset's ID is above `id`, or the
/// length of `s`.
pub open spec fn first_id_after(s: Seq<Asset>, id: u128, p: int) -> int
    decreases s.len() - p,
{
    if p >= s.len() || p < 0 {
        s.len() as int
    } else if s[p].id > id {
        p
    } else {
        first_id_after(s, id, p + 1)
    }
}

/// `s` in ascending order of ID, assets with equal IDs keeping their order (each is
/// placed after those before it whose ID is not larger).
pub open spec fn sort_by_id(s: Seq<Asset>) -> Seq<Asset>
    decreases s.len(),
{
    if s.len() == 0 {
        Seq::empty()
    } else {
        let o = sort_by_id(s.drop_last());
        o.insert(first_id_after(o, s.last().id, 0), s.last())
    }
}

proof fn lemma_first_id_after(s: Seq<Asset>, id: u128, p: int)
    requires
        0 <= p <= s.len(),
    ensures
        p <= first_id_after(s, id, p) <= s.len(),
        forall|q: int| p <= q < first_id_after(s, id, p) ==> #[trigger] s[q].id <= id,
        first_id_after(s, id, p) < s.len() ==> s[first_id_after(s, id, p)].id > id,
    decreases s.len() - p,
{
    if p < s.len() && s[p].id <= id {
        lemma_first_id_after(s, id, p + 1);
    }
}

/// Sorting by ID keeps the number of assets and leaves the IDs ascending.
pub proof fn lemma_sort_by_id(s: Seq<Asset>)
    ensures
        sort_by_id(s).len() == s.len(),
        ids_ascending(sort_by_id(s)),
    decreases s.len(),
{
    if s.len() > 0 {
        let o = sort_by_id(s.drop_last());
        lemma_sort_by_id(s.drop_last());
        let a = s.last();
        lemma_first_id_after(o, a.id, 0);
        let p = first_id_after(o, a.id, 0);
        let r = o.insert(p, a);
        assert forall|i: int| 0 < i < r.len() implies r[i - 1].id <= #[trigger] r[i].id by {
            if i < p {
                assert(r[i - 1] == o[i - 1] && r[i] == o[i]);
            } else if i == p {
                assert(r[i - 1] == o[i - 1]);
            } else if i == p + 1 {
                assert(r[i] == o[p]);
            } else {
                assert(r[i - 1] == o[i - 2] && r[i] == o[i - 1]);
            }
        }
    }
}

/// Sorts `assets` by ID (see `sort_by_id`), as packaging does before writing.
pub fn sort_assets_by_id(assets: Vec<Asset>) -> (r: Vec<Asset>)
    ensures
        r@ == sort_by_id(assets@),
        ids_ascending(r@),
{
    let ghost input = assets@;
    let mut rest = assets;
    let total = rest.len();
    let mut out: Vec<Asset> = Vec::new();
    let mut k: usize = 0;
    proof {
        assert(input.take(0) =~= Seq::<Asset>::empty());
    }
    while rest.len() > 0
        invariant
            k + rest@.len() == input.len(),
            total == input.len(),
            rest@ == input.skip(k as int),
            out@ == sort_by_id(input.take(k as int)),
        decreases rest@.len(),
    {
        let a = rest.remove(0);
        let ghost o = out@;
        let mut p: usize = 0;
        while p < out.len() && out[p].id <= a.id
            invariant
                o == out@,
                p <= out@.len(),
                first_id_after(o, a.id, 0) == first_id_after(o, a.id, p as int),
            decreases out.len() - p,
        {
            p = p + 1;
        }
        out.insert(p, a);
        proof {
            assert(input[k as int] == a);
            assert(input.take(k + 1).drop_last() =~= input.take(k as int));
            assert(input.take(k + 1).last() == a);
            assert(rest@ =~= input.skip(k + 1));
        }
        k = k + 1;
    }
    proof {
        assert(input.take(k as int) =~= input);
        lemma_sort_by_id(input);
    }
    out
}

} // verus!

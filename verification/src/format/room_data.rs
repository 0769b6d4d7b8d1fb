//! Reading a room resource: its string pool, header and baked lighting, script data
//! and layers.
use vstd::prelude::*;
use crate::format::FormatError;
use crate::format::pack::{read_uuid, spec_uuid_at};
use crate::format::room::{PooledString, SConnection, SScriptLink, SizeofAllocations, StringPool};
use crate::format::{spec_utf8, string_from_utf8};
use crate::util::read::{Endian, read_u16, read_u32, read_u8, spec_u16, spec_u32};

verus! {

/// The 32-bit little-endian number at `pos`.
pub open spec fn le32(s: Seq<u8>, pos: int) -> u32 {
    spec_u32(s, pos, Endian::Little) as u32
}

/// The 16-bit little-endian number at `pos`.
pub open spec fn le16(s: Seq<u8>, pos: int) -> u16 {
    spec_u16(s, pos, Endian::Little) as u16
}

/// The little-endian UUID at `pos`.
pub open spec fn id_at(s: Seq<u8>, pos: int) -> u128 {
    spec_uuid_at(s, pos, Endian::Little)
}

/// `n` UUIDs from `pos` on.
pub open spec fn ids_at(s: Seq<u8>, pos: int, n: int) -> Seq<u128> {
    Seq::new(n as nat, |i: int| id_at(s, pos + 16 * i))
}

fn read_ids(s: &[u8], pos: usize, n: usize) -> (r: Vec<u128>)
    requires
        pos + 16 * n <= s@.len(),
    ensures
        r@ == ids_at(s@, pos as int, n as int),
{
    let len = s.len();
    let mut v: Vec<u128> = Vec::new();
    let mut i: usize = 0;
    while i < n
        invariant
            len == s@.len(),
            pos + 16 * n <= s@.len(),
            i <= n,
            v@ == ids_at(s@, pos as int, i as int),
        decreases n - i,
    {
        v.push(read_uuid(s, pos + 16 * i, Endian::Little));
        i = i + 1;
        assert(v@ =~= ids_at(s@, pos as int, i as int));
    }
    v
}

/// The value of a string pool.
pub open spec fn pool_fields(p: StringPool) -> (u32, u32, u32, Seq<u8>, u32, u32, u32, Seq<u8>) {
    (p.unk1, p.num_strings, p.pool_len, p.pool_data@, p.unk2, p.unk3, p.unk_pool_len, p.unk_pool_data@)
}

/// The little-endian string pool at the start of `s`: two words; when it has
/// strings, the pool's length and bytes; two more words and a second pool.
pub open spec fn spec_string_pool(s: Seq<u8>) -> Option<(u32, u32, u32, Seq<u8>, u32, u32, u32, Seq<u8>)> {
    if s.len() < 8 {
        None
    } else {
        let num = le32(s, 4);
        let (ok, pool_len, p) = if num > 0 {
            if s.len() < 12 {
                (false, 0u32, 0int)
            } else {
                (true, le32(s, 8), 12 + le32(s, 8))
            }
        } else {
            (true, 0u32, 8int)
        };
        if !ok || p + 12 > s.len() {
            None
        } else {
            let unk_len = le32(s, p + 8);
            if p + 12 + unk_len > s.len() {
                None
            } else {
                Some(
                    (
                        le32(s, 0),
                        num,
                        pool_len,
                        s.subrange(p - pool_len, p),
                        le32(s, p),
                        le32(s, p + 4),
                        unk_len,
                        s.subrange(p + 12, p + 12 + unk_len),
                    ),
                )
            }
        }
    }
}

/// Reads the string pool at the start of `s` (see `spec_string_pool`).
pub fn read_string_pool(s: &[u8]) -> (r: Option<StringPool>)
    ensures
        match r {
            Some(p) => spec_string_pool(s@) == Some(pool_fields(p)),
            None => spec_string_pool(s@) is None,
        },
{
    let len = s.len();
    if len < 8 {
        return None;
    }
    let unk1 = read_u32(s, 0, Endian::Little).unwrap();
    let num = read_u32(s, 4, Endian::Little).unwrap();
    let (pool_len, p): (u32, usize) = if num > 0 {
        if len < 12 {
            return None;
        }
        let l = read_u32(s, 8, Endian::Little).unwrap();
        if l as usize > len - 12 {
            return None;
        }
        (l, 12 + l as usize)
    } else {
        (0, 8)
    };
    if p > len || len - p < 12 {
        return None;
    }
    let unk_len = read_u32(s, p + 8, Endian::Little).unwrap();
    if len - p - 12 < unk_len as usize {
        return None;
    }
    let pool_data = vstd::slice::slice_to_vec(&s[p - pool_len as usize..p]);
    let unk_pool_data = vstd::slice::slice_to_vec(&s[p + 12..p + 12 + unk_len as usize]);
    Some(
        StringPool {
            unk1,
            num_strings: num,
            pool_len,
            pool_data,
            unk2: read_u32(s, p, Endian::Little).unwrap(),
            unk3: read_u32(s, p + 4, Endian::Little).unwrap(),
            unk_pool_len: unk_len,
            unk_pool_data,
        },
    )
}

/// Header of a room (game area): IDs of the parent room and of related objects, and
/// three unknown numbers.
#[derive(Copy, Clone, Debug, PartialEq, Eq, Structural)]
pub struct SGameAreaHeader {
    pub parent_room_id: u128,
    pub unk1: u16,
    pub unk2: u16,
    pub unk3: u8,
    pub id_b: u128,
    pub id_c: u128,
    pub id_d: u128,
    pub id_e: u128,
    pub path_find_area_id: u128,
}

/// The little-endian room header at the start of `s` (101 bytes).
pub open spec fn spec_area_header(s: Seq<u8>) -> Option<SGameAreaHeader> {
    if s.len() < 101 {
        None
    } else {
        Some(
            SGameAreaHeader {
                parent_room_id: id_at(s, 0),
                unk1: le16(s, 16),
                unk2: le16(s, 18),
                unk3: s[20],
                id_b: id_at(s, 21),
                id_c: id_at(s, 37),
                id_d: id_at(s, 53),
                id_e: id_at(s, 69),
                path_find_area_id: id_at(s, 85),
            },
        )
    }
}

/// Reads the room header at the start of `s` (see `spec_area_header`).
pub fn read_area_header(s: &[u8]) -> (r: Option<SGameAreaHeader>)
    ensures
        r == spec_area_header(s@),
{
    if s.len() < 101 {
        return None;
    }
    let e = Endian::Little;
    Some(
        SGameAreaHeader {
            parent_room_id: read_uuid(s, 0, e),
            unk1: read_u16(s, 16, e).unwrap(),
            unk2: read_u16(s, 18, e).unwrap(),
            unk3: read_u8(s, 20).unwrap(),
            id_b: read_uuid(s, 21, e),
            id_c: read_uuid(s, 37, e),
            id_d: read_uuid(s, 53, e),
            id_e: read_uuid(s, 69, e),
            path_find_area_id: read_uuid(s, 85, e),
        },
    )
}

/// `n` vectors of four floats (held as their bits) from `pos` on.
pub open spec fn lookups_at(s: Seq<u8>, pos: int, n: int) -> Seq<(u32, u32, u32, u32)> {
    Seq::new(
        n as nat,
        |i: int|
            (le32(s, pos + 16 * i), le32(s, pos + 16 * i + 4), le32(s, pos + 16 * i + 8), le32(s, pos + 16 * i + 12)),
    )
}

fn read_lookups(s: &[u8], pos: usize, n: usize) -> (r: Vec<(u32, u32, u32, u32)>)
    requires
        pos + 16 * n <= s@.len(),
    ensures
        r@ == lookups_at(s@, pos as int, n as int),
{
    let len = s.len();
    let e = Endian::Little;
    let mut v: Vec<(u32, u32, u32, u32)> = Vec::new();
    let mut i: usize = 0;
    while i < n
        invariant
            len == s@.len(),
            e == Endian::Little,
            pos + 16 * n <= s@.len(),
            i <= n,
            v@ == lookups_at(s@, pos as int, i as int),
        decreases n - i,
    {
        let at = pos + 16 * i;
        let x = read_u32(s, at, e).unwrap();
        let y = read_u32(s, at + 4, e).unwrap();
        let z = read_u32(s, at + 8, e).unwrap();
        let w = read_u32(s, at + 12, e).unwrap();
        let ghost before = v@;
        v.push((x, y, z, w));
        assert(v@[i as int] == lookups_at(s@, pos as int, i + 1)[i as int]);
        assert(before =~= lookups_at(s@, pos as int, i as int));
        i = i + 1;
        assert(v@ =~= lookups_at(s@, pos as int, i as int));
    }
    v
}

/// Baked light map of a room: its texture, object IDs and atlas lookups (vectors of
/// four floats, held as their bits).
#[derive(Clone, Debug)]
pub struct BakedLightingLightMap {
    pub txtr_id: u128,
    pub ids: Vec<u128>,
    pub atlas_lookups: Vec<(u32, u32, u32, u32)>,
}

/// Baked light probe of a room: the light probe bundle's ID.
#[derive(Copy, Clone, Debug, PartialEq, Eq, Structural)]
pub struct BakedLightingLightProbe {
    pub ltpb_id: u128,
}

/// Baked lighting of a room: a light map and a light probe, each present when its
/// flag (bit 0, bit 1) is set.
#[derive(Clone, Debug)]
pub struct BakedLighting {
    pub flags: u32,
    pub light_map: Option<BakedLightingLightMap>,
    pub light_probe: Option<BakedLightingLightProbe>,
}

/// The value of baked lighting.
pub open spec fn lighting_fields(b: BakedLighting) -> (u32, Option<(u128, Seq<u128>, Seq<(u32, u32, u32, u32)>)>, Option<u128>) {
    (
        b.flags,
        match b.light_map {
            Some(m) => Some((m.txtr_id, m.ids@, m.atlas_lookups@)),
            None => None,
        },
        match b.light_probe {
            Some(p) => Some(p.ltpb_id),
            None => None,
        },
    )
}

/// The little-endian light map at `pos`, with the position after it: the texture ID,
/// then a 32-bit count and that many IDs, then a 32-bit count and that many lookups.
pub open spec fn spec_light_map(s: Seq<u8>, pos: int) -> Option<((u128, Seq<u128>, Seq<(u32, u32, u32, u32)>), int)> {
    if pos + 20 > s.len() {
        None
    } else {
        let n1 = le32(s, pos + 16);
        let p2 = pos + 20 + 16 * n1;
        if p2 + 4 > s.len() {
            None
        } else {
            let n2 = le32(s, p2);
            let end = p2 + 4 + 16 * n2;
            if end > s.len() {
                None
            } else {
                Some(((id_at(s, pos), ids_at(s, pos + 20, n1 as int), lookups_at(s, p2 + 4, n2 as int)), end))
            }
        }
    }
}

/// The little-endian baked lighting at the start of `s`.
pub open spec fn spec_lighting(s: Seq<u8>) -> Option<(u32, Option<(u128, Seq<u128>, Seq<(u32, u32, u32, u32)>)>, Option<u128>)> {
    if s.len() < 4 {
        None
    } else {
        let flags = le32(s, 0);
        let (map, p) = if flags & 1 != 0 {
            match spec_light_map(s, 4) {
                Some((m, p)) => (Some(Some(m)), p),
                None => (None, 0int),
            }
        } else {
            (Some(None), 4int)
        };
        match map {
            None => None,
            Some(m) => if flags & 2 != 0 {
                if p + 16 > s.len() {
                    None
                } else {
                    Some((flags, m, Some(id_at(s, p))))
                }
            } else {
                Some((flags, m, None))
            },
        }
    }
}

fn read_light_map(s: &[u8], pos: usize) -> (r: Option<(BakedLightingLightMap, usize)>)
    requires
        pos <= s@.len(),
    ensures
        match r {
            Some((m, p)) => spec_light_map(s@, pos as int) == Some(((m.txtr_id, m.ids@, m.atlas_lookups@), p as int)),
            None => spec_light_map(s@, pos as int) is None,
        },
{
    let len = s.len();
    if len - pos < 20 {
        return None;
    }
    let n1 = read_u32(s, pos + 16, Endian::Little).unwrap() as usize;
    if (len - pos - 20) / 16 < n1 {
        return None;
    }
    let p2 = pos + 20 + 16 * n1;
    if len - p2 < 4 {
        return None;
    }
    let n2 = read_u32(s, p2, Endian::Little).unwrap() as usize;
    if (len - p2 - 4) / 16 < n2 {
        return None;
    }
    let end = p2 + 4 + 16 * n2;
    let txtr_id = read_uuid(s, pos, Endian::Little);
    let ids = read_ids(s, pos + 20, n1);
    let atlas_lookups = read_lookups(s, p2 + 4, n2);
    Some((BakedLightingLightMap { txtr_id, ids, atlas_lookups }, end))
}

/// Where the parts of baked lighting are read: the flags are the first word; bit 0
/// says whether a light map follows (its texture ID at byte 4, then a count and that
/// many IDs, then a count and that many lookups) and bit 1 whether a light probe ID
/// follows, stored right after the light map (or right after the flags when there is
/// none).
pub proof fn lemma_lighting_layout(s: Seq<u8>)
    requires
        spec_lighting(s) is Some,
    ensures
        ({
            let (flags, map, probe) = spec_lighting(s)->Some_0;
            let n1 = spec_u32(s, 20, Endian::Little);
            let n2 = spec_u32(s, 24 + 16 * n1, Endian::Little);
            let probe_at = if flags & 1 != 0 {
                28 + 16 * n1 + 16 * n2
            } else {
                4
            };
            &&& flags == spec_u32(s, 0, Endian::Little)
            &&& map is Some <==> flags & 1 != 0
            &&& probe is Some <==> flags & 2 != 0
            &&& (map matches Some((tid, ids, lookups)) ==> {
                &&& tid == spec_uuid_at(s, 4, Endian::Little)
                &&& ids.len() == n1
                &&& lookups.len() == n2
                &&& forall|i: int| 0 <= i < n1 ==> #[trigger] ids[i] == spec_uuid_at(s, 24 + 16 * i, Endian::Little)
            })
            &&& (probe matches Some(id) ==> id == spec_uuid_at(s, probe_at, Endian::Little) && probe_at + 16 <= s.len())
        }),
{
}

/// Reads the baked lighting at the start of `s` (see `spec_lighting`).
pub fn read_lighting(s: &[u8]) -> (r: Option<BakedLighting>)
    ensures
        match r {
            Some(b) => spec_lighting(s@) == Some(lighting_fields(b)),
            None => spec_lighting(s@) is None,
        },
{
    if s.len() < 4 {
        return None;
    }
    let flags = read_u32(s, 0, Endian::Little).unwrap();
    let (light_map, p) = if flags & 1 != 0 {
        match read_light_map(s, 4) {
            Some((m, p)) => (Some(m), p),
            None => {
                return None;
            },
        }
    } else {
        (None, 4)
    };
    let light_probe = if flags & 2 != 0 {
        if s.len() - p < 16 {
            return None;
        }
        Some(BakedLightingLightProbe { ltpb_id: read_uuid(s, p, Endian::Little) })
    } else {
        None
    };
    Some(BakedLighting { flags, light_map, light_probe })
}

/// Header of a room's script data: the numbers of component properties and of
/// instance data, and pairs of IDs and numbers.
#[derive(Clone, Debug)]
pub struct ScriptDataHeader {
    pub properties_count: u32,
    pub instance_data_count: u32,
    pub data_len: u32,
    pub ids: Vec<u128>,
    pub pairs: Vec<crate::format::room::ScriptDataPairs>,
}

/// The counts of a script data header, in the order stored.
pub open spec fn sdhr_counts(h: ScriptDataHeader) -> (u32, u32) {
    (h.properties_count, h.instance_data_count)
}

/// The little-endian script data header at the start of `s`: three counts, then as
/// many IDs and pairs as the third gives; its two first counts.
pub open spec fn spec_sdhr(s: Seq<u8>) -> Option<(u32, u32)> {
    if s.len() < 12 || 12 + 24 * le32(s, 8) > s.len() {
        None
    } else {
        Some((le32(s, 0), le32(s, 4)))
    }
}

/// Reads the script data header at the start of `s` (see `spec_sdhr`).
pub fn read_sdhr(s: &[u8]) -> (r: Option<ScriptDataHeader>)
    ensures
        match r {
            Some(h) => {
                &&& spec_sdhr(s@) == Some(sdhr_counts(h))
                &&& h.data_len == le32(s@, 8)
                &&& h.ids@ == ids_at(s@, 12, h.data_len as int)
                &&& crate::util::read::spec_parse_records::<crate::format::room::ScriptDataPairs>(
                    s@,
                    12 + 16 * h.data_len,
                    h.data_len as int,
                    Endian::Little,
                ) == Some(h.pairs@)
            },
            None => spec_sdhr(s@) is None,
        },
{
    let len = s.len();
    if len < 12 {
        return None;
    }
    let n = read_u32(s, 8, Endian::Little).unwrap() as usize;
    if (len - 12) / 24 < n {
        return None;
    }
    let ids = read_ids(s, 12, n);
    let pairs = match crate::util::read::read_records::<crate::format::room::ScriptDataPairs>(s, 12 + 16 * n, n, Endian::Little) {
        Some(p) => p,
        None => {
            proof {
                crate::util::read::lemma_records_none_means_short::<crate::format::room::ScriptDataPairs>(
                    s@,
                    12 + 16 * n,
                    n as int,
                    Endian::Little,
                );
            }
            return None;
        },
    };
    Some(
        ScriptDataHeader {
            properties_count: read_u32(s, 0, Endian::Little).unwrap(),
            instance_data_count: read_u32(s, 4, Endian::Little).unwrap(),
            data_len: n as u32,
            ids,
            pairs,
        },
    )
}

/// The value of a size record: its word and its two skipped byte runs.
pub type SizeofView = (u32, Seq<u8>, Seq<u8>);

pub open spec fn sizeof_view(x: SizeofAllocations) -> SizeofView {
    (x.a, x.skip1@, x.skip2@)
}

/// The little-endian size record at `pos`, with the position after it: a word; when
/// it is not zero, a 16-bit count and that many bytes, then a 32-bit count and that
/// many bytes.
pub open spec fn spec_sizeof(s: Seq<u8>, pos: int) -> Option<(SizeofView, int)> {
    if pos + 4 > s.len() {
        None
    } else {
        let a = le32(s, pos);
        if a == 0 {
            Some(((a, Seq::empty(), Seq::empty()), pos + 4))
        } else if pos + 6 > s.len() {
            None
        } else {
            let n1 = le16(s, pos + 4);
            let p = pos + 6 + n1;
            if p + 4 > s.len() {
                None
            } else {
                let n2 = le32(s, p);
                if p + 4 + n2 > s.len() {
                    None
                } else {
                    Some(((a, s.subrange(pos + 6, p), s.subrange(p + 4, p + 4 + n2)), p + 4 + n2))
                }
            }
        }
    }
}

fn read_sizeof(s: &[u8], pos: usize) -> (r: Option<(SizeofAllocations, usize)>)
    requires
        pos <= s@.len(),
    ensures
        match r {
            Some((x, p)) => spec_sizeof(s@, pos as int) == Some((sizeof_view(x), p as int)),
            None => spec_sizeof(s@, pos as int) is None,
        },
{
    let len = s.len();
    if len - pos < 4 {
        return None;
    }
    let a = read_u32(s, pos, Endian::Little).unwrap();
    if a == 0 {
        let x = SizeofAllocations { a, skip1: Vec::new(), skip2: Vec::new() };
        assert(sizeof_view(x) =~= (a, Seq::<u8>::empty(), Seq::<u8>::empty()));
        return Some((x, pos + 4));
    }
    if len - pos < 6 {
        return None;
    }
    let n1 = read_u16(s, pos + 4, Endian::Little).unwrap() as usize;
    if len - pos - 6 < n1 {
        return None;
    }
    let p = pos + 6 + n1;
    if len - p < 4 {
        return None;
    }
    let n2 = read_u32(s, p, Endian::Little).unwrap() as usize;
    if len - p - 4 < n2 {
        return None;
    }
    let x = SizeofAllocations {
        a,
        skip1: vstd::slice::slice_to_vec(&s[pos + 6..p]),
        skip2: vstd::slice::slice_to_vec(&s[p + 4..p + 4 + n2]),
    };
    Some((x, p + 4 + n2))
}

/// The value of a connection.
pub type ConnectionView = (Seq<u8>, SizeofView, SizeofView, Seq<u8>);

pub open spec fn connection_view(c: SConnection) -> ConnectionView {
    (c.skip0@, sizeof_view(c.event_criteria_sldr), sizeof_view(c.action_payload_sldr), c.skip1@)
}

/// The connection at `pos`, with the position after it: 26 skipped bytes, two size
/// records, 19 skipped bytes.
pub open spec fn spec_connection(s: Seq<u8>, pos: int) -> Option<(ConnectionView, int)> {
    if pos + 26 > s.len() {
        None
    } else {
        match spec_sizeof(s, pos + 26) {
            None => None,
            Some((x1, p1)) => match spec_sizeof(s, p1) {
                None => None,
                Some((x2, p2)) => if p2 + 19 > s.len() {
                    None
                } else {
                    Some(((s.subrange(pos, pos + 26), x1, x2, s.subrange(p2, p2 + 19)), p2 + 19))
                },
            },
        }
    }
}

fn read_connection(s: &[u8], pos: usize) -> (r: Option<(SConnection, usize)>)
    requires
        pos <= s@.len(),
    ensures
        match r {
            Some((x, p)) => spec_connection(s@, pos as int) == Some((connection_view(x), p as int)),
            None => spec_connection(s@, pos as int) is None,
        },
{
    let len = s.len();
    if len - pos < 26 {
        return None;
    }
    let (x1, p1) = read_sizeof(s, pos + 26)?;
    let (x2, p2) = read_sizeof(s, p1)?;
    if len - p2 < 19 {
        return None;
    }
    let c = SConnection {
        skip0: vstd::slice::slice_to_vec(&s[pos..pos + 26]),
        event_criteria_sldr: x1,
        action_payload_sldr: x2,
        skip1: vstd::slice::slice_to_vec(&s[p2..p2 + 19]),
    };
    Some((c, p2 + 19))
}

/// The value of a script link.
pub type LinkView = (Seq<u8>, SizeofView, Seq<u8>);

pub open spec fn link_view(l: SScriptLink) -> LinkView {
    (l.skip0@, sizeof_view(l.c), l.skip1@)
}

/// The script link at `pos`, with the position after it: 20 skipped bytes, a size
/// record, 18 skipped bytes.
pub open spec fn spec_link(s: Seq<u8>, pos: int) -> Option<(LinkView, int)> {
    if pos + 20 > s.len() {
        None
    } else {
        match spec_sizeof(s, pos + 20) {
            None => None,
            Some((x, p)) => if p + 18 > s.len() {
                None
            } else {
                Some(((s.subrange(pos, pos + 20), x, s.subrange(p, p + 18)), p + 18))
            },
        }
    }
}

fn read_link(s: &[u8], pos: usize) -> (r: Option<(SScriptLink, usize)>)
    requires
        pos <= s@.len(),
    ensures
        match r {
            Some((x, p)) => spec_link(s@, pos as int) == Some((link_view(x), p as int)),
            None => spec_link(s@, pos as int) is None,
        },
{
    let len = s.len();
    if len - pos < 20 {
        return None;
    }
    let (x, p) = read_sizeof(s, pos + 20)?;
    if len - p < 18 {
        return None;
    }
    let l = SScriptLink {
        skip0: vstd::slice::slice_to_vec(&s[pos..pos + 20]),
        c: x,
        skip1: vstd::slice::slice_to_vec(&s[p..p + 18]),
    };
    Some((l, p + 18))
}

/// The first `k` of the connections stored one after another from `pos`, with the
/// position after them.
pub open spec fn spec_connections(s: Seq<u8>, pos: int, k: int) -> Option<(Seq<ConnectionView>, int)>
    decreases k,
{
    if k <= 0 {
        Some((Seq::empty(), pos))
    } else {
        match spec_connections(s, pos, k - 1) {
            None => None,
            Some((l, p)) => match spec_connection(s, p) {
                None => None,
                Some((c, q)) => Some((l.push(c), q)),
            },
        }
    }
}

/// The first `k` of the script links stored one after another from `pos`, with the
/// position after them.
pub open spec fn spec_links(s: Seq<u8>, pos: int, k: int) -> Option<(Seq<LinkView>, int)>
    decreases k,
{
    if k <= 0 {
        Some((Seq::empty(), pos))
    } else {
        match spec_links(s, pos, k - 1) {
            None => None,
            Some((l, p)) => match spec_link(s, p) {
                None => None,
                Some((c, q)) => Some((l.push(c), q)),
            },
        }
    }
}

proof fn lemma_connections_none(s: Seq<u8>, pos: int, k: int, n: int)
    requires
        0 <= k <= n,
        spec_connections(s, pos, k) is None,
    ensures
        spec_connections(s, pos, n) is None,
    decreases n - k,
{
    if k < n {
        lemma_connections_none(s, pos, k, n - 1);
    }
}

proof fn lemma_links_none(s: Seq<u8>, pos: int, k: int, n: int)
    requires
        0 <= k <= n,
        spec_links(s, pos, k) is None,
    ensures
        spec_links(s, pos, n) is None,
    decreases n - k,
{
    if k < n {
        lemma_links_none(s, pos, k, n - 1);
    }
}

proof fn lemma_position_grows(s: Seq<u8>, pos: int)
    ensures
        spec_connection(s, pos) matches Some((_, q)) ==> pos <= q <= s.len(),
        spec_link(s, pos) matches Some((_, q)) ==> pos <= q <= s.len(),
{
}

fn read_connections(s: &[u8], pos: usize, n: usize) -> (r: Option<(Vec<SConnection>, usize)>)
    requires
        pos <= s@.len(),
    ensures
        match r {
            Some((v, p)) => spec_connections(s@, pos as int, n as int) == Some(
                (v@.map_values(|c: SConnection| connection_view(c)), p as int),
            ),
            None => spec_connections(s@, pos as int, n as int) is None,
        },
{
    let mut v: Vec<SConnection> = Vec::new();
    let mut p = pos;
    let mut k: usize = 0;
    while k < n
        invariant
            pos <= p <= s@.len(),
            k <= n,
            spec_connections(s@, pos as int, k as int) == Some(
                (v@.map_values(|c: SConnection| connection_view(c)), p as int),
            ),
        decreases n - k,
    {
        proof {
            lemma_position_grows(s@, p as int);
        }
        match read_connection(s, p) {
            Some((c, q)) => {
                let ghost before = v@;
                v.push(c);
                assert(v@.map_values(|c: SConnection| connection_view(c)) =~= before.map_values(
                    |c: SConnection| connection_view(c),
                ).push(connection_view(c)));
                p = q;
            },
            None => {
                proof {
                    lemma_connections_none(s@, pos as int, k + 1, n as int);
                }
                return None;
            },
        }
        k = k + 1;
    }
    Some((v, p))
}

fn read_links(s: &[u8], pos: usize, n: usize) -> (r: Option<(Vec<SScriptLink>, usize)>)
    requires
        pos <= s@.len(),
    ensures
        match r {
            Some((v, p)) => spec_links(s@, pos as int, n as int) == Some(
                (v@.map_values(|c: SScriptLink| link_view(c)), p as int),
            ),
            None => spec_links(s@, pos as int, n as int) is None,
        },
{
    let mut v: Vec<SScriptLink> = Vec::new();
    let mut p = pos;
    let mut k: usize = 0;
    while k < n
        invariant
            pos <= p <= s@.len(),
            k <= n,
            spec_links(s@, pos as int, k as int) == Some(
                (v@.map_values(|c: SScriptLink| link_view(c)), p as int),
            ),
        decreases n - k,
    {
        proof {
            lemma_position_grows(s@, p as int);
        }
        match read_link(s, p) {
            Some((c, q)) => {
                let ghost before = v@;
                v.push(c);
                assert(v@.map_values(|c: SScriptLink| link_view(c)) =~= before.map_values(
                    |c: SScriptLink| link_view(c),
                ).push(link_view(c)));
                p = q;
            },
            None => {
                proof {
                    lemma_links_none(s@, pos as int, k + 1, n as int);
                }
                return None;
            },
        }
        k = k + 1;
    }
    Some((v, p))
}

/// Instance data of a game object component: its ID, its name, its connections and
/// its script links.
#[derive(Clone, Debug)]
pub struct SGOComponentInstanceData {
    pub id: u128,
    pub string: PooledString,
    pub connections: Vec<SConnection>,
    pub links: Vec<SScriptLink>,
}

/// The value of a pooled string.
pub open spec fn pooled_view(p: PooledString) -> (u32, u32, Seq<u8>) {
    (p.a, p.b, p.bytes@)
}

/// The value of instance data.
pub type InstanceView = (u128, (u32, u32, Seq<u8>), Seq<ConnectionView>, Seq<LinkView>);

pub open spec fn instance_view(x: SGOComponentInstanceData) -> InstanceView {
    (
        x.id,
        pooled_view(x.string),
        x.connections@.map_values(|c: SConnection| connection_view(c)),
        x.links@.map_values(|c: SScriptLink| link_view(c)),
    )
}

/// The little-endian instance data at the start of `s`: the ID, the pooled string
/// (two words, then its own bytes when the first is all ones), a 16-bit count and the
/// connections, a 16-bit count and the links.
pub open spec fn spec_instance(s: Seq<u8>) -> Option<InstanceView> {
    if s.len() < 24 {
        None
    } else {
        let a = le32(s, 16);
        let b = le32(s, 20);
        let nb: int = if a == u32::MAX {
            b as int
        } else {
            0
        };
        let p = 24 + nb;
        if p + 2 > s.len() {
            None
        } else {
            match spec_connections(s, p + 2, le16(s, p) as int) {
                None => None,
                Some((cs, q)) => if q + 2 > s.len() {
                    None
                } else {
                    match spec_links(s, q + 2, le16(s, q) as int) {
                        None => None,
                        Some((ls, _)) => Some((id_at(s, 0), (a, b, s.subrange(24, p)), cs, ls)),
                    }
                },
            }
        }
    }
}

/// Reads instance data at the start of `s` (see `spec_instance`).
pub fn read_instance(s: &[u8]) -> (r: Option<SGOComponentInstanceData>)
    ensures
        match r {
            Some(x) => spec_instance(s@) == Some(instance_view(x)),
            None => spec_instance(s@) is None,
        },
{
    let len = s.len();
    if len < 24 {
        return None;
    }
    let a = read_u32(s, 16, Endian::Little).unwrap();
    let b = read_u32(s, 20, Endian::Little).unwrap();
    let nb: usize = if a == u32::MAX {
        b as usize
    } else {
        0
    };
    if len - 24 < nb {
        return None;
    }
    let p = 24 + nb;
    if len - p < 2 {
        return None;
    }
    let n1 = read_u16(s, p, Endian::Little).unwrap() as usize;
    let (connections, q) = read_connections(s, p + 2, n1)?;
    if len - q < 2 {
        return None;
    }
    let n2 = read_u16(s, q, Endian::Little).unwrap() as usize;
    let (links, _) = read_links(s, q + 2, n2)?;
    let string = PooledString { a, b, bytes: vstd::slice::slice_to_vec(&s[24..p]) };
    Some(SGOComponentInstanceData { id: read_uuid(s, 0, Endian::Little), string, connections, links })
}

/// Header of a layer: its name, ID, an unknown word, IDs, an ID and a byte.
#[derive(Clone, Debug)]
pub struct LayerHeader {
    pub name: String,
    pub id: u128,
    pub unk: u32,
    pub ids: Vec<u128>,
    pub empty_id: u128,
    pub unk2: u8,
}

/// The value of a layer header.
pub type LayerHeaderView = (Seq<char>, u128, u32, Seq<u128>, u128, u8);

pub open spec fn layer_header_view(h: LayerHeader) -> LayerHeaderView {
    (h.name@, h.id, h.unk, h.ids@, h.empty_id, h.unk2)
}

/// The little-endian layer header at the start of `s`: the name (a 32-bit length and
/// UTF-8 bytes), the ID, a word, a 16-bit count and that many IDs, an ID and a byte;
/// `Err` when the name is not UTF-8, `Ok(None)` when it runs past the end.
pub open spec fn spec_layer_header(s: Seq<u8>) -> Option<LayerHeaderView> {
    if s.len() < 4 {
        None
    } else {
        let n = le32(s, 0) as int;
        let p = 4 + n;
        if p + 22 > s.len() {
            None
        } else {
            let k = le16(s, p + 20) as int;
            let q = p + 22 + 16 * k;
            if q + 17 > s.len() {
                None
            } else {
                match spec_utf8(s.subrange(4, p)) {
                    None => None,
                    Some(name) => Some((name, id_at(s, p), le32(s, p + 16), ids_at(s, p + 22, k), id_at(s, q), s[q + 16])),
                }
            }
        }
    }
}

/// Reads the layer header at the start of `s` (see `spec_layer_header`).
pub fn read_layer_header(s: &[u8]) -> (r: Option<LayerHeader>)
    ensures
        match r {
            Some(h) => spec_layer_header(s@) == Some(layer_header_view(h)),
            None => spec_layer_header(s@) is None,
        },
{
    let len = s.len();
    if len < 4 {
        return None;
    }
    let n = read_u32(s, 0, Endian::Little).unwrap() as usize;
    if len - 4 < n {
        return None;
    }
    let p = 4 + n;
    if len - p < 22 {
        return None;
    }
    let k = read_u16(s, p + 20, Endian::Little).unwrap() as usize;
    if (len - p - 22) / 16 < k {
        return None;
    }
    let q = p + 22 + 16 * k;
    if len - q < 17 {
        return None;
    }
    let name = string_from_utf8(vstd::slice::slice_to_vec(&s[4..p]))?;
    Some(
        LayerHeader {
            name,
            id: read_uuid(s, p, Endian::Little),
            unk: read_u32(s, p + 16, Endian::Little).unwrap(),
            ids: read_ids(s, p + 22, k),
            empty_id: read_uuid(s, q, Endian::Little),
            unk2: read_u8(s, q + 16).unwrap(),
        },
    )
}

} // verus!

use retrolib::format::chunk::ChunkDescriptor;
use retrolib::format::foot::{locate_asset_id, locate_meta};
use retrolib::format::pack::{full_fits_check, read_asset, read_full, read_header, read_sparse, StringTable, StringTableEntry};
use retrolib::format::rfrm::FormDescriptor;
use retrolib::format::{FormatError, FourCC};
use retrolib::util::read::Endian;
use retrolib::util::write::{push_bytes, push_u32, push_u64};

const ID_A: u128 = 0x0011_2233_4455_6677_8899_aabb_ccdd_eeff;
const ID_B: u128 = 0x1000_0000_0000_0000_0000_0000_0000_0002;

fn uuid_le(id: u128) -> [u8; 16] {
    let b = id.to_be_bytes();
    [b[3], b[2], b[1], b[0], b[5], b[4], b[7], b[6], b[8], b[9], b[10], b[11], b[12], b[13], b[14], b[15]]
}

fn form(id: &[u8; 4], rv: u32, wv: u32) -> FormDescriptor {
    FormDescriptor {
        magic: FourCC(*b"RFRM"),
        size: 0,
        unk: 0,
        id: FourCC(*id),
        reader_version: rv,
        writer_version: wv,
    }
}

fn chunk(id: &[u8; 4]) -> ChunkDescriptor {
    ChunkDescriptor { id: FourCC(*id), size: 0, unk: 1, skip: 0 }
}

fn asset_bytes(kind: &[u8; 4], rv: u32, wv: u32, body: &[u8]) -> Vec<u8> {
    let mut v = Vec::new();
    form(kind, rv, wv).write(&mut v, body, Endian::Little);
    v
}

/// A package of two assets: A (TXTR, one name, metadata) and B (CMDL, no names).
fn build_package() -> (Vec<u8>, Vec<u8>, Vec<u8>) {
    let a = asset_bytes(b"TXTR", 47, 51, &[9u8; 8]);
    let b = asset_bytes(b"CMDL", 114, 125, &[7u8; 3]);
    let toc = |offset_a: u64, offset_b: u64| -> Vec<u8> {
        let mut adir = Vec::new();
        push_u32(&mut adir, 2, Endian::Little);
        for (kind, id, rv, wv, off, len) in [
            (b"TXTR", ID_A, 47u32, 51u32, offset_a, a.len() as u64),
            (b"CMDL", ID_B, 114, 125, offset_b, b.len() as u64),
        ] {
            push_bytes(&mut adir, kind);
            push_bytes(&mut adir, &uuid_le(id));
            push_u32(&mut adir, rv, Endian::Little);
            push_u32(&mut adir, wv, Endian::Little);
            push_u64(&mut adir, off, Endian::Little);
            push_u64(&mut adir, len, Endian::Little);
            push_u64(&mut adir, len, Endian::Little);
        }
        let mut meta = Vec::new();
        push_u32(&mut meta, 1, Endian::Little);
        push_bytes(&mut meta, &uuid_le(ID_A));
        push_u32(&mut meta, 24, Endian::Little);
        push_u32(&mut meta, 4, Endian::Little);
        push_bytes(&mut meta, &[1, 2, 3, 4]);
        let mut strg = Vec::new();
        push_u32(&mut strg, 1, Endian::Little);
        push_bytes(&mut strg, b"RTXT");
        push_bytes(&mut strg, &uuid_le(ID_A));
        push_u32(&mut strg, 5, Endian::Little);
        push_bytes(&mut strg, b"tex_a");
        let mut body = Vec::new();
        chunk(b"ADIR").write(&mut body, &adir, Endian::Little);
        chunk(b"META").write(&mut body, &meta, Endian::Little);
        chunk(b"STRG").write(&mut body, &strg, Endian::Little);
        let mut tocc = Vec::new();
        form(b"TOCC", 3, 3).write(&mut tocc, &body, Endian::Little);
        tocc
    };
    let tocc_len = toc(0, 0).len() as u64;
    let offset_a = 32 + tocc_len;
    let offset_b = offset_a + a.len() as u64;
    let mut body = toc(offset_a, offset_b);
    body.extend_from_slice(&a);
    body.extend_from_slice(&b);
    let mut pack = Vec::new();
    form(b"PACK", 1, 1).write(&mut pack, &body, Endian::Little);
    (pack, a, b)
}

#[test]
fn sparse_listing_gives_ids_kinds_and_names() {
    let (pack, _, _) = build_package();
    let entries = read_sparse(&pack, Endian::Little).unwrap();
    assert_eq!(entries.len(), 2);
    assert_eq!(entries[0].id, ID_A);
    assert_eq!(entries[0].kind, FourCC(*b"TXTR"));
    assert_eq!(entries[0].names, vec!["tex_a".to_string()]);
    assert_eq!((entries[0].reader_version, entries[0].writer_version), (47, 51));
    assert_eq!(entries[1].id, ID_B);
    assert!(entries[1].names.is_empty());
}

#[test]
fn full_read_gives_data_and_metadata() {
    let (pack, a, b) = build_package();
    let package = read_full(&pack, Endian::Little, Endian::Little).unwrap();
    assert_eq!(package.assets.len(), 2);
    let first = &package.assets[0];
    assert_eq!(first.data, a);
    assert_eq!(first.meta, Some(vec![1, 2, 3, 4]));
    assert_eq!(first.info.compression_mode, 0);
    assert_eq!(first.info.id, ID_A);
    let second = &package.assets[1];
    assert_eq!(second.data, b);
    assert_eq!(second.meta, None);
    assert_eq!(second.version, 114);
    assert_eq!(second.info.orig_offset, first.info.orig_offset + a.len() as u64);
}

#[test]
fn header_keeps_only_the_table_of_contents() {
    let (pack, a, b) = build_package();
    let header = read_header(&pack, Endian::Little).unwrap();
    assert_eq!(header.len(), pack.len() - a.len() - b.len());
    assert_eq!(&header[32..], &pack[32..header.len()]);
    let (pack_form, body, rest) = FormDescriptor::slice(&header, Endian::Little).unwrap();
    assert_eq!(pack_form.id, FourCC(*b"PACK"));
    assert_eq!(body.len(), header.len() - 32);
    assert!(rest.is_empty());
}

#[test]
fn extracted_asset_carries_its_footer() {
    let (pack, a, _) = build_package();
    let extracted = read_asset(&pack, ID_A, Endian::Little).unwrap();
    assert_eq!(&extracted[..a.len()], &a[..]);
    assert_eq!(locate_asset_id(&extracted, Endian::Little).unwrap(), ID_A);
    assert_eq!(locate_meta(&extracted, Endian::Little).unwrap(), &[1, 2, 3, 4]);
}

#[test]
fn missing_asset_is_reported() {
    let (pack, _, _) = build_package();
    let r = read_asset(&pack, 0x42, Endian::Little);
    assert!(r.is_err());
}

#[test]
fn truncated_header_is_refused() {
    let r = read_sparse(&[0u8; 10], Endian::Little);
    assert_eq!(r.unwrap_err(), FormatError::InvalidFormHeader);
}

#[test]
fn wrong_form_kind_is_refused() {
    let bytes = asset_bytes(b"TXTR", 1, 1, &[]);
    let r = read_sparse(&bytes, Endian::Little);
    assert_eq!(r.unwrap_err(), FormatError::UnexpectedForm);
}

#[test]
fn written_package_reads_back() {
    let (pack, _, _) = build_package();
    let package = read_full(&pack, Endian::Little, Endian::Little).unwrap();
    let mut out = Vec::new();
    package.write(&mut out, Endian::Little).unwrap();
    assert_eq!(out.len() % 16, 0);
    let again = read_full(&out, Endian::Little, Endian::Little).unwrap();
    assert_eq!(again.assets.len(), package.assets.len());
    for (a, b) in again.assets.iter().zip(package.assets.iter()) {
        assert_eq!(a.id, b.id);
        assert_eq!(a.kind, b.kind);
        assert_eq!(a.names, b.names);
        assert_eq!(a.data, b.data);
        assert_eq!(a.meta, b.meta);
        assert_eq!((a.version, a.other_version), (b.version, b.other_version));
    }
    let sparse = read_sparse(&out, Endian::Little).unwrap();
    assert_eq!(sparse[0].names, vec!["tex_a".to_string()]);
}

#[test]
fn written_package_orders_data_by_original_offset() {
    let (pack, a, b) = build_package();
    let mut package = read_full(&pack, Endian::Little, Endian::Little).unwrap();
    // Claim the second asset came first in its original package.
    package.assets[1].info.orig_offset = 0;
    let mut out = vec![0xAAu8; 3];
    package.write(&mut out, Endian::Little).unwrap();
    assert_eq!(out.len() % 16, 0);
    let at_b = out.windows(b.len()).position(|w| w == &b[..]).unwrap();
    let at_a = out.windows(a.len()).position(|w| w == &a[..]).unwrap();
    assert!(at_b < at_a);
}

#[test]
fn unsorted_assets_are_refused() {
    let (pack, _, _) = build_package();
    let mut package = read_full(&pack, Endian::Little, Endian::Little).unwrap();
    package.assets.swap(0, 1);
    let mut out = vec![1u8, 2, 3];
    assert_eq!(package.write(&mut out, Endian::Little).unwrap_err(), FormatError::UnsortedAssets);
    assert_eq!(out, vec![1, 2, 3]);
}

#[test]
fn string_table_gives_first_name_of_an_asset() {
    let entry = |id: u128, name: &[u8]| StringTableEntry { kind: FourCC(*b"TXTR"), asset_id: id, name: name.to_vec() };
    let table = StringTable { entries: vec![entry(1, b"one"), entry(2, b"two"), entry(1, b"uno")] };
    assert_eq!(table.name_for_uuid(1), Some("one".to_string()));
    assert_eq!(table.name_for_uuid(2), Some("two".to_string()));
    assert_eq!(table.name_for_uuid(3), None);
}

#[test]
fn extracted_assets_start_with_their_full_read_data() {
    let (pack, _, _) = build_package();
    let package = read_full(&pack, Endian::Little, Endian::Little).unwrap();
    for asset in &package.assets {
        let extracted = read_asset(&pack, asset.id, Endian::Little).unwrap();
        assert!(extracted.len() > asset.data.len());
        assert_eq!(&extracted[..asset.data.len()], &asset.data[..]);
        assert_eq!(locate_asset_id(&extracted, Endian::Little).unwrap(), asset.id);
    }
}

#[test]
fn full_fit_check_accepts_a_whole_package() {
    let (pack, _, _) = build_package();
    assert!(full_fits_check(&pack, Endian::Little, Endian::Little));
}

#[test]
fn full_fit_check_refuses_a_truncated_package() {
    let (pack, _, b) = build_package();
    let cut = &pack[..pack.len() - b.len() / 2];
    assert!(!full_fits_check(cut, Endian::Little, Endian::Little));
}

#[test]
fn full_fit_check_refuses_metadata_past_its_table() {
    let (mut pack, _, _) = build_package();
    // The metadata table entry's offset (24) sits after the META chunk header; point
    // it past the chunk.
    let pos = pack.windows(4).position(|w| w == b"META").unwrap() + 24 + 4 + 16;
    pack[pos..pos + 4].copy_from_slice(&200u32.to_le_bytes());
    assert!(!full_fits_check(&pack, Endian::Little, Endian::Little));
}

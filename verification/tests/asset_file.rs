use retrolib::format::asset_file::{asset_file_bytes, asset_from_file};
use retrolib::format::foot::{locate_asset_id, locate_meta};
use retrolib::format::pack::{Asset, AssetInfo};
use retrolib::format::pack_write::sort_assets_by_id;
use retrolib::format::rfrm::FormDescriptor;
use retrolib::format::{FormatError, FourCC};
use retrolib::util::read::Endian;

fn asset(id: u128, names: &[&str], meta: Option<Vec<u8>>, offset: u64) -> Asset {
    let h = FormDescriptor {
        magic: FourCC(*b"RFRM"),
        size: 0,
        unk: 0,
        id: FourCC(*b"TXTR"),
        reader_version: 47,
        writer_version: 51,
    };
    let mut data = Vec::new();
    h.write(&mut data, &[1, 2, 3, 4, 5], Endian::Little);
    Asset {
        id,
        kind: FourCC(*b"TXTR"),
        names: names.iter().map(|s| s.to_string()).collect(),
        data,
        meta,
        info: AssetInfo { id, compression_mode: 1, orig_offset: offset },
        version: 47,
        other_version: 51,
    }
}

#[test]
fn asset_file_reads_back() {
    let a = asset(0x1234_5678_9abc_def0_0fed_cba9_8765_4321, &["first", "second"], Some(vec![7, 8, 9]), 0x40);
    let bytes = asset_file_bytes(&a);
    assert_eq!(&bytes[..a.data.len()], &a.data[..]);
    let b = asset_from_file(&bytes).unwrap();
    assert_eq!(b.id, a.id);
    assert_eq!(b.kind, a.kind);
    assert_eq!(b.names, a.names);
    assert_eq!(b.data, a.data);
    assert_eq!(b.meta, a.meta);
    assert_eq!(b.info, a.info);
    assert_eq!((b.version, b.other_version), (47, 51));
    assert_eq!(locate_asset_id(&bytes, Endian::Little).unwrap(), a.id);
    assert_eq!(locate_meta(&bytes, Endian::Little).unwrap(), &[7, 8, 9]);
}

#[test]
fn asset_file_without_names_or_metadata() {
    let a = asset(5, &[], None, 0);
    let b = asset_from_file(&asset_file_bytes(&a)).unwrap();
    assert!(b.names.is_empty());
    assert_eq!(b.meta, None);
    assert_eq!(b.info.orig_offset, 0);
}

#[test]
fn asset_file_without_footer_is_refused() {
    let a = asset(5, &[], None, 0);
    assert_eq!(asset_from_file(&a.data).unwrap_err(), FormatError::InvalidFormHeader);
}

#[test]
fn asset_file_without_information_is_refused() {
    let a = asset(5, &[], None, 0);
    let mut bytes = a.data.clone();
    let foot = FormDescriptor {
        magic: FourCC(*b"RFRM"),
        size: 0,
        unk: 0,
        id: FourCC(*b"FOOT"),
        reader_version: 1,
        writer_version: 1,
    };
    foot.write(&mut bytes, &[], Endian::Little);
    assert_eq!(asset_from_file(&bytes).unwrap_err(), FormatError::MissingChunk(0x4149_4E46));
}

#[test]
fn sorting_by_id_is_stable() {
    let v = vec![asset(3, &[], None, 0), asset(1, &[], None, 1), asset(3, &[], None, 2), asset(2, &[], None, 3)];
    let sorted = sort_assets_by_id(v);
    let ids: Vec<(u128, u64)> = sorted.iter().map(|a| (a.id, a.info.orig_offset)).collect();
    assert_eq!(ids, vec![(1, 1), (2, 3), (3, 0), (3, 2)]);
}

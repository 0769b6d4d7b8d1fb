use retrolib::format::chunk::ChunkDescriptor;
use retrolib::format::rfrm::FormDescriptor;
use retrolib::format::walk::ItemHeader;
use retrolib::format::{peek_four_cc, slice_chunks, CObjectId, CStringFixed, CVector3i, CVector4i, FormatError, FourCC};
use retrolib::util::astc::AstcU24;
use retrolib::util::read::{read_u16, read_u32, read_u64, Endian};
use retrolib::util::write::{push_u16, push_u32, push_u64};

#[test]
fn four_cc_value_round_trip() {
    let code = FourCC::from_u32(0x5246_524D);
    assert_eq!(code, FourCC(*b"RFRM"));
    assert_eq!(code.as_u32(), 0x5246_524D);
    assert_eq!(FourCC::from_u32(FourCC(*b"TXTR").as_u32()), FourCC(*b"TXTR"));
}

#[test]
fn peek_four_cc_reads_the_first_bytes() {
    assert_eq!(peek_four_cc(b"PEEKabc"), FourCC(*b"PEEK"));
}

#[test]
fn astc_u24_round_trip() {
    let v = AstcU24::from_u32(&0x00AB_CDEF);
    assert_eq!((v.0, v.1, v.2), (0xEF, 0xCD, 0xAB));
    assert_eq!(v.as_u32(), 0x00AB_CDEF);
}

#[test]
fn c_string_round_trip() {
    let s = "name".to_string();
    assert_eq!(CStringFixed::from_string(&s).size, 0);
    assert_eq!(CStringFixed::from_string(&s).into_string(), Some(s));
    let bad = CStringFixed { size: 2, text: vec![0xFF, 0xFE] };
    assert_eq!(bad.into_string(), None);
}

#[test]
fn written_integers_read_back() {
    for e in [Endian::Little, Endian::Big] {
        let mut out = Vec::new();
        push_u16(&mut out, 0xBEEF, e);
        push_u32(&mut out, 0xDEAD_BEEF, e);
        push_u64(&mut out, 0x0123_4567_89AB_CDEF, e);
        assert_eq!(out.len(), 14);
        assert_eq!(read_u16(&out, 0, e), Some(0xBEEF));
        assert_eq!(read_u32(&out, 2, e), Some(0xDEAD_BEEF));
        assert_eq!(read_u64(&out, 6, e), Some(0x0123_4567_89AB_CDEF));
    }
    let mut out = Vec::new();
    push_u32(&mut out, 1, Endian::Big);
    assert_eq!(out, vec![0, 0, 0, 1]);
}

#[test]
fn read_past_end_gives_none() {
    assert_eq!(read_u32(&[1, 2, 3], 0, Endian::Little), None);
}

#[test]
fn form_written_then_sliced() {
    let h = FormDescriptor {
        magic: FourCC(*b"RFRM"),
        size: 0,
        unk: 7,
        id: FourCC(*b"TXTR"),
        reader_version: 47,
        writer_version: 51,
    };
    let mut out = Vec::new();
    h.write(&mut out, &[1, 2, 3], Endian::Big);
    out.extend_from_slice(&[9, 9]);
    let (read, body, rest) = FormDescriptor::slice(&out, Endian::Big).unwrap();
    assert_eq!(read.size, 3);
    assert_eq!(read.unk, 7);
    assert_eq!(read.id, FourCC(*b"TXTR"));
    assert_eq!((read.reader_version, read.writer_version), (47, 51));
    assert_eq!(body, &[1, 2, 3]);
    assert_eq!(rest, &[9, 9]);
}

#[test]
fn form_without_magic_is_refused() {
    let mut out = vec![0u8; 40];
    out[0..4].copy_from_slice(b"XXXX");
    assert_eq!(FormDescriptor::slice(&out, Endian::Little).unwrap_err(), FormatError::BadMagic);
}

#[test]
fn short_form_is_refused() {
    assert_eq!(FormDescriptor::slice(&[0u8; 31], Endian::Little).unwrap_err(), FormatError::InvalidFormHeader);
}

#[test]
fn chunk_written_then_sliced() {
    let h = ChunkDescriptor { id: FourCC(*b"HEAD"), size: 0, unk: 1, skip: 2 };
    let mut out = Vec::new();
    h.write(&mut out, &[5, 6, 7, 8], Endian::Little);
    assert_eq!(out.len(), 24 + 2 + 4);
    let (read, body, rest) = ChunkDescriptor::slice(&out, Endian::Little).unwrap();
    assert_eq!(read.id, FourCC(*b"HEAD"));
    assert_eq!((read.size, read.unk, read.skip), (4, 1, 2));
    assert_eq!(body, &[5, 6, 7, 8]);
    assert!(rest.is_empty());
}

#[test]
fn short_chunk_is_refused() {
    assert_eq!(ChunkDescriptor::slice(&[0u8; 23], Endian::Little).unwrap_err(), FormatError::InvalidChunkHeader);
}

#[test]
fn items_of_a_sequence() {
    let mut data = Vec::new();
    ChunkDescriptor { id: FourCC(*b"HEAD"), size: 0, unk: 0, skip: 0 }.write(&mut data, &[1, 2], Endian::Little);
    let inner = FormDescriptor {
        magic: FourCC(*b"RFRM"),
        size: 0,
        unk: 0,
        id: FourCC(*b"LAYR"),
        reader_version: 1,
        writer_version: 1,
    };
    inner.write(&mut data, &[3, 4, 5], Endian::Little);
    let items = slice_chunks(&data, Endian::Little).unwrap();
    assert_eq!(items.len(), 2);
    match &items[0] {
        (ItemHeader::Chunk(c), body) => {
            assert_eq!(c.id, FourCC(*b"HEAD"));
            assert_eq!(body, &vec![1, 2]);
        }
        _ => panic!("expected a chunk"),
    }
    match &items[1] {
        (ItemHeader::Form(f), body) => {
            assert_eq!(f.id, FourCC(*b"LAYR"));
            assert_eq!(body, &vec![3, 4, 5]);
        }
        _ => panic!("expected a form"),
    }
    assert_eq!(slice_chunks(&[0u8; 10], Endian::Little).unwrap_err(), FormatError::InvalidChunkHeader);
}

#[test]
fn vectors_from_arrays_round_trip() {
    assert_eq!(CVector3i::from([1, -2, 3]).to_array(), [1, -2, 3]);
    let v = CVector4i::from([4, 5, -6, 7]);
    assert_eq!((v.x, v.w), (4, 7));
    assert_eq!(v.to_array(), [4, 5, -6, 7]);
    assert_eq!(CVector4i::splat(9).to_array(), [9, 9, 9, 9]);
}

#[test]
fn object_ids_read_and_nil() {
    let mut bytes = vec![0u8; 20];
    assert!(CObjectId::read(&bytes, 2, Endian::Little).is_nil());
    bytes[2] = 1;
    let id = CObjectId::read(&bytes, 2, Endian::Big);
    assert!(!id.is_nil());
    assert_eq!(id.into_inner(), 1u128 << 120);
}

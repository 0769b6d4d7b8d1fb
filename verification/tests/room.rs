use retrolib::format::chunk::ChunkDescriptor;
use retrolib::format::rfrm::FormDescriptor;
use retrolib::format::room::RoomData;
use retrolib::format::{FormatError, FourCC};
use retrolib::util::read::Endian;
use retrolib::util::write::{push_u16, push_u32};

const E: Endian = Endian::Little;

fn chunk(id: &[u8; 4], data: &[u8]) -> Vec<u8> {
    let mut out = Vec::new();
    ChunkDescriptor { id: FourCC(*id), size: 0, unk: 0, skip: 0 }.write(&mut out, data, E);
    out
}

fn form_v(id: &[u8; 4], rv: u32, wv: u32, items: &[Vec<u8>]) -> Vec<u8> {
    let body: Vec<u8> = items.concat();
    let h = FormDescriptor {
        magic: FourCC(*b"RFRM"),
        size: 0,
        unk: 0,
        id: FourCC(*id),
        reader_version: rv,
        writer_version: wv,
    };
    let mut out = Vec::new();
    h.write(&mut out, &body, E);
    out
}

fn form(id: &[u8; 4], items: &[Vec<u8>]) -> Vec<u8> {
    form_v(id, 0, 0, items)
}

fn room(items: &[Vec<u8>]) -> Vec<u8> {
    form_v(b"ROOM", 147, 160, items)
}

fn code(id: &[u8; 4]) -> u32 {
    u32::from_be_bytes(*id)
}

fn id_bytes(first: u8) -> Vec<u8> {
    (0..16u8).map(|i| first.wrapping_add(i)).collect()
}

fn id_value(first: u8) -> u128 {
    let b: [u8; 16] = id_bytes(first).try_into().unwrap();
    uuid::Uuid::from_bytes_le(b).as_u128()
}

fn room_header() -> Vec<u8> {
    let mut h = id_bytes(1);
    push_u16(&mut h, 0x0102, E);
    push_u16(&mut h, 3, E);
    h.push(4);
    for first in [0x20u8, 0x30, 0x40, 0x50, 0x60] {
        h.extend(id_bytes(first));
    }
    assert_eq!(h.len(), 101);
    h
}

fn lighting_probe_only() -> Vec<u8> {
    let mut b = Vec::new();
    push_u32(&mut b, 2, E);
    b.extend(id_bytes(0xA0));
    b
}

fn string_pool() -> Vec<u8> {
    let mut p = Vec::new();
    for v in [7u32, 1, 3] {
        push_u32(&mut p, v, E);
    }
    p.extend_from_slice(b"abc");
    for v in [8u32, 9, 0] {
        push_u32(&mut p, v, E);
    }
    p
}

fn script_header(props: u32, inst: u32) -> Vec<u8> {
    let mut h = Vec::new();
    for v in [props, inst, 0] {
        push_u32(&mut h, v, E);
    }
    h
}

fn component_properties() -> Vec<u8> {
    let mut c = Vec::new();
    push_u32(&mut c, 0x1234, E);
    c.extend_from_slice(&[9, 8, 7]);
    c
}

fn instance(a: u32, b: u32, inline: &[u8]) -> Vec<u8> {
    let mut x = id_bytes(0x70);
    push_u32(&mut x, a, E);
    push_u32(&mut x, b, E);
    x.extend_from_slice(inline);
    push_u16(&mut x, 0, E);
    push_u16(&mut x, 0, E);
    x
}

fn layer_header(name: &[u8]) -> Vec<u8> {
    let mut h = Vec::new();
    push_u32(&mut h, name.len() as u32, E);
    h.extend_from_slice(name);
    h.extend(id_bytes(0x80));
    push_u32(&mut h, 5, E);
    push_u16(&mut h, 1, E);
    h.extend(id_bytes(0x90));
    h.extend(id_bytes(0xB0));
    h.push(6);
    h
}

fn components() -> Vec<u8> {
    let mut c = Vec::new();
    for v in [1u32, 2, 3, 4, 5, 6] {
        push_u32(&mut c, v, E);
    }
    c.extend_from_slice(&[0xFF; 5]);
    c
}

fn head() -> Vec<u8> {
    form(b"HEAD", &[chunk(b"RMHD", &room_header()), chunk(b"PGRP", &[]), chunk(b"BLIT", &lighting_probe_only())])
}

fn script_data() -> Vec<u8> {
    form(
        b"SDTA",
        &[
            chunk(b"SDHR", &script_header(1, 2)),
            chunk(b"SDEN", &component_properties()),
            chunk(b"IDTA", &instance(0, 3, &[])),
            chunk(b"IDTA", &instance(u32::MAX, 2, b"hi")),
        ],
    )
}

fn layers() -> Vec<u8> {
    let layer = form(
        b"LAYR",
        &[
            chunk(b"LHED", &layer_header(b"Layer")),
            form(b"GSRP", &[]),
            form(b"SRIP", &[chunk(b"COMP", &components())]),
        ],
    );
    form(b"LYRS", &[layer])
}

#[test]
fn room_gives_all_its_parts() {
    let data = room(&[chunk(b"STRP", &string_pool()), head(), script_data(), layers()]);
    let r = RoomData::slice(&data, E).unwrap();

    let pool = r.string_pool.as_ref().unwrap();
    assert_eq!((pool.unk1, pool.num_strings, pool.pool_len), (7, 1, 3));
    assert_eq!(pool.pool_data, b"abc".to_vec());
    assert_eq!((pool.unk2, pool.unk3, pool.unk_pool_len), (8, 9, 0));

    assert_eq!(r.room_header.parent_room_id, id_value(1));
    assert_eq!((r.room_header.unk1, r.room_header.unk2, r.room_header.unk3), (0x0102, 3, 4));
    assert_eq!(r.room_header.path_find_area_id, id_value(0x60));

    assert_eq!(r.baked_lighting.flags, 2);
    assert!(r.baked_lighting.light_map.is_none());
    assert_eq!(r.baked_lighting.light_probe.unwrap().ltpb_id, id_value(0xA0));

    assert_eq!(r.component_properties.len(), 1);
    assert_eq!(r.component_properties[0].component_type, 0x1234);
    assert_eq!(r.component_properties[0].data, vec![9, 8, 7]);

    assert_eq!(r.instance_data.len(), 2);
    assert_eq!(r.instance_data[0].id, id_value(0x70));
    assert_eq!(r.instance_data[0].string.get(r.string_pool.as_ref()), Some("abc".to_string()));
    assert_eq!(r.instance_data[1].string.get(None), Some("hi".to_string()));

    assert_eq!(r.layers.len(), 1);
    let l = &r.layers[0];
    assert_eq!(l.header.name, "Layer");
    assert_eq!((l.header.id, l.header.unk), (id_value(0x80), 5));
    assert_eq!(l.header.ids, vec![id_value(0x90)]);
    assert_eq!((l.header.empty_id, l.header.unk2), (id_value(0xB0), 6));
    assert_eq!(l.components.len(), 2);
    assert_eq!(
        (l.components[1].component_type, l.components[1].property_index, l.components[1].instance_index),
        (4, 5, 6)
    );
}

#[test]
fn room_header_and_lighting_may_come_from_two_header_forms() {
    let first = form(b"HEAD", &[chunk(b"RMHD", &room_header())]);
    let second = form(b"HEAD", &[form(b"LUNT", &[]), chunk(b"BLIT", &lighting_probe_only())]);
    let r = RoomData::slice(&room(&[first, second]), E).unwrap();
    assert_eq!(r.room_header.unk3, 4);
    assert_eq!(r.baked_lighting.flags, 2);
    assert!(r.string_pool.is_none() && r.component_properties.is_empty() && r.layers.is_empty());
}

#[test]
fn room_without_header_chunk_is_refused() {
    let h = form(b"HEAD", &[chunk(b"BLIT", &lighting_probe_only())]);
    let r = RoomData::slice(&room(&[h]), E);
    assert_eq!(r.unwrap_err(), FormatError::MissingChunk(code(b"RMHD")));
}

#[test]
fn room_without_lighting_is_refused() {
    let h = form(b"HEAD", &[chunk(b"RMHD", &room_header())]);
    let r = RoomData::slice(&room(&[h]), E);
    assert_eq!(r.unwrap_err(), FormatError::MissingChunk(code(b"BLIT")));
}

#[test]
fn room_of_other_version_is_refused() {
    let data = form_v(b"ROOM", 147, 161, &[head()]);
    assert_eq!(RoomData::slice(&data, E).unwrap_err(), FormatError::UnexpectedForm);
}

#[test]
fn room_with_unknown_chunk_is_refused() {
    let data = room(&[head(), chunk(b"ABCD", &[])]);
    assert_eq!(RoomData::slice(&data, E).unwrap_err(), FormatError::UnexpectedChunk(code(b"ABCD")));
}

#[test]
fn room_with_unknown_header_chunk_is_refused() {
    let h = form(b"HEAD", &[chunk(b"RMHD", &room_header()), chunk(b"WXYZ", &[])]);
    assert_eq!(RoomData::slice(&room(&[h]), E).unwrap_err(), FormatError::UnexpectedChunk(code(b"WXYZ")));
}

#[test]
fn room_with_unknown_form_is_refused() {
    let data = room(&[head(), form(b"ABCD", &[])]);
    assert_eq!(RoomData::slice(&data, E).unwrap_err(), FormatError::UnexpectedForm);
}

#[test]
fn script_data_with_wrong_counts_is_refused() {
    let sd = form(b"SDTA", &[chunk(b"SDHR", &script_header(2, 0)), chunk(b"SDEN", &component_properties())]);
    let r = RoomData::slice(&room(&[head(), sd]), E);
    assert_eq!(r.unwrap_err(), FormatError::InvalidData);
}

#[test]
fn script_data_without_header_is_refused() {
    let sd = form(b"SDTA", &[chunk(b"SDEN", &component_properties())]);
    let r = RoomData::slice(&room(&[head(), sd]), E);
    assert_eq!(r.unwrap_err(), FormatError::MissingChunk(code(b"SDHR")));
}

#[test]
fn short_component_properties_are_refused() {
    let sd = form(b"SDTA", &[chunk(b"SDHR", &script_header(1, 0)), chunk(b"SDEN", &[1, 2, 3])]);
    let r = RoomData::slice(&room(&[head(), sd]), E);
    assert_eq!(r.unwrap_err(), FormatError::InvalidData);
}

#[test]
fn layer_without_header_is_refused() {
    let l = form(b"LYRS", &[form(b"LAYR", &[form(b"SRIP", &[chunk(b"COMP", &components())])])]);
    let r = RoomData::slice(&room(&[head(), l]), E);
    assert_eq!(r.unwrap_err(), FormatError::MissingChunk(code(b"LHED")));
}

#[test]
fn layers_form_with_a_chunk_is_refused() {
    let l = form(b"LYRS", &[chunk(b"LAYR", &[])]);
    let r = RoomData::slice(&room(&[head(), l]), E);
    assert_eq!(r.unwrap_err(), FormatError::UnexpectedChunk(code(b"LAYR")));
}

#[test]
fn short_room_header_is_refused() {
    let h = form(b"HEAD", &[chunk(b"RMHD", &[0; 100]), chunk(b"BLIT", &lighting_probe_only())]);
    let r = RoomData::slice(&room(&[h]), E);
    assert_eq!(r.unwrap_err(), FormatError::InvalidData);
}

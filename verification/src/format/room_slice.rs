//! Slicing a room resource: the walks over its header, script data and layers.
use vstd::prelude::*;
use crate::format::{four_cc_value, FormatError};
use crate::format::rfrm::{FormDescriptor, form_fits, spec_form_slice};
use crate::format::room::{
    ComponentProperties, GameObjectComponent, GameObjectComponents, K_CHUNK_STRP, K_FORM_ROOM, StringPool,
};
use crate::format::room_data::{
    BakedLighting, InstanceView, LayerHeader, LayerHeaderView, SGOComponentInstanceData, SGameAreaHeader, instance_view, layer_header_view, le32, pool_fields,
    lighting_fields, read_area_header, read_instance, read_layer_header, read_lighting, read_sdhr, read_string_pool, spec_area_header,
    spec_instance, spec_layer_header, spec_lighting, spec_sdhr, spec_string_pool,
};
use crate::util::read::spec_parse_records;
use crate::format::walk::{ItemHeader, lemma_walk_items, next_item, walk_fits, walk_items};
use crate::util::read::Endian;

verus! {

/// Code of the room header form.
pub const K_FORM_HEAD: u32 = 0x4845_4144;

/// Code of the room header chunk.
pub const K_CHUNK_RMHD: u32 = 0x524D_4844;

/// Code of the performance group chunk.
pub const K_CHUNK_PGRP: u32 = 0x5047_5250;

/// Code of the generated object map chunk.
pub const K_CHUNK_LGEN: u32 = 0x4C47_454E;

/// Code of the docks chunk.
pub const K_CHUNK_DOCK: u32 = 0x444F_434B;

/// Code of the baked lighting chunk.
pub const K_CHUNK_BLIT: u32 = 0x424C_4954;

/// Code of the load unit count chunk.
pub const K_CHUNK_LUNS: u32 = 0x4C55_4E53;

/// Code of the load unit form.
pub const K_FORM_LUNT: u32 = 0x4C55_4E54;

/// The value of optional baked lighting.
pub type LightingView = (u32, Option<(u128, Seq<u128>, Seq<(u32, u32, u32, u32)>)>, Option<u128>);

pub open spec fn opt_lighting_view(b: Option<BakedLighting>) -> Option<LightingView> {
    match b {
        Some(x) => Some(lighting_fields(x)),
        None => None,
    }
}

/// What the header form has given so far: the room header and the baked lighting.
pub type HeadView = (Option<SGameAreaHeader>, Option<LightingView>);

/// No condition on an item.
pub open spec fn no_fits<S>() -> spec_fn(S, ItemHeader, Seq<u8>) -> bool {
    |st: S, h: ItemHeader, b: Seq<u8>| true
}

/// One item of the header form: an RMHD chunk gives the room header, a BLIT chunk
/// the baked lighting; PGRP, LGEN, DOCK and LUNS chunks and LUNT forms are passed
/// over; anything else is refused.
pub open spec fn head_item(st: HeadView, h: ItemHeader, b: Seq<u8>) -> Result<HeadView, FormatError> {
    match h {
        ItemHeader::Chunk(c) => {
            let id = four_cc_value(c.id.0);
            if id == K_CHUNK_RMHD {
                match spec_area_header(b) {
                    Some(x) => Ok((Some(x), st.1)),
                    None => Err(FormatError::InvalidData),
                }
            } else if id == K_CHUNK_BLIT {
                match spec_lighting(b) {
                    Some(x) => Ok((st.0, Some(x))),
                    None => Err(FormatError::InvalidData),
                }
            } else if id == K_CHUNK_PGRP || id == K_CHUNK_LGEN || id == K_CHUNK_DOCK || id == K_CHUNK_LUNS {
                Ok(st)
            } else {
                Err(FormatError::UnexpectedChunk(id as u32))
            }
        },
        ItemHeader::Form(f) => if four_cc_value(f.id.0) == K_FORM_LUNT {
            Ok(st)
        } else {
            Err(FormatError::UnexpectedForm)
        },
    }
}

pub open spec fn head_step() -> spec_fn(HeadView, ItemHeader, Seq<u8>) -> Result<HeadView, FormatError> {
    |st: HeadView, h: ItemHeader, b: Seq<u8>| head_item(st, h, b)
}

pub open spec fn head_result_view(r: Result<(Option<SGameAreaHeader>, Option<BakedLighting>), FormatError>) -> Result<HeadView, FormatError> {
    match r {
        Ok((x, y)) => Ok((x, opt_lighting_view(y))),
        Err(e) => Err(e),
    }
}

/// Walks the items of a header form from what earlier header forms gave (see
/// `head_item`).
pub fn slice_head(
    data: &[u8],
    e: Endian,
    header: Option<SGameAreaHeader>,
    lighting: Option<BakedLighting>,
) -> (r: Result<(Option<SGameAreaHeader>, Option<BakedLighting>), FormatError>)
    requires
        walk_fits(data@, e, (header, opt_lighting_view(lighting)), head_step(), no_fits()),
    ensures
        head_result_view(r) == walk_items(data@, e, (header, opt_lighting_view(lighting)), head_step()),
{
    let mut hd = header;
    let mut lt = lighting;
    let mut s = data;
    while s.len() > 0
        invariant
            walk_fits(s@, e, (hd, opt_lighting_view(lt)), head_step(), no_fits()),
            walk_items(s@, e, (hd, opt_lighting_view(lt)), head_step()) == walk_items(
                data@,
                e,
                (header, opt_lighting_view(lighting)),
                head_step(),
            ),
        decreases s@.len(),
    {
        proof {
            lemma_walk_items(s@, e, (hd, opt_lighting_view(lt)), head_step(), no_fits());
        }
        let (h, b, rest) = next_item(s, e)?;
        if rest.len() >= s.len() {
            return Err(FormatError::InvalidChunkHeader);
        }
        match h {
            ItemHeader::Chunk(c) => {
                let id = c.id.as_u32();
                if id == K_CHUNK_RMHD {
                    match read_area_header(b) {
                        Some(x) => {
                            hd = Some(x);
                        },
                        None => {
                            return Err(FormatError::InvalidData);
                        },
                    }
                } else if id == K_CHUNK_BLIT {
                    match read_lighting(b) {
                        Some(x) => {
                            lt = Some(x);
                        },
                        None => {
                            return Err(FormatError::InvalidData);
                        },
                    }
                } else if id != K_CHUNK_PGRP && id != K_CHUNK_LGEN && id != K_CHUNK_DOCK && id != K_CHUNK_LUNS {
                    return Err(FormatError::UnexpectedChunk(id));
                }
            },
            ItemHeader::Form(f) => {
                if f.id.as_u32() != K_FORM_LUNT {
                    return Err(FormatError::UnexpectedForm);
                }
            },
        }
        s = rest;
    }
    proof {
        lemma_walk_items(s@, e, (hd, opt_lighting_view(lt)), head_step(), no_fits());
    }
    Ok((hd, lt))
}

/// Code of the script data form.
pub const K_FORM_SDTA: u32 = 0x5344_5441;

/// Code of the script data header chunk.
pub const K_CHUNK_SDHR: u32 = 0x5344_4852;

/// Code of the script data entity chunk.
pub const K_CHUNK_SDEN: u32 = 0x5344_454E;

/// Code of the component instance data chunk.
pub const K_CHUNK_IDTA: u32 = 0x4944_5441;

/// The value of component properties: the type and the property bytes.
pub type PropsView = (u32, Seq<u8>);

pub open spec fn props_view(c: ComponentProperties) -> PropsView {
    (c.component_type, c.data@)
}

/// The little-endian component properties in `s`: a 32-bit type, then the property
/// bytes up to the end.
pub open spec fn spec_props(s: Seq<u8>) -> Option<PropsView> {
    if s.len() < 4 {
        None
    } else {
        Some((le32(s, 0), s.subrange(4, s.len() as int)))
    }
}

/// What the script data form has given so far: the counts of its header, the
/// component properties and the instance data.
pub type ScriptView = (Option<(u32, u32)>, Seq<PropsView>, Seq<InstanceView>);

/// One item of the script data form: an SDHR chunk gives the header, an SDEN chunk
/// adds component properties, an IDTA chunk adds instance data; any other chunk and
/// any form is refused.
pub open spec fn script_item(st: ScriptView, h: ItemHeader, b: Seq<u8>) -> Result<ScriptView, FormatError> {
    match h {
        ItemHeader::Chunk(c) => {
            let id = four_cc_value(c.id.0);
            if id == K_CHUNK_SDHR {
                match spec_sdhr(b) {
                    Some(x) => Ok((Some(x), st.1, st.2)),
                    None => Err(FormatError::InvalidData),
                }
            } else if id == K_CHUNK_SDEN {
                match spec_props(b) {
                    Some(x) => Ok((st.0, st.1.push(x), st.2)),
                    None => Err(FormatError::InvalidData),
                }
            } else if id == K_CHUNK_IDTA {
                match spec_instance(b) {
                    Some(x) => Ok((st.0, st.1, st.2.push(x))),
                    None => Err(FormatError::InvalidData),
                }
            } else {
                Err(FormatError::UnexpectedChunk(id as u32))
            }
        },
        ItemHeader::Form(_) => Err(FormatError::UnexpectedForm),
    }
}

pub open spec fn script_step() -> spec_fn(ScriptView, ItemHeader, Seq<u8>) -> Result<ScriptView, FormatError> {
    |st: ScriptView, h: ItemHeader, b: Seq<u8>| script_item(st, h, b)
}

pub open spec fn script_start() -> ScriptView {
    (None, Seq::empty(), Seq::empty())
}

/// The script data form `s`: its component properties and instance data, when it
/// has a header whose counts match them.
pub open spec fn spec_script_data(s: Seq<u8>, e: Endian) -> Result<(Seq<PropsView>, Seq<InstanceView>), FormatError> {
    match walk_items(s, e, script_start(), script_step()) {
        Err(x) => Err(x),
        Ok((None, _, _)) => Err(FormatError::MissingChunk(K_CHUNK_SDHR)),
        Ok((Some((pc, ic)), ps, is)) => if pc != ps.len() || ic != is.len() {
            Err(FormatError::InvalidData)
        } else {
            Ok((ps, is))
        },
    }
}

pub open spec fn script_result_view(r: Result<(Vec<ComponentProperties>, Vec<SGOComponentInstanceData>), FormatError>) -> Result<(Seq<PropsView>, Seq<InstanceView>), FormatError> {
    match r {
        Ok((ps, is)) => Ok((ps@.map_values(|c: ComponentProperties| props_view(c)), is@.map_values(|x: SGOComponentInstanceData| instance_view(x)))),
        Err(e) => Err(e),
    }
}

/// Reads the script data form `data` (see `spec_script_data`).
pub fn slice_script_data(data: &[u8], e: Endian) -> (r: Result<(Vec<ComponentProperties>, Vec<SGOComponentInstanceData>), FormatError>)
    requires
        walk_fits(data@, e, script_start(), script_step(), no_fits()),
    ensures
        script_result_view(r) == spec_script_data(data@, e),
{
    let mut counts: Option<(u32, u32)> = None;
    let mut props: Vec<ComponentProperties> = Vec::new();
    let mut inst: Vec<SGOComponentInstanceData> = Vec::new();
    let mut s = data;
    proof {
        assert(props@.map_values(|c: ComponentProperties| props_view(c)) =~= Seq::<PropsView>::empty());
        assert(inst@.map_values(|x: SGOComponentInstanceData| instance_view(x)) =~= Seq::<InstanceView>::empty());
    }
    while s.len() > 0
        invariant
            walk_fits(
                s@,
                e,
                (counts, props@.map_values(|c: ComponentProperties| props_view(c)), inst@.map_values(|x: SGOComponentInstanceData| instance_view(x))),
                script_step(),
                no_fits(),
            ),
            walk_items(
                s@,
                e,
                (counts, props@.map_values(|c: ComponentProperties| props_view(c)), inst@.map_values(|x: SGOComponentInstanceData| instance_view(x))),
                script_step(),
            ) == walk_items(data@, e, script_start(), script_step()),
        decreases s@.len(),
    {
        let ghost st: ScriptView = (counts, props@.map_values(|c: ComponentProperties| props_view(c)), inst@.map_values(|x: SGOComponentInstanceData| instance_view(x)));
        proof {
            lemma_walk_items(s@, e, st, script_step(), no_fits());
        }
        let (h, b, rest) = next_item(s, e)?;
        if rest.len() >= s.len() {
            return Err(FormatError::InvalidChunkHeader);
        }
        match h {
            ItemHeader::Chunk(c) => {
                let id = c.id.as_u32();
                if id == K_CHUNK_SDHR {
                    match read_sdhr(b) {
                        Some(x) => {
                            counts = Some((x.properties_count, x.instance_data_count));
                        },
                        None => {
                            return Err(FormatError::InvalidData);
                        },
                    }
                } else if id == K_CHUNK_SDEN {
                    match ComponentProperties::read(b, Endian::Little) {
                        Ok(x) => {
                            props.push(x);
                            assert(props@.map_values(|c: ComponentProperties| props_view(c)) =~= st.1.push(props_view(x)));
                        },
                        Err(_) => {
                            return Err(FormatError::InvalidData);
                        },
                    }
                } else if id == K_CHUNK_IDTA {
                    match read_instance(b) {
                        Some(x) => {
                            let ghost v = instance_view(x);
                            inst.push(x);
                            assert(inst@.map_values(|x: SGOComponentInstanceData| instance_view(x)) =~= st.2.push(v));
                        },
                        None => {
                            return Err(FormatError::InvalidData);
                        },
                    }
                } else {
                    return Err(FormatError::UnexpectedChunk(id));
                }
            },
            ItemHeader::Form(_) => {
                return Err(FormatError::UnexpectedForm);
            },
        }
        s = rest;
    }
    let ghost st: ScriptView = (counts, props@.map_values(|c: ComponentProperties| props_view(c)), inst@.map_values(|x: SGOComponentInstanceData| instance_view(x)));
    proof {
        lemma_walk_items(s@, e, st, script_step(), no_fits());
    }
    match counts {
        None => Err(FormatError::MissingChunk(K_CHUNK_SDHR)),
        Some((pc, ic)) => {
            if pc as usize != props.len() || ic as usize != inst.len() {
                Err(FormatError::InvalidData)
            } else {
                Ok((props, inst))
            }
        },
    }
}

/// Code of the layers form.
pub const K_FORM_LYRS: u32 = 0x4C59_5253;

/// Code of the layer form.
pub const K_FORM_LAYR: u32 = 0x4C41_5952;

/// Code of the layer header chunk.
pub const K_CHUNK_LHED: u32 = 0x4C48_4544;

/// Code of the GSRP form.
pub const K_FORM_GSRP: u32 = 0x4753_5250;

/// Code of the SRIP form.
pub const K_FORM_SRIP: u32 = 0x5352_4950;

/// Code of the game object component chunk.
pub const K_CHUNK_COMP: u32 = 0x434F_4D50;

/// A layer of a room: its header and its game object components.
#[derive(Clone, Debug)]
pub struct Layer {
    pub header: LayerHeader,
    pub components: Vec<GameObjectComponent>,
}

/// The value of a layer.
pub type LayerView = (LayerHeaderView, Seq<GameObjectComponent>);

pub open spec fn layer_view(l: Layer) -> LayerView {
    (layer_header_view(l.header), l.components@)
}

/// The little-endian components in `s`: as many 12-byte records as it holds whole.
pub open spec fn spec_components(s: Seq<u8>) -> Seq<GameObjectComponent> {
    spec_parse_records::<GameObjectComponent>(s, 0, (s.len() / 12) as int, Endian::Little).unwrap()
}

/// One item of an SRIP form: a COMP chunk replaces the components; any other chunk
/// and any form is refused.
pub open spec fn srip_item(st: Seq<GameObjectComponent>, h: ItemHeader, b: Seq<u8>) -> Result<Seq<GameObjectComponent>, FormatError> {
    match h {
        ItemHeader::Chunk(c) => {
            let id = four_cc_value(c.id.0);
            if id == K_CHUNK_COMP {
                Ok(spec_components(b))
            } else {
                Err(FormatError::UnexpectedChunk(id as u32))
            }
        },
        ItemHeader::Form(_) => Err(FormatError::UnexpectedForm),
    }
}

pub open spec fn srip_step() -> spec_fn(Seq<GameObjectComponent>, ItemHeader, Seq<u8>) -> Result<Seq<GameObjectComponent>, FormatError> {
    |st: Seq<GameObjectComponent>, h: ItemHeader, b: Seq<u8>| srip_item(st, h, b)
}

/// Walks the items of an SRIP form from the components `comps` (see `srip_item`).
fn slice_srip(data: &[u8], e: Endian, comps: Vec<GameObjectComponent>) -> (r: Result<Vec<GameObjectComponent>, FormatError>)
    requires
        walk_fits(data@, e, comps@, srip_step(), no_fits()),
    ensures
        match r {
            Ok(v) => walk_items(data@, e, comps@, srip_step()) == Ok::<_, FormatError>(v@),
            Err(x) => walk_items(data@, e, comps@, srip_step()) == Err::<Seq<GameObjectComponent>, _>(x),
        },
{
    let mut cur = comps;
    let mut s = data;
    while s.len() > 0
        invariant
            walk_fits(s@, e, cur@, srip_step(), no_fits()),
            walk_items(s@, e, cur@, srip_step()) == walk_items(data@, e, comps@, srip_step()),
        decreases s@.len(),
    {
        proof {
            lemma_walk_items(s@, e, cur@, srip_step(), no_fits());
        }
        let (h, b, rest) = next_item(s, e)?;
        if rest.len() >= s.len() {
            return Err(FormatError::InvalidChunkHeader);
        }
        match h {
            ItemHeader::Chunk(c) => {
                let id = c.id.as_u32();
                if id == K_CHUNK_COMP {
                    cur = GameObjectComponents::read(b, Endian::Little).data;
                } else {
                    return Err(FormatError::UnexpectedChunk(id));
                }
            },
            ItemHeader::Form(_) => {
                return Err(FormatError::UnexpectedForm);
            },
        }
        s = rest;
    }
    proof {
        lemma_walk_items(s@, e, cur@, srip_step(), no_fits());
    }
    Ok(cur)
}

/// What a layer form has given so far: its header and its components.
pub type LayrView = (Option<LayerHeaderView>, Seq<GameObjectComponent>);

/// One item of a layer form: an LHED chunk gives the header, a GSRP form is passed
/// over, an SRIP form's walk sets the components; anything else is refused.
pub open spec fn layr_item(st: LayrView, h: ItemHeader, b: Seq<u8>, e: Endian) -> Result<LayrView, FormatError> {
    match h {
        ItemHeader::Chunk(c) => {
            let id = four_cc_value(c.id.0);
            if id == K_CHUNK_LHED {
                match spec_layer_header(b) {
                    Some(x) => Ok((Some(x), st.1)),
                    None => Err(FormatError::InvalidData),
                }
            } else {
                Err(FormatError::UnexpectedChunk(id as u32))
            }
        },
        ItemHeader::Form(f) => {
            let id = four_cc_value(f.id.0);
            if id == K_FORM_GSRP {
                Ok(st)
            } else if id == K_FORM_SRIP {
                match walk_items(b, e, st.1, srip_step()) {
                    Ok(c) => Ok((st.0, c)),
                    Err(x) => Err(x),
                }
            } else {
                Err(FormatError::UnexpectedForm)
            }
        },
    }
}

pub open spec fn layr_step(e: Endian) -> spec_fn(LayrView, ItemHeader, Seq<u8>) -> Result<LayrView, FormatError> {
    |st: LayrView, h: ItemHeader, b: Seq<u8>| layr_item(st, h, b, e)
}

/// The SRIP forms of a layer lie inside their bytes.
pub open spec fn layr_fits(e: Endian) -> spec_fn(LayrView, ItemHeader, Seq<u8>) -> bool {
    |st: LayrView, h: ItemHeader, b: Seq<u8>|
        (h matches ItemHeader::Form(f) && four_cc_value(f.id.0) == K_FORM_SRIP) ==> walk_fits(b, e, st.1, srip_step(), no_fits())
}

pub open spec fn layr_start() -> LayrView {
    (None, Seq::empty())
}

/// The layer form `s`: its header and its components.
pub open spec fn spec_layer(s: Seq<u8>, e: Endian) -> Result<LayerView, FormatError> {
    match walk_items(s, e, layr_start(), layr_step(e)) {
        Err(x) => Err(x),
        Ok((None, _)) => Err(FormatError::MissingChunk(K_CHUNK_LHED)),
        Ok((Some(hd), c)) => Ok((hd, c)),
    }
}

pub open spec fn opt_header_view(h: Option<LayerHeader>) -> Option<LayerHeaderView> {
    match h {
        Some(x) => Some(layer_header_view(x)),
        None => None,
    }
}

/// Reads the layer form `data` (see `spec_layer`).
pub fn slice_layer(data: &[u8], e: Endian) -> (r: Result<Layer, FormatError>)
    requires
        walk_fits(data@, e, layr_start(), layr_step(e), layr_fits(e)),
    ensures
        match r {
            Ok(l) => spec_layer(data@, e) == Ok::<_, FormatError>(layer_view(l)),
            Err(x) => spec_layer(data@, e) == Err::<LayerView, _>(x),
        },
{
    let mut header: Option<LayerHeader> = None;
    let mut comps: Vec<GameObjectComponent> = Vec::new();
    let mut s = data;
    proof {
        assert(comps@ =~= Seq::<GameObjectComponent>::empty());
    }
    while s.len() > 0
        invariant
            walk_fits(s@, e, (opt_header_view(header), comps@), layr_step(e), layr_fits(e)),
            walk_items(s@, e, (opt_header_view(header), comps@), layr_step(e)) == walk_items(
                data@,
                e,
                layr_start(),
                layr_step(e),
            ),
        decreases s@.len(),
    {
        proof {
            lemma_walk_items(s@, e, (opt_header_view(header), comps@), layr_step(e), layr_fits(e));
        }
        let (h, b, rest) = next_item(s, e)?;
        if rest.len() >= s.len() {
            return Err(FormatError::InvalidChunkHeader);
        }
        match h {
            ItemHeader::Chunk(c) => {
                let id = c.id.as_u32();
                if id == K_CHUNK_LHED {
                    match read_layer_header(b) {
                        Some(x) => {
                            header = Some(x);
                        },
                        None => {
                            return Err(FormatError::InvalidData);
                        },
                    }
                } else {
                    return Err(FormatError::UnexpectedChunk(id));
                }
            },
            ItemHeader::Form(f) => {
                let id = f.id.as_u32();
                if id == K_FORM_SRIP {
                    comps = slice_srip(b, e, comps)?;
                } else if id != K_FORM_GSRP {
                    return Err(FormatError::UnexpectedForm);
                }
            },
        }
        s = rest;
    }
    proof {
        lemma_walk_items(s@, e, (opt_header_view(header), comps@), layr_step(e), layr_fits(e));
    }
    match header {
        Some(hd) => Ok(Layer { header: hd, components: comps }),
        None => Err(FormatError::MissingChunk(K_CHUNK_LHED)),
    }
}

/// One item of the layers form: a LAYR form adds a layer; anything else is refused.
pub open spec fn lyrs_item(st: Seq<LayerView>, h: ItemHeader, b: Seq<u8>, e: Endian) -> Result<Seq<LayerView>, FormatError> {
    match h {
        ItemHeader::Chunk(c) => Err(FormatError::UnexpectedChunk(four_cc_value(c.id.0) as u32)),
        ItemHeader::Form(f) => if four_cc_value(f.id.0) == K_FORM_LAYR {
            match spec_layer(b, e) {
                Ok(l) => Ok(st.push(l)),
                Err(x) => Err(x),
            }
        } else {
            Err(FormatError::UnexpectedForm)
        },
    }
}

pub open spec fn lyrs_step(e: Endian) -> spec_fn(Seq<LayerView>, ItemHeader, Seq<u8>) -> Result<Seq<LayerView>, FormatError> {
    |st: Seq<LayerView>, h: ItemHeader, b: Seq<u8>| lyrs_item(st, h, b, e)
}

/// The layer forms lie inside their bytes.
pub open spec fn lyrs_fits(e: Endian) -> spec_fn(Seq<LayerView>, ItemHeader, Seq<u8>) -> bool {
    |st: Seq<LayerView>, h: ItemHeader, b: Seq<u8>|
        (h matches ItemHeader::Form(f) && four_cc_value(f.id.0) == K_FORM_LAYR) ==> walk_fits(b, e, layr_start(), layr_step(e), layr_fits(e))
}

/// Reads the layers form `data`: its layers in order (see `lyrs_item`).
pub fn slice_layers(data: &[u8], e: Endian) -> (r: Result<Vec<Layer>, FormatError>)
    requires
        walk_fits(data@, e, Seq::empty(), lyrs_step(e), lyrs_fits(e)),
    ensures
        match r {
            Ok(v) => walk_items(data@, e, Seq::empty(), lyrs_step(e)) == Ok::<_, FormatError>(v@.map_values(|l: Layer| layer_view(l))),
            Err(x) => walk_items(data@, e, Seq::empty(), lyrs_step(e)) == Err::<Seq<LayerView>, _>(x),
        },
{
    let mut layers: Vec<Layer> = Vec::new();
    let mut s = data;
    proof {
        assert(layers@.map_values(|l: Layer| layer_view(l)) =~= Seq::<LayerView>::empty());
    }
    while s.len() > 0
        invariant
            walk_fits(s@, e, layers@.map_values(|l: Layer| layer_view(l)), lyrs_step(e), lyrs_fits(e)),
            walk_items(s@, e, layers@.map_values(|l: Layer| layer_view(l)), lyrs_step(e)) == walk_items(
                data@,
                e,
                Seq::empty(),
                lyrs_step(e),
            ),
        decreases s@.len(),
    {
        let ghost st = layers@.map_values(|l: Layer| layer_view(l));
        proof {
            lemma_walk_items(s@, e, st, lyrs_step(e), lyrs_fits(e));
        }
        let (h, b, rest) = next_item(s, e)?;
        if rest.len() >= s.len() {
            return Err(FormatError::InvalidChunkHeader);
        }
        match h {
            ItemHeader::Chunk(c) => {
                return Err(FormatError::UnexpectedChunk(c.id.as_u32()));
            },
            ItemHeader::Form(f) => {
                if f.id.as_u32() == K_FORM_LAYR {
                    let l = slice_layer(b, e)?;
                    layers.push(l);
                    assert(layers@.map_values(|l: Layer| layer_view(l)) =~= st.push(layer_view(l)));
                } else {
                    return Err(FormatError::UnexpectedForm);
                }
            },
        }
        s = rest;
    }
    proof {
        lemma_walk_items(s@, e, layers@.map_values(|l: Layer| layer_view(l)), lyrs_step(e), lyrs_fits(e));
    }
    Ok(layers)
}

/// The value of a string pool.
pub type PoolView = (u32, u32, u32, Seq<u8>, u32, u32, u32, Seq<u8>);

/// What the room form has given so far: the string pool, what its header forms gave,
/// the component properties, the instance data and the layers.
pub type RoomWalkView = (Option<PoolView>, HeadView, Seq<PropsView>, Seq<InstanceView>, Seq<LayerView>);

/// One item of the room form: an STRP chunk gives the string pool; a HEAD form's walk
/// goes on from what earlier ones gave; an SDTA form gives the component properties
/// and instance data, an LYRS form the layers, each in place of earlier ones; anything
/// else is refused.
#[verifier::opaque]
pub open spec fn room_item(st: RoomWalkView, h: ItemHeader, b: Seq<u8>, e: Endian) -> Result<RoomWalkView, FormatError> {
    match h {
        ItemHeader::Chunk(c) => {
            let id = four_cc_value(c.id.0);
            if id == K_CHUNK_STRP {
                match spec_string_pool(b) {
                    Some(p) => Ok((Some(p), st.1, st.2, st.3, st.4)),
                    None => Err(FormatError::InvalidData),
                }
            } else {
                Err(FormatError::UnexpectedChunk(id as u32))
            }
        },
        ItemHeader::Form(f) => {
            let id = four_cc_value(f.id.0);
            if id == K_FORM_HEAD {
                match walk_items(b, e, st.1, head_step()) {
                    Ok(x) => Ok((st.0, x, st.2, st.3, st.4)),
                    Err(x) => Err(x),
                }
            } else if id == K_FORM_SDTA {
                match spec_script_data(b, e) {
                    Ok((ps, is)) => Ok((st.0, st.1, ps, is, st.4)),
                    Err(x) => Err(x),
                }
            } else if id == K_FORM_LYRS {
                match walk_items(b, e, Seq::empty(), lyrs_step(e)) {
                    Ok(ls) => Ok((st.0, st.1, st.2, st.3, ls)),
                    Err(x) => Err(x),
                }
            } else {
                Err(FormatError::UnexpectedForm)
            }
        },
    }
}

pub open spec fn room_step(e: Endian) -> spec_fn(RoomWalkView, ItemHeader, Seq<u8>) -> Result<RoomWalkView, FormatError> {
    |st: RoomWalkView, h: ItemHeader, b: Seq<u8>| room_item(st, h, b, e)
}

/// The forms inside the room form lie inside their bytes.
pub open spec fn room_fits(e: Endian) -> spec_fn(RoomWalkView, ItemHeader, Seq<u8>) -> bool {
    |st: RoomWalkView, h: ItemHeader, b: Seq<u8>|
        match h {
            ItemHeader::Chunk(_) => true,
            ItemHeader::Form(f) => {
                let id = four_cc_value(f.id.0);
                &&& id == K_FORM_HEAD ==> walk_fits(b, e, st.1, head_step(), no_fits())
                &&& id == K_FORM_SDTA ==> walk_fits(b, e, script_start(), script_step(), no_fits())
                &&& id == K_FORM_LYRS ==> walk_fits(b, e, Seq::empty(), lyrs_step(e), lyrs_fits(e))
            },
        }
}

pub open spec fn room_start() -> RoomWalkView {
    (None, (None, None), Seq::empty(), Seq::empty(), Seq::empty())
}

/// The value of room data: the string pool, the room header, the baked lighting, the
/// component properties, the instance data and the layers.
pub type RoomView = (Option<PoolView>, SGameAreaHeader, LightingView, Seq<PropsView>, Seq<InstanceView>, Seq<LayerView>);

/// Whether the room form `data` opens with the room form's code and versions (147
/// and 160).
pub open spec fn is_room_form(h: FormDescriptor) -> bool {
    four_cc_value(h.id.0) == K_FORM_ROOM && h.reader_version == 147 && h.writer_version == 160
}

/// What the walk of the room form's items gives, once it has ended: a room header
/// and baked lighting must be among it.
pub open spec fn room_finish(w: Result<RoomWalkView, FormatError>) -> Result<RoomView, FormatError> {
    match w {
        Err(x) => Err(x),
        Ok((sp, (rh, bl), ps, is, ls)) => match rh {
            None => Err(FormatError::MissingChunk(K_CHUNK_RMHD)),
            Some(rh) => match bl {
                None => Err(FormatError::MissingChunk(K_CHUNK_BLIT)),
                Some(bl) => Ok((sp, rh, bl, ps, is, ls)),
            },
        },
    }
}

/// The room resource `data`: the room form (see `is_room_form`) and its items (see
/// `room_item`), which must give a room header and baked lighting.
pub open spec fn spec_room(data: Seq<u8>, e: Endian) -> Result<RoomView, FormatError> {
    match spec_form_slice(data, e) {
        Err(x) => Err(x),
        Ok((h, body, _)) => if !is_room_form(h) {
            Err(FormatError::UnexpectedForm)
        } else {
            room_finish(walk_items(body, e, room_start(), room_step(e)))
        },
    }
}

/// Every item that reading the room resource `data` reaches lies inside its bytes.
pub open spec fn room_data_fits(data: Seq<u8>, e: Endian) -> bool {
    &&& form_fits(data, e)
    &&& (spec_form_slice(data, e) matches Ok((h, body, _)) ==> (is_room_form(h) ==> walk_fits(
        body,
        e,
        room_start(),
        room_step(e),
        room_fits(e),
    )))
}

/// A room: its string pool, header, baked lighting, script data and layers.
#[derive(Clone, Debug)]
pub struct RoomData {
    pub string_pool: Option<StringPool>,
    pub room_header: SGameAreaHeader,
    pub baked_lighting: BakedLighting,
    pub component_properties: Vec<ComponentProperties>,
    pub instance_data: Vec<SGOComponentInstanceData>,
    pub layers: Vec<Layer>,
}

pub open spec fn opt_pool_view(p: Option<StringPool>) -> Option<PoolView> {
    match p {
        Some(x) => Some(pool_fields(x)),
        None => None,
    }
}

pub open spec fn room_view(r: RoomData) -> RoomView {
    (
        opt_pool_view(r.string_pool),
        r.room_header,
        lighting_fields(r.baked_lighting),
        r.component_properties@.map_values(|c: ComponentProperties| props_view(c)),
        r.instance_data@.map_values(|x: SGOComponentInstanceData| instance_view(x)),
        r.layers@.map_values(|l: Layer| layer_view(l)),
    )
}

/// What reading the room form has given so far.
struct RoomParts {
    pool: Option<StringPool>,
    hd: Option<SGameAreaHeader>,
    lt: Option<BakedLighting>,
    props: Vec<ComponentProperties>,
    inst: Vec<SGOComponentInstanceData>,
    layers: Vec<Layer>,
}

spec fn parts_view(p: RoomParts) -> RoomWalkView {
    (
        opt_pool_view(p.pool),
        (p.hd, opt_lighting_view(p.lt)),
        p.props@.map_values(|c: ComponentProperties| props_view(c)),
        p.inst@.map_values(|x: SGOComponentInstanceData| instance_view(x)),
        p.layers@.map_values(|l: Layer| layer_view(l)),
    )
}

/// Reads one item of the room form (see `room_item`).
fn read_room_item(parts: RoomParts, ih: ItemHeader, b: &[u8], e: Endian) -> (r: Result<RoomParts, FormatError>)
    requires
        room_fits(e)(parts_view(parts), ih, b@),
    ensures
        match r {
            Ok(x) => room_item(parts_view(parts), ih, b@, e) == Ok::<_, FormatError>(parts_view(x)),
            Err(x) => room_item(parts_view(parts), ih, b@, e) == Err::<RoomWalkView, _>(x),
        },
{
    proof {
        reveal(room_item);
    }
    let mut p = parts;
    match ih {
        ItemHeader::Chunk(c) => {
            let id = c.id.as_u32();
            if id == K_CHUNK_STRP {
                match read_string_pool(b) {
                    Some(x) => {
                        p.pool = Some(x);
                    },
                    None => {
                        return Err(FormatError::InvalidData);
                    },
                }
            } else {
                return Err(FormatError::UnexpectedChunk(id));
            }
        },
        ItemHeader::Form(f) => {
            let id = f.id.as_u32();
            if id == K_FORM_HEAD {
                let (x, y) = slice_head(b, e, p.hd, p.lt)?;
                p.hd = x;
                p.lt = y;
            } else if id == K_FORM_SDTA {
                let (x, y) = slice_script_data(b, e)?;
                p.props = x;
                p.inst = y;
            } else if id == K_FORM_LYRS {
                p.layers = slice_layers(b, e)?;
            } else {
                return Err(FormatError::UnexpectedForm);
            }
        },
    }
    Ok(p)
}

impl RoomData {
    /// Reads the room resource `data` (form byte order `e`, contents little-endian);
    /// see `spec_room`.
    pub fn slice(data: &[u8], e: Endian) -> (r: Result<RoomData, FormatError>)
        requires
            room_data_fits(data@, e),
        ensures
            match r {
                Ok(x) => spec_room(data@, e) == Ok::<_, FormatError>(room_view(x)),
                Err(x) => spec_room(data@, e) == Err::<RoomView, _>(x),
            },
    {
        let (h, body, _) = FormDescriptor::slice(data, e)?;
        if h.id.as_u32() != K_FORM_ROOM || h.reader_version != 147 || h.writer_version != 160 {
            return Err(FormatError::UnexpectedForm);
        }
        let mut parts = RoomParts {
            pool: None,
            hd: None,
            lt: None,
            props: Vec::new(),
            inst: Vec::new(),
            layers: Vec::new(),
        };
        let mut s = body;
        proof {
            assert(parts_view(parts) =~= room_start());
        }
        while s.len() > 0
            invariant
                walk_fits(s@, e, parts_view(parts), room_step(e), room_fits(e)),
                spec_room(data@, e) == room_finish(walk_items(s@, e, parts_view(parts), room_step(e))),
            decreases s@.len(),
        {
            proof {
                lemma_walk_items(s@, e, parts_view(parts), room_step(e), room_fits(e));
            }
            let (ih, b, rest) = next_item(s, e)?;
            if rest.len() >= s.len() {
                return Err(FormatError::InvalidChunkHeader);
            }
            parts = read_room_item(parts, ih, b, e)?;
            s = rest;
        }
        proof {
            lemma_walk_items(s@, e, parts_view(parts), room_step(e), room_fits(e));
        }
        let room_header = match parts.hd {
            Some(x) => x,
            None => {
                return Err(FormatError::MissingChunk(K_CHUNK_RMHD));
            },
        };
        let baked_lighting = match parts.lt {
            Some(x) => x,
            None => {
                return Err(FormatError::MissingChunk(K_CHUNK_BLIT));
            },
        };
        Ok(
            RoomData {
                string_pool: parts.pool,
                room_header,
                baked_lighting,
                component_properties: parts.props,
                instance_data: parts.inst,
                layers: parts.layers,
            },
        )
    }
}

} // verus!

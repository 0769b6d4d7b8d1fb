//! Rooms: script data, string pools and layers.
use vstd::prelude::*;
pub use crate::format::room_data::{
    BakedLighting, BakedLightingLightMap, BakedLightingLightProbe, LayerHeader, SGOComponentInstanceData,
    SGameAreaHeader, ScriptDataHeader,
};
pub use crate::format::room_slice::{Layer, RoomData};
use crate::format::{spec_utf8, string_from_utf8, text_view, FormatError};
use crate::util::read::{
    Endian, FixedRecord, lemma_records_none_means_short, read_records, read_u32, spec_parse_records,
    spec_u32,
};

verus! {

/// Code of the room form.
pub const K_FORM_ROOM: u32 = 0x524F_4F4D;

/// Code of the string pool chunk.
pub const K_CHUNK_STRP: u32 = 0x5354_5250;

/// A pair of values in the script data header.
#[derive(Copy, Clone, Debug, PartialEq, Eq, Structural)]
pub struct ScriptDataPairs {
    pub a: u32,
    pub b: u32,
}

impl FixedRecord for ScriptDataPairs {
    open spec fn spec_size() -> int {
        8
    }

    open spec fn spec_parse(s: Seq<u8>, pos: int, e: Endian) -> Option<ScriptDataPairs> {
        Some(ScriptDataPairs { a: spec_u32(s, pos, e) as u32, b: spec_u32(s, pos + 4, e) as u32 })
    }

    fn size() -> (r: usize) {
        8
    }

    fn parse(data: &[u8], pos: usize, e: Endian) -> (r: Option<ScriptDataPairs>) {
        let _len = data.len();
        Some(ScriptDataPairs { a: read_u32(data, pos, e).unwrap(), b: read_u32(data, pos + 4, e).unwrap() })
    }
}

/// Properties of one component type: its type and the raw property bytes.
#[derive(Clone, Debug)]
pub struct ComponentProperties {
    pub component_type: u32,
    pub data: Vec<u8>,
}

impl ComponentProperties {
    /// Reads the component type at the start of `data`; the rest of `data` is the properties.
    pub fn read(data: &[u8], e: Endian) -> (r: Result<ComponentProperties, FormatError>)
        ensures
            r is Ok <==> data@.len() >= 4,
            r is Err ==> r == Err::<ComponentProperties, _>(FormatError::InvalidData),
            r matches Ok(c) ==> c.component_type == spec_u32(data@, 0, e) && c.data@
                == data@.subrange(4, data@.len() as int),
    {
        let component_type = match read_u32(data, 0, e) {
            Some(t) => t,
            None => return Err(FormatError::InvalidData),
        };
        Ok(
            ComponentProperties {
                component_type,
                data: vstd::slice::slice_to_vec(&data[4..data.len()]),
            },
        )
    }
}

/// Sizes of the allocations of a script connection, with the bytes they skip.
#[derive(Clone, Debug)]
pub struct SizeofAllocations {
    pub a: u32,
    pub skip1: Vec<u8>,
    pub skip2: Vec<u8>,
}

/// A connection between script objects.
#[derive(Clone, Debug)]
pub struct SConnection {
    pub skip0: Vec<u8>,
    pub event_criteria_sldr: SizeofAllocations,
    pub action_payload_sldr: SizeofAllocations,
    pub skip1: Vec<u8>,
}

/// A link between script objects.
#[derive(Clone, Debug)]
pub struct SScriptLink {
    pub skip0: Vec<u8>,
    pub c: SizeofAllocations,
    pub skip1: Vec<u8>,
}

/// A component of a game object: its type and the indices of its properties and
/// instance data.
#[derive(Copy, Clone, Debug, PartialEq, Eq, Structural)]
pub struct GameObjectComponent {
    pub component_type: u32,
    pub property_index: u32,
    pub instance_index: u32,
}

impl FixedRecord for GameObjectComponent {
    open spec fn spec_size() -> int {
        12
    }

    open spec fn spec_parse(s: Seq<u8>, pos: int, e: Endian) -> Option<GameObjectComponent> {
        Some(
            GameObjectComponent {
                component_type: spec_u32(s, pos, e) as u32,
                property_index: spec_u32(s, pos + 4, e) as u32,
                instance_index: spec_u32(s, pos + 8, e) as u32,
            },
        )
    }

    fn size() -> (r: usize) {
        12
    }

    fn parse(data: &[u8], pos: usize, e: Endian) -> (r: Option<GameObjectComponent>) {
        let _len = data.len();
        Some(
            GameObjectComponent {
                component_type: read_u32(data, pos, e).unwrap(),
                property_index: read_u32(data, pos + 4, e).unwrap(),
                instance_index: read_u32(data, pos + 8, e).unwrap(),
            },
        )
    }
}

/// The components of a layer, as many as the bytes hold.
#[derive(Clone, Debug)]
pub struct GameObjectComponents {
    pub data: Vec<GameObjectComponent>,
}

impl GameObjectComponents {
    /// Reads as many components as `data` holds whole; trailing bytes that do not
    /// make a whole component end the list.
    pub fn read(data: &[u8], e: Endian) -> (r: GameObjectComponents)
        ensures
            Some(r.data@) == spec_parse_records::<GameObjectComponent>(
                data@,
                0,
                (data@.len() / 12) as int,
                e,
            ),
    {
        let count = data.len() / 12;
        proof {
            assert(0 + count * 12 <= data@.len()) by (nonlinear_arith)
                requires
                    count == data@.len() / 12,
            ;
        }
        let v = read_records::<GameObjectComponent>(data, 0, count, e);
        proof {
            if v is None {
                lemma_records_none_means_short::<GameObjectComponent>(data@, 0, count as int, e);
            }
        }
        GameObjectComponents { data: v.unwrap() }
    }
}

/// A pool of strings that pooled strings point into.
#[derive(Clone, Debug)]
pub struct StringPool {
    pub unk1: u32,
    pub num_strings: u32,
    pub pool_len: u32,
    pub pool_data: Vec<u8>,
    pub unk2: u32,
    pub unk3: u32,
    pub unk_pool_len: u32,
    pub unk_pool_data: Vec<u8>,
}

/// A string either stored inline or pointing into a string pool.
#[derive(Clone, Debug)]
pub struct PooledString {
    pub a: u32,
    pub b: u32,
    pub bytes: Vec<u8>,
}

/// The text of a pooled string: its own bytes when `a` is `u32::MAX`; otherwise the
/// `b` bytes at offset `a` of the pool, if there is a pool and they lie inside it.
pub open spec fn spec_pooled_string(p: PooledString, pool: Option<StringPool>) -> Option<Seq<char>> {
    if p.a == u32::MAX {
        spec_utf8(p.bytes@)
    } else {
        match pool {
            Some(sp) => if p.a + p.b <= sp.pool_data@.len() {
                spec_utf8(sp.pool_data@.subrange(p.a as int, p.a + p.b))
            } else {
                None
            },
            None => None,
        }
    }
}

/// The view of an optional pool.
pub open spec fn pool_view(pool: Option<&StringPool>) -> Option<StringPool> {
    match pool {
        Some(sp) => Some(*sp),
        None => None,
    }
}

impl PooledString {
    /// The text of the string, or `None` when it is not valid UTF-8 or its pool
    /// range is missing.
    pub fn get(&self, pool: Option<&StringPool>) -> (r: Option<String>)
        requires
            self.a != u32::MAX && pool is Some ==> self.a + self.b <= u32::MAX,
        ensures
            text_view(r) == spec_pooled_string(*self, pool_view(pool)),
    {
        if self.a == u32::MAX {
            string_from_utf8(self.bytes.clone())
        } else {
            match pool {
                Some(sp) => {
                    let end = (self.a + self.b) as usize;
                    if end <= sp.pool_data.len() {
                        string_from_utf8(
                            vstd::slice::slice_to_vec(&sp.pool_data.as_slice()[self.a as usize..end]),
                        )
                    } else {
                        None
                    }
                },
                None => None,
            }
        }
    }
}

/// An enumeration value built from a template: the number, the enumeration's name
/// and the value's name when the template has it.
#[derive(Clone, Debug)]
pub struct ConstructedEnumValue {
    pub value: u32,
    pub enum_name: String,
    pub enum_value: Option<String>,
}

} // verus!

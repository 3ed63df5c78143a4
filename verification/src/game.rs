//! The data model of the derived state kinds: where each kind's record lives
//! in the target process, how its raw bytes decode into typed values, and the
//! typed values themselves.
//!
//! Every record layout is fixed-size and little-endian; each exec decoder is
//! proved equal to its specification, so a resolved value is pinned down to
//! the exact bytes it came from.

use vstd::prelude::*;

use crate::bytes::{
    nul_prefix, take_until_nul, u16_le_at, u16_le_spec, u32_le_at, u32_le_spec, u64_le_at,
    u64_le_spec,
};

verus! {

/// Upper bound on the entity and class table sizes a resolver accepts.
pub const MAX_ENTITIES: usize = 128;

/// Bytes per entity identity record: index, padding, class info, address.
pub const ENTITY_RECORD_LEN: usize = 24;

/// Bytes per class table record: class info handle, class code, padding.
pub const CLASS_RECORD_LEN: usize = 16;

/// Bytes of a player pawn record.
pub const PAWN_RECORD_LEN: usize = 68;

/// Bytes of a planted explosive device record.
pub const PLANTED_RECORD_LEN: usize = 36;

/// Bytes of a carried explosive device record.
pub const CARRIED_RECORD_LEN: usize = 20;

/// Bytes reserved for the current map's NUL-terminated name.
pub const MAP_NAME_LEN: usize = 64;

/// Class code of a player pawn entity.
pub const CLASS_PLAYER_PAWN: u32 = 1;

/// Class code of a planted explosive device entity.
pub const CLASS_PLANTED_DEVICE: u32 = 2;

/// Class code of a carried explosive device entity.
pub const CLASS_CARRIED_DEVICE: u32 = 3;

/// An entity handle value that refers to no entity.
pub const INVALID_HANDLE: u32 = 4294967295;

/// Where the root records of the simulated target live: the process to read
/// from and the absolute addresses resolvers start their chains at.
#[derive(Clone, Copy, PartialEq, Eq, Structural, Debug)]
pub struct GameContext {
    pub process_id: u32,
    pub globals_address: u64,
    pub entity_list_address: u64,
    pub class_table_address: u64,
    pub map_name_address: u64,
}

/// One live entity: its index, a handle to its class information, and the
/// address of its record in target memory.
#[derive(Clone, Copy, PartialEq, Eq, Structural, Debug)]
pub struct EntityIdentity {
    pub entity_index: u32,
    pub class_info: u64,
    pub address: u64,
}

/// One class table row: a class info handle and the class code it names.
#[derive(Clone, Copy, PartialEq, Eq, Structural, Debug)]
pub struct ClassEntry {
    pub class_info: u64,
    pub code: u32,
}

/// The per-frame engine globals; `time` is the engine clock in ticks.
#[derive(Clone, Copy, PartialEq, Eq, Structural, Debug)]
pub struct GlobalsState {
    pub time: u64,
}

/// A world position in integral map units.
#[derive(Clone, Copy, PartialEq, Eq, Structural, Debug)]
pub struct Position {
    pub x: i32,
    pub y: i32,
    pub z: i32,
}

/// Everything a live player pawn record carries.
#[derive(Debug)]
pub struct PlayerPawnInfo {
    pub controller_entity_id: u32,
    pub pawn_entity_id: u32,
    pub player_name: Vec<u8>,
    pub player_flashtime: u32,
    pub player_has_defuser: bool,
    pub player_health: u32,
    pub position: Position,
    pub rotation: i32,
    pub team_id: u8,
    pub weapon: u16,
}

/// A player pawn is either alive, with its full record, or not.
#[derive(Debug)]
pub enum PlayerPawnState {
    Alive(PlayerPawnInfo),
    Dead,
}

/// Mathematical image of [`PlayerPawnInfo`].
pub struct PlayerPawnInfoV {
    pub controller_entity_id: u32,
    pub pawn_entity_id: u32,
    pub player_name: Seq<u8>,
    pub player_flashtime: u32,
    pub player_has_defuser: bool,
    pub player_health: u32,
    pub position: Position,
    pub rotation: i32,
    pub team_id: u8,
    pub weapon: u16,
}

/// Mathematical image of [`PlayerPawnState`].
pub enum PlayerPawnStateV {
    Alive(PlayerPawnInfoV),
    Dead,
}

impl View for PlayerPawnInfo {
    type V = PlayerPawnInfoV;

    open spec fn view(&self) -> PlayerPawnInfoV {
        PlayerPawnInfoV {
            controller_entity_id: self.controller_entity_id,
            pawn_entity_id: self.pawn_entity_id,
            player_name: self.player_name@,
            player_flashtime: self.player_flashtime,
            player_has_defuser: self.player_has_defuser,
            player_health: self.player_health,
            position: self.position,
            rotation: self.rotation,
            team_id: self.team_id,
            weapon: self.weapon,
        }
    }
}

impl View for PlayerPawnState {
    type V = PlayerPawnStateV;

    open spec fn view(&self) -> PlayerPawnStateV {
        match self {
            PlayerPawnState::Alive(info) => PlayerPawnStateV::Alive(info@),
            PlayerPawnState::Dead => PlayerPawnStateV::Dead,
        }
    }
}

/// A decoded planted explosive device record.
#[derive(Clone, Copy, PartialEq, Eq, Structural, Debug)]
pub struct PlantedDeviceRecord {
    pub bomb_defused: bool,
    pub being_defused: bool,
    pub bomb_site: u8,
    pub time_blow: u32,
    pub timer_length: u32,
    pub defuse_countdown: u32,
    pub defuse_length: u32,
    pub defuser_handle: u32,
    pub position: Position,
}

/// A decoded carried explosive device record.
#[derive(Clone, Copy, PartialEq, Eq, Structural, Debug)]
pub struct CarriedDeviceRecord {
    pub bomb_planted: bool,
    pub owner_handle: u32,
    pub position: Position,
}

/// Decodes one entity identity record.
pub open spec fn entity_record_spec(b: Seq<u8>) -> EntityIdentity
    recommends
        b.len() == ENTITY_RECORD_LEN,
{
    EntityIdentity {
        entity_index: u32_le_spec(b.subrange(0, 4)),
        class_info: u64_le_spec(b.subrange(8, 16)),
        address: u64_le_spec(b.subrange(16, 24)),
    }
}

/// Decodes a packed array of `n` entity identity records.
pub open spec fn entity_list_spec(b: Seq<u8>, n: int) -> Seq<EntityIdentity>
    recommends
        b.len() == n * ENTITY_RECORD_LEN,
{
    Seq::new(n as nat, |i: int| entity_record_spec(b.subrange(i * 24, i * 24 + 24)))
}

/// Decodes one class table record.
pub open spec fn class_record_spec(b: Seq<u8>) -> ClassEntry
    recommends
        b.len() == CLASS_RECORD_LEN,
{
    ClassEntry { class_info: u64_le_spec(b.subrange(0, 8)), code: u32_le_spec(b.subrange(8, 12)) }
}

/// Decodes a packed array of `n` class table records.
pub open spec fn class_table_spec(b: Seq<u8>, n: int) -> Seq<ClassEntry>
    recommends
        b.len() == n * CLASS_RECORD_LEN,
{
    Seq::new(n as nat, |i: int| class_record_spec(b.subrange(i * 16, i * 16 + 16)))
}

/// Decodes a player pawn record; byte 0 decides liveness, and the record's
/// own entity index is supplied by the caller that addressed it.
pub open spec fn pawn_record_spec(b: Seq<u8>, pawn_entity_id: u32) -> PlayerPawnStateV
    recommends
        b.len() == PAWN_RECORD_LEN,
{
    if b[0] != 1 {
        PlayerPawnStateV::Dead
    } else {
        PlayerPawnStateV::Alive(
            PlayerPawnInfoV {
                controller_entity_id: u32_le_spec(b.subrange(32, 36)),
                pawn_entity_id: pawn_entity_id,
                player_name: nul_prefix(b.subrange(36, 68)),
                player_flashtime: u32_le_spec(b.subrange(8, 12)),
                player_has_defuser: b[2] != 0,
                player_health: u32_le_spec(b.subrange(4, 8)),
                position: Position {
                    x: u32_le_spec(b.subrange(16, 20)) as i32,
                    y: u32_le_spec(b.subrange(20, 24)) as i32,
                    z: u32_le_spec(b.subrange(24, 28)) as i32,
                },
                rotation: u32_le_spec(b.subrange(12, 16)) as i32,
                team_id: b[1],
                weapon: u16_le_spec(b.subrange(28, 30)),
            },
        )
    }
}

/// Decodes a planted explosive device record.
pub open spec fn planted_record_spec(b: Seq<u8>) -> PlantedDeviceRecord
    recommends
        b.len() == PLANTED_RECORD_LEN,
{
    PlantedDeviceRecord {
        bomb_defused: b[0] != 0,
        being_defused: b[1] != 0,
        bomb_site: b[2],
        time_blow: u32_le_spec(b.subrange(4, 8)),
        timer_length: u32_le_spec(b.subrange(8, 12)),
        defuse_countdown: u32_le_spec(b.subrange(12, 16)),
        defuse_length: u32_le_spec(b.subrange(16, 20)),
        defuser_handle: u32_le_spec(b.subrange(20, 24)),
        position: Position {
            x: u32_le_spec(b.subrange(24, 28)) as i32,
            y: u32_le_spec(b.subrange(28, 32)) as i32,
            z: u32_le_spec(b.subrange(32, 36)) as i32,
        },
    }
}

/// Decodes a carried explosive device record.
pub open spec fn carried_record_spec(b: Seq<u8>) -> CarriedDeviceRecord
    recommends
        b.len() == CARRIED_RECORD_LEN,
{
    CarriedDeviceRecord {
        bomb_planted: b[0] != 0,
        owner_handle: u32_le_spec(b.subrange(4, 8)),
        position: Position {
            x: u32_le_spec(b.subrange(8, 12)) as i32,
            y: u32_le_spec(b.subrange(12, 16)) as i32,
            z: u32_le_spec(b.subrange(16, 20)) as i32,
        },
    }
}

/// The first entity with the given index, scanning in list order.
pub open spec fn find_entity(ents: Seq<EntityIdentity>, entity_index: u32) -> Option<EntityIdentity>
    decreases ents.len(),
{
    if ents.len() == 0 {
        None
    } else if ents[0].entity_index == entity_index {
        Some(ents[0])
    } else {
        find_entity(ents.skip(1), entity_index)
    }
}

/// The code of the first class table row with the given handle, scanning in
/// table order.
pub open spec fn find_class(rows: Seq<ClassEntry>, class_info: u64) -> Option<u32>
    decreases rows.len(),
{
    if rows.len() == 0 {
        None
    } else if rows[0].class_info == class_info {
        Some(rows[0].code)
    } else {
        find_class(rows.skip(1), class_info)
    }
}

/// A first-match scan that stopped at `i` found exactly `find_entity`'s
/// answer.
proof fn lemma_find_entity_at(ents: Seq<EntityIdentity>, entity_index: u32, i: int)
    requires
        0 <= i < ents.len(),
        ents[i].entity_index == entity_index,
        forall|j: int| 0 <= j < i ==> ents[j].entity_index != entity_index,
    ensures
        find_entity(ents, entity_index) == Some(ents[i]),
    decreases ents.len(),
{
    if i > 0 {
        lemma_find_entity_at(ents.skip(1), entity_index, i - 1);
    }
}

/// A scan that found no match shows `find_entity` finds none.
proof fn lemma_find_entity_none(ents: Seq<EntityIdentity>, entity_index: u32)
    requires
        forall|j: int| 0 <= j < ents.len() ==> ents[j].entity_index != entity_index,
    ensures
        find_entity(ents, entity_index) is None,
    decreases ents.len(),
{
    if ents.len() > 0 {
        lemma_find_entity_none(ents.skip(1), entity_index);
    }
}

proof fn lemma_find_class_at(rows: Seq<ClassEntry>, class_info: u64, i: int)
    requires
        0 <= i < rows.len(),
        rows[i].class_info == class_info,
        forall|j: int| 0 <= j < i ==> rows[j].class_info != class_info,
    ensures
        find_class(rows, class_info) == Some(rows[i].code),
    decreases rows.len(),
{
    if i > 0 {
        lemma_find_class_at(rows.skip(1), class_info, i - 1);
    }
}

proof fn lemma_find_class_none(rows: Seq<ClassEntry>, class_info: u64)
    requires
        forall|j: int| 0 <= j < rows.len() ==> rows[j].class_info != class_info,
    ensures
        find_class(rows, class_info) is None,
    decreases rows.len(),
{
    if rows.len() > 0 {
        lemma_find_class_none(rows.skip(1), class_info);
    }
}

/// Scans an entity list for the first entity with the given index.
pub fn lookup_entity(ents: &Vec<EntityIdentity>, entity_index: u32) -> (r: Option<EntityIdentity>)
    ensures
        r == find_entity(ents@, entity_index),
{
    let mut i: usize = 0;
    while i < ents.len()
        invariant
            0 <= i <= ents@.len(),
            forall|j: int| 0 <= j < i ==> ents@[j].entity_index != entity_index,
        decreases ents@.len() - i,
    {
        if ents[i].entity_index == entity_index {
            proof {
                lemma_find_entity_at(ents@, entity_index, i as int);
            }
            return Some(ents[i]);
        }
        i += 1;
    }
    proof {
        lemma_find_entity_none(ents@, entity_index);
    }
    None
}

/// Scans a class table for the first row with the given handle.
pub fn lookup_class(rows: &Vec<ClassEntry>, class_info: u64) -> (r: Option<u32>)
    ensures
        r == find_class(rows@, class_info),
{
    let mut i: usize = 0;
    while i < rows.len()
        invariant
            0 <= i <= rows@.len(),
            forall|j: int| 0 <= j < i ==> rows@[j].class_info != class_info,
        decreases rows@.len() - i,
    {
        if rows[i].class_info == class_info {
            proof {
                lemma_find_class_at(rows@, class_info, i as int);
            }
            return Some(rows[i].code);
        }
        i += 1;
    }
    proof {
        lemma_find_class_none(rows@, class_info);
    }
    None
}

/// Decodes a packed entity identity array of `n` records.
pub fn parse_entity_list(data: &Vec<u8>, n: usize) -> (r: Vec<EntityIdentity>)
    requires
        data@.len() == n * ENTITY_RECORD_LEN,
        n <= MAX_ENTITIES,
    ensures
        r@ == entity_list_spec(data@, n as int),
{
    proof {
        assert(data@.len() <= usize::MAX) by {
            assert(data.len() == data@.len());
        }
    }
    let mut out: Vec<EntityIdentity> = Vec::new();
    let mut i: usize = 0;
    while i < n
        invariant
            0 <= i <= n,
            data@.len() == n * 24,
            data@.len() <= usize::MAX,
            out@ == entity_list_spec(data@, n as int).take(i as int),
        decreases n - i,
    {
        let base = i * 24;
        let e = EntityIdentity {
            entity_index: u32_le_at(data, base),
            class_info: u64_le_at(data, base + 8),
            address: u64_le_at(data, base + 16),
        };
        proof {
            let rec = data@.subrange(i * 24, i * 24 + 24);
            assert(rec.subrange(0, 4) =~= data@.subrange(base as int, base + 4));
            assert(rec.subrange(8, 16) =~= data@.subrange(base + 8, base + 16));
            assert(rec.subrange(16, 24) =~= data@.subrange(base + 16, base + 24));
            assert(e == entity_record_spec(rec));
        }
        out.push(e);
        i += 1;
        proof {
            assert(out@ =~= entity_list_spec(data@, n as int).take(i as int));
        }
    }
    proof {
        assert(entity_list_spec(data@, n as int).take(n as int) =~= entity_list_spec(
            data@,
            n as int,
        ));
    }
    out
}

/// Decodes a packed class table of `n` records.
pub fn parse_class_table(data: &Vec<u8>, n: usize) -> (r: Vec<ClassEntry>)
    requires
        data@.len() == n * CLASS_RECORD_LEN,
        n <= MAX_ENTITIES,
    ensures
        r@ == class_table_spec(data@, n as int),
{
    proof {
        assert(data@.len() <= usize::MAX) by {
            assert(data.len() == data@.len());
        }
    }
    let mut out: Vec<ClassEntry> = Vec::new();
    let mut i: usize = 0;
    while i < n
        invariant
            0 <= i <= n,
            data@.len() == n * 16,
            data@.len() <= usize::MAX,
            out@ == class_table_spec(data@, n as int).take(i as int),
        decreases n - i,
    {
        let base = i * 16;
        let e = ClassEntry { class_info: u64_le_at(data, base), code: u32_le_at(data, base + 8) };
        proof {
            let rec = data@.subrange(i * 16, i * 16 + 16);
            assert(rec.subrange(0, 8) =~= data@.subrange(base as int, base + 8));
            assert(rec.subrange(8, 12) =~= data@.subrange(base + 8, base + 12));
            assert(e == class_record_spec(rec));
        }
        out.push(e);
        i += 1;
        proof {
            assert(out@ =~= class_table_spec(data@, n as int).take(i as int));
        }
    }
    proof {
        assert(class_table_spec(data@, n as int).take(n as int) =~= class_table_spec(
            data@,
            n as int,
        ));
    }
    out
}

/// Decodes a player pawn record.
pub fn parse_pawn_record(data: &Vec<u8>, pawn_entity_id: u32) -> (r: PlayerPawnState)
    requires
        data@.len() == PAWN_RECORD_LEN,
    ensures
        r@ == pawn_record_spec(data@, pawn_entity_id),
{
    if data[0] != 1 {
        return PlayerPawnState::Dead;
    }
    let mut name_field: Vec<u8> = Vec::new();
    let mut i: usize = 36;
    while i < 68
        invariant
            36 <= i <= 68,
            data@.len() == 68,
            name_field@ == data@.subrange(36, i as int),
        decreases 68 - i,
    {
        name_field.push(data[i]);
        i += 1;
        proof {
            assert(name_field@ =~= data@.subrange(36, i as int));
        }
    }
    let info = PlayerPawnInfo {
        controller_entity_id: u32_le_at(data, 32),
        pawn_entity_id,
        player_name: take_until_nul(&name_field),
        player_flashtime: u32_le_at(data, 8),
        player_has_defuser: data[2] != 0,
        player_health: u32_le_at(data, 4),
        position: Position {
            x: u32_le_at(data, 16) as i32,
            y: u32_le_at(data, 20) as i32,
            z: u32_le_at(data, 24) as i32,
        },
        rotation: u32_le_at(data, 12) as i32,
        team_id: data[1],
        weapon: u16_le_at(data, 28),
    };
    PlayerPawnState::Alive(info)
}

/// Decodes a planted explosive device record.
pub fn parse_planted_record(data: &Vec<u8>) -> (r: PlantedDeviceRecord)
    requires
        data@.len() == PLANTED_RECORD_LEN,
    ensures
        r == planted_record_spec(data@),
{
    PlantedDeviceRecord {
        bomb_defused: data[0] != 0,
        being_defused: data[1] != 0,
        bomb_site: data[2],
        time_blow: u32_le_at(data, 4),
        timer_length: u32_le_at(data, 8),
        defuse_countdown: u32_le_at(data, 12),
        defuse_length: u32_le_at(data, 16),
        defuser_handle: u32_le_at(data, 20),
        position: Position {
            x: u32_le_at(data, 24) as i32,
            y: u32_le_at(data, 28) as i32,
            z: u32_le_at(data, 32) as i32,
        },
    }
}

/// Decodes a carried explosive device record.
pub fn parse_carried_record(data: &Vec<u8>) -> (r: CarriedDeviceRecord)
    requires
        data@.len() == CARRIED_RECORD_LEN,
    ensures
        r == carried_record_spec(data@),
{
    CarriedDeviceRecord {
        bomb_planted: data[0] != 0,
        owner_handle: u32_le_at(data, 4),
        position: Position {
            x: u32_le_at(data, 8) as i32,
            y: u32_le_at(data, 12) as i32,
            z: u32_le_at(data, 16) as i32,
        },
    }
}

} // verus!

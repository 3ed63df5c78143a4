//! Exercises the state registry and the radar generator against simulated
//! target processes: memoization per epoch, invalidation, dependency
//! failures, and full-frame snapshots.

use radar_core::game::{
    GameContext, CLASS_CARRIED_DEVICE, CLASS_PLANTED_DEVICE, CLASS_PLAYER_PAWN, MAX_ENTITIES,
};
use radar_core::memory::{ProcessTable, TargetMemory};
use radar_core::radar::{planted_c4_to_radar_state, CS2RadarGenerator, PlantedC4State};
use radar_core::registry::{ResolveError, StateKind, StateRegistry, StateValue};

const PID: u32 = 7;
const GLOBALS: u64 = 0x100;
const MAP: u64 = 0x200;
const ENT_HDR: u64 = 0x300;
const ENT_ARR: u64 = 0x400;
const CLS_HDR: u64 = 0x500;
const CLS_ARR: u64 = 0x600;

fn ctx() -> GameContext {
    GameContext {
        process_id: PID,
        globals_address: GLOBALS,
        entity_list_address: ENT_HDR,
        class_table_address: CLS_HDR,
        map_name_address: MAP,
    }
}

fn header(count: u32, ptr: u64) -> Vec<u8> {
    let mut b = vec![0u8; 16];
    b[0..4].copy_from_slice(&count.to_le_bytes());
    b[8..16].copy_from_slice(&ptr.to_le_bytes());
    b
}

fn entity_records(entities: &[(u32, u64, u64)]) -> Vec<u8> {
    let mut b = Vec::new();
    for (idx, class_info, address) in entities {
        b.extend_from_slice(&idx.to_le_bytes());
        b.extend_from_slice(&[0u8; 4]);
        b.extend_from_slice(&class_info.to_le_bytes());
        b.extend_from_slice(&address.to_le_bytes());
    }
    b
}

fn class_rows(rows: &[(u64, u32)]) -> Vec<u8> {
    let mut b = Vec::new();
    for (class_info, code) in rows {
        b.extend_from_slice(&class_info.to_le_bytes());
        b.extend_from_slice(&code.to_le_bytes());
        b.extend_from_slice(&[0u8; 4]);
    }
    b
}

fn pawn_record(
    state: u8,
    team: u8,
    has_defuser: u8,
    health: u32,
    flash: u32,
    rotation: i32,
    pos: (i32, i32, i32),
    weapon: u16,
    controller: u32,
    name: &[u8],
) -> Vec<u8> {
    let mut b = vec![0u8; 68];
    b[0] = state;
    b[1] = team;
    b[2] = has_defuser;
    b[4..8].copy_from_slice(&health.to_le_bytes());
    b[8..12].copy_from_slice(&flash.to_le_bytes());
    b[12..16].copy_from_slice(&rotation.to_le_bytes());
    b[16..20].copy_from_slice(&pos.0.to_le_bytes());
    b[20..24].copy_from_slice(&pos.1.to_le_bytes());
    b[24..28].copy_from_slice(&pos.2.to_le_bytes());
    b[28..30].copy_from_slice(&weapon.to_le_bytes());
    b[32..36].copy_from_slice(&controller.to_le_bytes());
    b[36..36 + name.len()].copy_from_slice(name);
    b
}

fn planted_record(
    defused: u8,
    being_defused: u8,
    site: u8,
    time_blow: u32,
    timer_length: u32,
    defuse_countdown: u32,
    defuse_length: u32,
    defuser_handle: u32,
    pos: (i32, i32, i32),
) -> Vec<u8> {
    let mut b = vec![0u8; 36];
    b[0] = defused;
    b[1] = being_defused;
    b[2] = site;
    b[4..8].copy_from_slice(&time_blow.to_le_bytes());
    b[8..12].copy_from_slice(&timer_length.to_le_bytes());
    b[12..16].copy_from_slice(&defuse_countdown.to_le_bytes());
    b[16..20].copy_from_slice(&defuse_length.to_le_bytes());
    b[20..24].copy_from_slice(&defuser_handle.to_le_bytes());
    b[24..28].copy_from_slice(&pos.0.to_le_bytes());
    b[28..32].copy_from_slice(&pos.1.to_le_bytes());
    b[32..36].copy_from_slice(&pos.2.to_le_bytes());
    b
}

fn carried_record(planted: u8, owner: u32, pos: (i32, i32, i32)) -> Vec<u8> {
    let mut b = vec![0u8; 20];
    b[0] = planted;
    b[4..8].copy_from_slice(&owner.to_le_bytes());
    b[8..12].copy_from_slice(&pos.0.to_le_bytes());
    b[12..16].copy_from_slice(&pos.1.to_le_bytes());
    b[16..20].copy_from_slice(&pos.2.to_le_bytes());
    b
}

fn world(
    time: u64,
    map: &[u8],
    entities: &[(u32, u64, u64)],
    classes: &[(u64, u32)],
    extra: Vec<(u64, Vec<u8>)>,
) -> ProcessTable {
    let mut mem = TargetMemory::new();
    assert!(mem.map_region(GLOBALS, time.to_le_bytes().to_vec()));
    let mut name = vec![0u8; 64];
    name[..map.len()].copy_from_slice(map);
    assert!(mem.map_region(MAP, name));
    assert!(mem.map_region(ENT_HDR, header(entities.len() as u32, ENT_ARR)));
    assert!(mem.map_region(ENT_ARR, entity_records(entities)));
    assert!(mem.map_region(CLS_HDR, header(classes.len() as u32, CLS_ARR)));
    assert!(mem.map_region(CLS_ARR, class_rows(classes)));
    for (base, data) in extra {
        assert!(mem.map_region(base, data));
    }
    let mut table = ProcessTable::new();
    assert!(table.add_process(PID, mem));
    table
}

#[test]
fn resolves_globals_from_target_memory() {
    let table = world(5000, b"de_dust2", &[], &[], vec![]);
    let mut reg = StateRegistry::new();
    match reg.resolve(&table, &ctx(), StateKind::Globals, 0).unwrap() {
        StateValue::Globals(g) => assert_eq!(g.time, 5000),
        _ => panic!("wrong variant"),
    }
}

#[test]
fn same_slot_computed_once_per_epoch() {
    // Two resolves in one epoch: the second is a pure cache read, so the
    // slot's computation counter stays at one.
    let table = world(5000, b"de_dust2", &[], &[], vec![]);
    let mut reg = StateRegistry::new();
    reg.resolve(&table, &ctx(), StateKind::Globals, 0).unwrap();
    assert_eq!(reg.generation_of(StateKind::Globals, 0), 1);
    let v = reg.resolve(&table, &ctx(), StateKind::Globals, 0).unwrap();
    assert_eq!(reg.generation_of(StateKind::Globals, 0), 1);
    match v {
        StateValue::Globals(g) => assert_eq!(g.time, 5000),
        _ => panic!("wrong variant"),
    }
}

#[test]
fn invalidate_triggers_exactly_one_fresh_computation() {
    let table = world(5000, b"de_dust2", &[], &[], vec![]);
    let mut reg = StateRegistry::new();
    let e0 = reg.current_epoch();
    reg.resolve(&table, &ctx(), StateKind::Globals, 0).unwrap();
    reg.invalidate();
    assert_eq!(reg.current_epoch(), e0 + 1);
    assert_eq!(reg.generation_of(StateKind::Globals, 0), 1);
    reg.resolve(&table, &ctx(), StateKind::Globals, 0).unwrap();
    assert_eq!(reg.generation_of(StateKind::Globals, 0), 2);
    reg.resolve(&table, &ctx(), StateKind::Globals, 0).unwrap();
    assert_eq!(reg.generation_of(StateKind::Globals, 0), 2);
}

#[test]
fn unknown_process_propagates_as_typed_failure() {
    let table = world(5000, b"de_dust2", &[], &[], vec![]);
    let mut bad = ctx();
    bad.process_id = 99;
    let mut reg = StateRegistry::new();
    assert_eq!(
        reg.resolve(&table, &bad, StateKind::Globals, 0).unwrap_err(),
        ResolveError::UnknownProcess
    );
}

#[test]
fn oversized_entity_table_is_rejected() {
    let mut mem = TargetMemory::new();
    assert!(mem.map_region(ENT_HDR, header(MAX_ENTITIES as u32 + 1, ENT_ARR)));
    let mut table = ProcessTable::new();
    assert!(table.add_process(PID, mem));
    let mut reg = StateRegistry::new();
    assert_eq!(
        reg.resolve(&table, &ctx(), StateKind::EntitySystem, 0).unwrap_err(),
        ResolveError::TooManyEntities
    );
}

#[test]
fn missing_entity_index_is_reported() {
    let table = world(5000, b"de_dust2", &[], &[], vec![]);
    let mut reg = StateRegistry::new();
    assert_eq!(
        reg.resolve(&table, &ctx(), StateKind::PlayerPawn, 42).unwrap_err(),
        ResolveError::EntityNotFound
    );
}

#[test]
fn dependency_failure_propagates_up_the_chain() {
    // The pawn kind depends on the entity system, whose identity array sits
    // in unmapped memory: the fault surfaces through the whole chain.
    let mut mem = TargetMemory::new();
    assert!(mem.map_region(ENT_HDR, header(2, 0x9000)));
    let mut table = ProcessTable::new();
    assert!(table.add_process(PID, mem));
    let mut reg = StateRegistry::new();
    assert_eq!(
        reg.resolve(&table, &ctx(), StateKind::PlayerPawn, 1).unwrap_err(),
        ResolveError::InvalidAddress
    );
}

#[test]
fn full_frame_snapshot_with_one_failing_sibling() {
    // Three entities: a readable live pawn, a pawn whose record is unmapped
    // (skipped, not fatal), and an unplanted carried device.
    let pawn = pawn_record(1, 3, 1, 87, 250, -90, (10, -20, 30), 9, 101, b"alice\0");
    let carried = carried_record(0, 0xffff_ffff, (5, 6, 7));
    let table = world(
        5000,
        b"de_dust2",
        &[(1, 0xaa, 0x1000), (2, 0xaa, 0xdddd), (3, 0xcc, 0x2000)],
        &[(0xaa, CLASS_PLAYER_PAWN), (0xcc, CLASS_CARRIED_DEVICE)],
        vec![(0x1000, pawn), (0x2000, carried)],
    );
    let mut gen = CS2RadarGenerator::new(StateRegistry::new()).unwrap();
    let state = gen.generate_state(&table, &ctx()).unwrap();

    assert_eq!(state.world_name, b"de_dust2".to_vec());
    assert_eq!(state.players.len(), 1);
    let p = &state.players[0];
    assert_eq!(p.pawn_entity_id, 1);
    assert_eq!(p.controller_entity_id, 101);
    assert_eq!(p.player_name, b"alice".to_vec());
    assert_eq!(p.player_health, 87);
    assert_eq!(p.player_flashtime, 250);
    assert!(p.player_has_defuser);
    assert_eq!(p.team_id, 3);
    assert_eq!(p.weapon, 9);
    assert_eq!(p.rotation, -90);
    assert_eq!((p.position.x, p.position.y, p.position.z), (10, -20, 30));

    assert!(state.planted_c4.is_none());
    assert_eq!(state.c4_entities.len(), 1);
    let c4 = &state.c4_entities[0];
    assert_eq!(c4.entity_id, 3);
    assert_eq!(c4.owner_entity_id, None);
    assert_eq!((c4.position.x, c4.position.y, c4.position.z), (5, 6, 7));
}

#[test]
fn dead_pawn_yields_no_player_entry() {
    let pawn = pawn_record(0, 3, 0, 0, 0, 0, (0, 0, 0), 0, 101, b"bob\0");
    let table = world(
        5000,
        b"de_mirage",
        &[(1, 0xaa, 0x1000)],
        &[(0xaa, CLASS_PLAYER_PAWN)],
        vec![(0x1000, pawn)],
    );
    let mut gen = CS2RadarGenerator::new(StateRegistry::new()).unwrap();
    let state = gen.generate_state(&table, &ctx()).unwrap();
    assert_eq!(state.players.len(), 0);
}

#[test]
fn foundational_failure_aborts_the_frame() {
    // No entity system in target memory: the whole frame fails.
    let mut mem = TargetMemory::new();
    assert!(mem.map_region(GLOBALS, 5000u64.to_le_bytes().to_vec()));
    assert!(mem.map_region(MAP, vec![0u8; 64]));
    let mut table = ProcessTable::new();
    assert!(table.add_process(PID, mem));
    let mut gen = CS2RadarGenerator::new(StateRegistry::new()).unwrap();
    assert_eq!(gen.generate_state(&table, &ctx()).unwrap_err(), ResolveError::InvalidAddress);
}

#[test]
fn planted_device_defused_state() {
    let table = world(5000, b"de_dust2", &[], &[], vec![]);
    let mut gen = CS2RadarGenerator::new(StateRegistry::new()).unwrap();
    let rec_bytes = planted_record(1, 0, 0, 0, 0, 0, 0, 0, (0, 0, 0));
    let rec = radar_core::game::parse_planted_record(&rec_bytes);
    let state = planted_c4_to_radar_state(&mut gen, &table, &ctx(), &rec).unwrap();
    assert!(matches!(state, PlantedC4State::Defused));
}

#[test]
fn planted_device_detonated_when_countdown_elapsed() {
    let table = world(5000, b"de_dust2", &[], &[], vec![]);
    let mut gen = CS2RadarGenerator::new(StateRegistry::new()).unwrap();
    let rec_bytes = planted_record(0, 0, 0, 4000, 0, 0, 0, 0, (0, 0, 0));
    let rec = radar_core::game::parse_planted_record(&rec_bytes);
    let state = planted_c4_to_radar_state(&mut gen, &table, &ctx(), &rec).unwrap();
    assert!(matches!(state, PlantedC4State::Detonated));
}

#[test]
fn planted_device_active_countdown_is_exact() {
    let table = world(5000, b"de_dust2", &[], &[], vec![]);
    let mut gen = CS2RadarGenerator::new(StateRegistry::new()).unwrap();
    let rec_bytes = planted_record(0, 0, 1, 6000, 400, 0, 0, 0, (0, 0, 0));
    let rec = radar_core::game::parse_planted_record(&rec_bytes);
    match planted_c4_to_radar_state(&mut gen, &table, &ctx(), &rec).unwrap() {
        PlantedC4State::Active { time_detonation, time_total, defuser } => {
            assert_eq!(time_detonation, 1000);
            assert_eq!(time_total, 400);
            assert!(defuser.is_none());
        },
        _ => panic!("expected active"),
    }
}

#[test]
fn planted_device_reports_its_defuser() {
    let pawn = pawn_record(1, 3, 1, 87, 0, 0, (0, 0, 0), 0, 101, b"carol\0");
    let table = world(
        5000,
        b"de_dust2",
        &[(4, 0xaa, 0x1000)],
        &[(0xaa, CLASS_PLAYER_PAWN)],
        vec![(0x1000, pawn)],
    );
    let mut gen = CS2RadarGenerator::new(StateRegistry::new()).unwrap();
    // Defuse countdown already behind the clock: the remaining time may be
    // negative and stays exact.
    let rec_bytes = planted_record(0, 1, 1, 6000, 400, 4000, 100, 4, (0, 0, 0));
    let rec = radar_core::game::parse_planted_record(&rec_bytes);
    match planted_c4_to_radar_state(&mut gen, &table, &ctx(), &rec).unwrap() {
        PlantedC4State::Active { defuser: Some(d), .. } => {
            assert_eq!(d.time_remaining, -1000);
            assert_eq!(d.time_total, 100);
            assert_eq!(d.player_name, b"carol".to_vec());
        },
        _ => panic!("expected active with defuser"),
    }
}

#[test]
fn dead_defuser_is_a_missing_defuser() {
    let pawn = pawn_record(0, 3, 0, 0, 0, 0, (0, 0, 0), 0, 101, b"dave\0");
    let table = world(
        5000,
        b"de_dust2",
        &[(4, 0xaa, 0x1000)],
        &[(0xaa, CLASS_PLAYER_PAWN)],
        vec![(0x1000, pawn)],
    );
    let mut gen = CS2RadarGenerator::new(StateRegistry::new()).unwrap();
    let rec_bytes = planted_record(0, 1, 1, 6000, 400, 4000, 100, 4, (0, 0, 0));
    let rec = radar_core::game::parse_planted_record(&rec_bytes);
    assert_eq!(
        planted_c4_to_radar_state(&mut gen, &table, &ctx(), &rec).unwrap_err(),
        ResolveError::MissingDefuser
    );
}

#[test]
fn planted_device_in_full_frame() {
    let planted = planted_record(1, 0, 2, 0, 0, 0, 0, 0, (11, 22, 33));
    let table = world(
        5000,
        b"de_nuke",
        &[(5, 0xbb, 0x2100)],
        &[(0xbb, CLASS_PLANTED_DEVICE)],
        vec![(0x2100, planted)],
    );
    let mut gen = CS2RadarGenerator::new(StateRegistry::new()).unwrap();
    let state = gen.generate_state(&table, &ctx()).unwrap();
    let p = state.planted_c4.expect("planted device present");
    assert_eq!(p.bomb_site, 2);
    assert_eq!((p.position.x, p.position.y, p.position.z), (11, 22, 33));
    assert!(matches!(p.state, PlantedC4State::Defused));
}

#[test]
fn carried_device_with_owner_and_planted_one_skipped() {
    let carried_owned = carried_record(0, 9, (1, 2, 3));
    let carried_planted = carried_record(1, 9, (4, 5, 6));
    let table = world(
        5000,
        b"de_inferno",
        &[(6, 0xcc, 0x2000), (7, 0xcc, 0x2020)],
        &[(0xcc, CLASS_CARRIED_DEVICE)],
        vec![(0x2000, carried_owned), (0x2020, carried_planted)],
    );
    let mut gen = CS2RadarGenerator::new(StateRegistry::new()).unwrap();
    let state = gen.generate_state(&table, &ctx()).unwrap();
    assert_eq!(state.c4_entities.len(), 1);
    assert_eq!(state.c4_entities[0].entity_id, 6);
    assert_eq!(state.c4_entities[0].owner_entity_id, Some(9));
}

#[test]
fn unknown_entity_class_is_skipped() {
    let table = world(5000, b"de_train", &[(8, 0xee, 0x3000)], &[], vec![]);
    let mut gen = CS2RadarGenerator::new(StateRegistry::new()).unwrap();
    let state = gen.generate_state(&table, &ctx()).unwrap();
    assert_eq!(state.players.len(), 0);
    assert!(state.planted_c4.is_none());
    assert_eq!(state.c4_entities.len(), 0);
}

#[test]
fn frame_resolves_shared_kinds_once() {
    // Two pawn entities: both player infos depend on the entity system, which
    // is resolved once for the whole frame.
    let pawn_a = pawn_record(1, 2, 0, 50, 0, 0, (0, 0, 0), 1, 100, b"a\0");
    let pawn_b = pawn_record(1, 3, 0, 60, 0, 0, (0, 0, 0), 2, 200, b"b\0");
    let table = world(
        5000,
        b"de_dust2",
        &[(1, 0xaa, 0x1000), (2, 0xaa, 0x1100)],
        &[(0xaa, CLASS_PLAYER_PAWN)],
        vec![(0x1000, pawn_a), (0x1100, pawn_b)],
    );
    let mut gen = CS2RadarGenerator::new(StateRegistry::new()).unwrap();
    let state = gen.generate_state(&table, &ctx()).unwrap();
    assert_eq!(state.players.len(), 2);
    assert_eq!(gen.states.generation_of(StateKind::EntitySystem, 0), 1);
    assert_eq!(gen.states.generation_of(StateKind::PlayerPawn, 1), 1);
    assert_eq!(gen.states.generation_of(StateKind::PlayerPawn, 2), 1);
    // The next frame recomputes each exactly once more.
    let state2 = gen.generate_state(&table, &ctx()).unwrap();
    assert_eq!(state2.players.len(), 2);
    assert_eq!(gen.states.generation_of(StateKind::EntitySystem, 0), 2);
}

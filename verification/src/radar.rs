//! The consumer of the state cache: assembles a per-frame radar snapshot
//! (players, the planted explosive device, carried devices) by resolving
//! cached states once per epoch.
//!
//! Failure policy: a failure to resolve a foundational kind (map, entity
//! system, class names) or to read an entity's own record aborts the frame;
//! a failure while deriving one entity's state only skips that entity, so
//! sibling entities still resolve.

use vstd::prelude::*;

use crate::game::{
    carried_record_spec, find_class, lookup_class, parse_carried_record, parse_planted_record,
    planted_record_spec, ClassEntry, EntityIdentity, GameContext, PlantedDeviceRecord,
    PlayerPawnInfoV, PlayerPawnState, PlayerPawnStateV, Position, CARRIED_RECORD_LEN,
    CLASS_CARRIED_DEVICE, CLASS_PLANTED_DEVICE, CLASS_PLAYER_PAWN, INVALID_HANDLE,
    PLANTED_RECORD_LEN,
};
use crate::memory::ProcessTable;
use crate::registry::{
    direct_chain, read_chain, read_result, resolve_spec, ReadOutcome, ResolveError, StateKind,
    StateRegistry, StateValue, StateValueV,
};

verus! {

/// One player on the radar.
#[derive(Debug)]
pub struct RadarPlayerInfo {
    pub controller_entity_id: u32,
    pub pawn_entity_id: u32,
    pub player_name: Vec<u8>,
    pub player_flashtime: u32,
    pub player_has_defuser: bool,
    pub player_health: u32,
    pub position: Position,
    pub rotation: i32,
    pub team_id: u8,
    pub weapon: u16,
}

/// Mathematical image of [`RadarPlayerInfo`].
pub struct RadarPlayerInfoV {
    pub controller_entity_id: u32,
    pub pawn_entity_id: u32,
    pub player_name: Seq<u8>,
    pub player_flashtime: u32,
    pub player_has_defuser: bool,
    pub player_health: u32,
    pub position: Position,
    pub rotation: i32,
    pub team_id: u8,
    pub weapon: u16,
}

impl View for RadarPlayerInfo {
    type V = RadarPlayerInfoV;

    open spec fn view(&self) -> RadarPlayerInfoV {
        RadarPlayerInfoV {
            controller_entity_id: self.controller_entity_id,
            pawn_entity_id: self.pawn_entity_id,
            player_name: self.player_name@,
            player_flashtime: self.player_flashtime,
            player_has_defuser: self.player_has_defuser,
            player_health: self.player_health,
            position: self.position,
            rotation: self.rotation,
            team_id: self.team_id,
            weapon: self.weapon,
        }
    }
}

/// Who is defusing the planted device, and how the countdowns stand.
/// Times are engine ticks; `time_remaining` may be negative.
#[derive(Debug)]
pub struct BombDefuser {
    pub time_remaining: i64,
    pub time_total: u32,
    pub player_name: Vec<u8>,
}

/// Mathematical image of [`BombDefuser`].
pub struct BombDefuserV {
    pub time_remaining: i64,
    pub time_total: u32,
    pub player_name: Seq<u8>,
}

impl View for BombDefuser {
    type V = BombDefuserV;

    open spec fn view(&self) -> BombDefuserV {
        BombDefuserV {
            time_remaining: self.time_remaining,
            time_total: self.time_total,
            player_name: self.player_name@,
        }
    }
}

/// The lifecycle of a planted explosive device.
#[derive(Debug)]
pub enum PlantedC4State {
    /// Counting down; `defuser` is present while someone is defusing.
    Active { time_detonation: i64, time_total: u32, defuser: Option<BombDefuser> },
    /// Defused before the countdown ran out.
    Defused,
    /// The countdown ran out.
    Detonated,
}

/// Mathematical image of [`PlantedC4State`].
pub enum PlantedC4StateV {
    Active { time_detonation: i64, time_total: u32, defuser: Option<BombDefuserV> },
    Defused,
    Detonated,
}

impl View for PlantedC4State {
    type V = PlantedC4StateV;

    open spec fn view(&self) -> PlantedC4StateV {
        match self {
            PlantedC4State::Active { time_detonation, time_total, defuser } =>
                PlantedC4StateV::Active {
                    time_detonation: *time_detonation,
                    time_total: *time_total,
                    defuser: match defuser {
                        Some(d) => Some(d@),
                        None => None,
                    },
                },
            PlantedC4State::Defused => PlantedC4StateV::Defused,
            PlantedC4State::Detonated => PlantedC4StateV::Detonated,
        }
    }
}

/// The planted device as shown on the radar.
#[derive(Debug)]
pub struct RadarPlantedC4 {
    pub position: Position,
    pub bomb_site: u8,
    pub state: PlantedC4State,
}

/// Mathematical image of [`RadarPlantedC4`].
pub struct RadarPlantedC4V {
    pub position: Position,
    pub bomb_site: u8,
    pub state: PlantedC4StateV,
}

impl View for RadarPlantedC4 {
    type V = RadarPlantedC4V;

    open spec fn view(&self) -> RadarPlantedC4V {
        RadarPlantedC4V { position: self.position, bomb_site: self.bomb_site, state: self.state@ }
    }
}

/// A carried (not yet planted) explosive device on the radar.
#[derive(Clone, Copy, PartialEq, Eq, Debug)]
pub struct RadarC4 {
    pub entity_id: u32,
    pub position: Position,
    pub owner_entity_id: Option<u32>,
}

/// The assembled per-frame snapshot.
#[derive(Debug)]
pub struct RadarState {
    pub players: Vec<RadarPlayerInfo>,
    pub world_name: Vec<u8>,
    pub planted_c4: Option<RadarPlantedC4>,
    pub c4_entities: Vec<RadarC4>,
}

/// Mathematical image of [`RadarState`].
pub struct RadarStateV {
    pub players: Seq<RadarPlayerInfoV>,
    pub world_name: Seq<u8>,
    pub planted_c4: Option<RadarPlantedC4V>,
    pub c4_entities: Seq<RadarC4>,
}

/// Element-wise view of a player vector.
pub open spec fn players_view(v: Seq<RadarPlayerInfo>) -> Seq<RadarPlayerInfoV> {
    v.map_values(|p: RadarPlayerInfo| p@)
}

/// View of an optional planted device.
pub open spec fn planted_view(v: Option<RadarPlantedC4>) -> Option<RadarPlantedC4V> {
    match v {
        Some(p) => Some(p@),
        None => None,
    }
}

impl View for RadarState {
    type V = RadarStateV;

    open spec fn view(&self) -> RadarStateV {
        RadarStateV {
            players: players_view(self.players@),
            world_name: self.world_name@,
            planted_c4: planted_view(self.planted_c4),
            c4_entities: self.c4_entities@,
        }
    }
}

/// The engine clock, as resolving the globals kind yields it.
pub open spec fn globals_time_spec(table: ProcessTable, ctx: GameContext) -> Result<
    u64,
    ResolveError,
> {
    match resolve_spec(table, ctx, StateKind::Globals, 0) {
        Err(e) => Err(e),
        Ok(v) => match v {
            StateValueV::Globals(g) => Ok(g.time),
            _ => Err(ResolveError::UnknownProcess),
        },
    }
}

/// The radar image of a live pawn record.
pub open spec fn radar_info_of(info: PlayerPawnInfoV) -> RadarPlayerInfoV {
    RadarPlayerInfoV {
        controller_entity_id: info.controller_entity_id,
        pawn_entity_id: info.pawn_entity_id,
        player_name: info.player_name,
        player_flashtime: info.player_flashtime,
        player_has_defuser: info.player_has_defuser,
        player_health: info.player_health,
        position: info.position,
        rotation: info.rotation,
        team_id: info.team_id,
        weapon: info.weapon,
    }
}

/// What generating one player's radar info yields: the live pawn's record,
/// `None` for a pawn that is not alive, or the pawn resolution's failure.
pub open spec fn player_info_spec(table: ProcessTable, ctx: GameContext, pawn_entity_id: u32)
    -> Result<Option<RadarPlayerInfoV>, ResolveError> {
    match resolve_spec(table, ctx, StateKind::PlayerPawn, pawn_entity_id) {
        Err(e) => Err(e),
        Ok(v) => match v {
            StateValueV::Pawn(PlayerPawnStateV::Alive(info)) => Ok(Some(radar_info_of(info))),
            _ => Ok(None),
        },
    }
}

/// What deriving the planted device's lifecycle state yields: defused and
/// detonated are decided from the record and the engine clock alone; an
/// active device being defused requires the defuser's live pawn, whose
/// absence is this derivation's failure.
pub open spec fn planted_state_spec(
    table: ProcessTable,
    ctx: GameContext,
    planted: PlantedDeviceRecord,
) -> Result<PlantedC4StateV, ResolveError> {
    if planted.bomb_defused {
        Ok(PlantedC4StateV::Defused)
    } else {
        match globals_time_spec(table, ctx) {
            Err(e) => Err(e),
            Ok(time) => if planted.time_blow <= time {
                Ok(PlantedC4StateV::Detonated)
            } else {
                if !planted.being_defused {
                    Ok(
                        PlantedC4StateV::Active {
                            time_detonation: (planted.time_blow - time) as i64,
                            time_total: planted.timer_length,
                            defuser: None,
                        },
                    )
                } else {
                    match resolve_spec(table, ctx, StateKind::PlayerPawn, planted.defuser_handle) {
                        Err(e) => Err(e),
                        Ok(v) => match v {
                            StateValueV::Pawn(PlayerPawnStateV::Alive(info)) => Ok(
                                PlantedC4StateV::Active {
                                    time_detonation: (planted.time_blow - time) as i64,
                                    time_total: planted.timer_length,
                                    defuser: Some(
                                        BombDefuserV {
                                            time_remaining: (planted.defuse_countdown - time) as i64,
                                            time_total: planted.defuse_length,
                                            player_name: info.player_name,
                                        },
                                    ),
                                },
                            ),
                            _ => Err(ResolveError::MissingDefuser),
                        },
                    }
                }
            },
        }
    }
}

/// The parts of the snapshot that grow entity by entity.
pub struct SnapshotAcc {
    pub players: Seq<RadarPlayerInfoV>,
    pub planted_c4: Option<RadarPlantedC4V>,
    pub c4_entities: Seq<RadarC4>,
}

/// How one entity extends the snapshot under assembly. A per-entity
/// derivation failure leaves the snapshot as it was; a failure to read the
/// entity's own record aborts the whole frame.
#[verifier::opaque]
pub open spec fn snapshot_step(
    table: ProcessTable,
    ctx: GameContext,
    classes: Seq<ClassEntry>,
    acc: SnapshotAcc,
    ent: EntityIdentity,
) -> Result<SnapshotAcc, ResolveError> {
    match find_class(classes, ent.class_info) {
        None => Ok(acc),
        Some(code) => if code == CLASS_PLAYER_PAWN {
            match player_info_spec(table, ctx, ent.entity_index) {
                Ok(Some(info)) => Ok(SnapshotAcc { players: acc.players.push(info), ..acc }),
                Ok(None) => Ok(acc),
                Err(_) => Ok(acc),
            }
        } else if code == CLASS_PLANTED_DEVICE {
            match read_result(table, ctx.process_id, direct_chain(ent.address), PLANTED_RECORD_LEN as nat) {
                ReadOutcome::NoProcess => Err(ResolveError::UnknownProcess),
                ReadOutcome::Fault => Err(ResolveError::InvalidAddress),
                ReadOutcome::Value(b) => {
                    let rec = planted_record_spec(b);
                    match planted_state_spec(table, ctx, rec) {
                        Ok(st) => Ok(
                            SnapshotAcc {
                                planted_c4: Some(
                                    RadarPlantedC4V {
                                        position: rec.position,
                                        bomb_site: rec.bomb_site,
                                        state: st,
                                    },
                                ),
                                ..acc
                            },
                        ),
                        Err(_) => Ok(acc),
                    }
                },
            }
        } else if code == CLASS_CARRIED_DEVICE {
            match read_result(table, ctx.process_id, direct_chain(ent.address), CARRIED_RECORD_LEN as nat) {
                ReadOutcome::NoProcess => Err(ResolveError::UnknownProcess),
                ReadOutcome::Fault => Err(ResolveError::InvalidAddress),
                ReadOutcome::Value(b) => {
                    let rec = carried_record_spec(b);
                    if rec.bomb_planted {
                        Ok(acc)
                    } else {
                        Ok(
                            SnapshotAcc {
                                c4_entities: acc.c4_entities.push(
                                    RadarC4 {
                                        entity_id: ent.entity_index,
                                        position: rec.position,
                                        owner_entity_id: if rec.owner_handle == INVALID_HANDLE {
                                            None
                                        } else {
                                            Some(rec.owner_handle)
                                        },
                                    },
                                ),
                                ..acc
                            },
                        )
                    }
                },
            }
        } else {
            Ok(acc)
        },
    }
}

/// Folds `snapshot_step` over the remaining entities, aborting on the first
/// frame-fatal failure.
pub open spec fn snapshot_fold(
    table: ProcessTable,
    ctx: GameContext,
    classes: Seq<ClassEntry>,
    ents: Seq<EntityIdentity>,
    acc: SnapshotAcc,
) -> Result<SnapshotAcc, ResolveError>
    decreases ents.len(),
{
    if ents.len() == 0 {
        Ok(acc)
    } else {
        match snapshot_step(table, ctx, classes, acc, ents[0]) {
            Err(e) => Err(e),
            Ok(acc2) => snapshot_fold(table, ctx, classes, ents.skip(1), acc2),
        }
    }
}

/// Law: one player entity's failed derivation does not abort the frame.
/// When the pawn kind fails for a player-pawn entity, that entity's snapshot
/// step leaves the accumulator exactly as it was, so sibling entities still
/// resolve into the frame.
pub proof fn lemma_failing_entity_is_skipped(
    table: ProcessTable,
    ctx: GameContext,
    classes: Seq<ClassEntry>,
    acc: SnapshotAcc,
    ent: EntityIdentity,
    e: ResolveError,
)
    requires
        find_class(classes, ent.class_info) == Some(CLASS_PLAYER_PAWN),
        player_info_spec(table, ctx, ent.entity_index) == Err::<
            Option<RadarPlayerInfoV>,
            ResolveError,
        >(e),
    ensures
        snapshot_step(table, ctx, classes, acc, ent) == Ok::<SnapshotAcc, ResolveError>(acc),
{
    reveal(snapshot_step);
}

/// The current map name, as resolving that kind yields it.
pub open spec fn map_name_spec(table: ProcessTable, ctx: GameContext) -> Result<
    Seq<u8>,
    ResolveError,
> {
    match resolve_spec(table, ctx, StateKind::CurrentMap, 0) {
        Err(e) => Err(e),
        Ok(v) => match v {
            StateValueV::MapName(n) => Ok(n),
            _ => Err(ResolveError::UnknownProcess),
        },
    }
}

/// The entity list, as resolving that kind yields it.
pub open spec fn entity_list_of_spec(table: ProcessTable, ctx: GameContext) -> Result<
    Seq<EntityIdentity>,
    ResolveError,
> {
    match resolve_spec(table, ctx, StateKind::EntitySystem, 0) {
        Err(e) => Err(e),
        Ok(v) => match v {
            StateValueV::Entities(e) => Ok(e),
            _ => Err(ResolveError::UnknownProcess),
        },
    }
}

/// The class table, as resolving that kind yields it.
pub open spec fn class_table_of_spec(table: ProcessTable, ctx: GameContext) -> Result<
    Seq<ClassEntry>,
    ResolveError,
> {
    match resolve_spec(table, ctx, StateKind::ClassNameCache, 0) {
        Err(e) => Err(e),
        Ok(v) => match v {
            StateValueV::ClassNames(c) => Ok(c),
            _ => Err(ResolveError::UnknownProcess),
        },
    }
}

/// What one whole frame yields: the foundational kinds (map, entities, class
/// names) must all resolve, then the snapshot is the fold of every entity
/// over the empty snapshot.
pub open spec fn generate_state_spec(table: ProcessTable, ctx: GameContext) -> Result<
    RadarStateV,
    ResolveError,
> {
    match map_name_spec(table, ctx) {
        Err(e) => Err(e),
        Ok(name) => match entity_list_of_spec(table, ctx) {
            Err(e) => Err(e),
            Ok(ents) => match class_table_of_spec(table, ctx) {
                Err(e) => Err(e),
                Ok(classes) => match snapshot_fold(
                    table,
                    ctx,
                    classes,
                    ents,
                    SnapshotAcc { players: Seq::empty(), planted_c4: None, c4_entities: Seq::empty() },
                ) {
                    Err(e) => Err(e),
                    Ok(acc) => Ok(
                        RadarStateV {
                            players: acc.players,
                            world_name: name,
                            planted_c4: acc.planted_c4,
                            c4_entities: acc.c4_entities,
                        },
                    ),
                },
            },
        },
    }
}

/// The radar snapshot generator: owns the state registry it resolves through.
pub struct CS2RadarGenerator {
    pub states: StateRegistry,
}

/// `Ok` carries the state's mathematical image; errors pass through.
pub open spec fn planted_result_view(r: Result<PlantedC4State, ResolveError>) -> Result<
    PlantedC4StateV,
    ResolveError,
> {
    match r {
        Ok(v) => Ok(v@),
        Err(e) => Err(e),
    }
}

/// Derives the planted device's lifecycle state from its record, the engine
/// clock, and — while it is being defused — the defuser's live pawn.
pub fn planted_c4_to_radar_state(
    generator: &mut CS2RadarGenerator,
    table: &ProcessTable,
    ctx: &GameContext,
    planted_c4: &PlantedDeviceRecord,
) -> (r: Result<PlantedC4State, ResolveError>)
    requires
        old(generator).states.wf(),
        table.wf(),
        old(generator).states.coherent(*table, *ctx),
    ensures
        final(generator).states.wf(),
        final(generator).states.coherent(*table, *ctx),
        final(generator).states.epoch == old(generator).states.epoch,
        planted_result_view(r) == planted_state_spec(*table, *ctx, *planted_c4),
{
    proof {
        reveal(resolve_spec);
    }
    if planted_c4.bomb_defused {
        return Ok(PlantedC4State::Defused);
    }
    let globals = match generator.states.resolve(table, ctx, StateKind::Globals, 0) {
        Err(e) => {
            return Err(e);
        },
        Ok(StateValue::Globals(g)) => g,
        Ok(_) => {
            // Unreachable: a coherent resolve of the globals kind yields its
            // own variant.
            proof {
                assert(false);
            }
            return Err(ResolveError::UnknownProcess);
        },
    };
    let time = globals.time;
    if planted_c4.time_blow as u64 <= time {
        return Ok(PlantedC4State::Detonated);
    }
    let defuser: Option<BombDefuser> = if planted_c4.being_defused {
        match generator.states.resolve(table, ctx, StateKind::PlayerPawn, planted_c4.defuser_handle)
        {
            Err(e) => {
                return Err(e);
            },
            Ok(StateValue::Pawn(PlayerPawnState::Alive(info))) => Some(
                BombDefuser {
                    time_remaining: planted_c4.defuse_countdown as i64 - time as i64,
                    time_total: planted_c4.defuse_length,
                    player_name: info.player_name,
                },
            ),
            Ok(StateValue::Pawn(PlayerPawnState::Dead)) => {
                return Err(ResolveError::MissingDefuser);
            },
            Ok(_) => {
                // Unreachable: a coherent resolve of a pawn kind yields its
                // own variant.
                proof {
                    assert(false);
                }
                return Err(ResolveError::MissingDefuser);
            },
        }
    } else {
        None
    };
    Ok(
        PlantedC4State::Active {
            time_detonation: planted_c4.time_blow as i64 - time as i64,
            time_total: planted_c4.timer_length,
            defuser,
        },
    )
}

/// `Ok` carries the optional info's mathematical image; errors pass through.
pub open spec fn player_info_result_view(r: Result<Option<RadarPlayerInfo>, ResolveError>)
    -> Result<Option<RadarPlayerInfoV>, ResolveError> {
    match r {
        Ok(Some(i)) => Ok(Some(i@)),
        Ok(None) => Ok(None),
        Err(e) => Err(e),
    }
}

impl CS2RadarGenerator {
    /// Builds a generator around the registry it will resolve through.
    pub fn new(states: StateRegistry) -> (r: Result<CS2RadarGenerator, ResolveError>)
        ensures
            r matches Ok(g) && g.states == states,
    {
        Ok(CS2RadarGenerator { states })
    }

    /// Resolves one pawn and converts a live one to its radar record;
    /// a pawn that is not alive yields `None`.
    pub fn generate_player_info(
        &mut self,
        table: &ProcessTable,
        ctx: &GameContext,
        player_pawn: &EntityIdentity,
    ) -> (r: Result<Option<RadarPlayerInfo>, ResolveError>)
        requires
            old(self).states.wf(),
            table.wf(),
            old(self).states.coherent(*table, *ctx),
        ensures
            final(self).states.wf(),
            final(self).states.coherent(*table, *ctx),
            final(self).states.epoch == old(self).states.epoch,
            player_info_result_view(r) == player_info_spec(*table, *ctx, player_pawn.entity_index),
    {
        proof {
            reveal(resolve_spec);
        }
        match self.states.resolve(table, ctx, StateKind::PlayerPawn, player_pawn.entity_index) {
            Err(e) => Err(e),
            Ok(StateValue::Pawn(p)) => match p {
                PlayerPawnState::Alive(info) => Ok(
                    Some(
                        RadarPlayerInfo {
                            controller_entity_id: info.controller_entity_id,
                            pawn_entity_id: info.pawn_entity_id,
                            player_name: info.player_name,
                            player_flashtime: info.player_flashtime,
                            player_has_defuser: info.player_has_defuser,
                            player_health: info.player_health,
                            position: info.position,
                            rotation: info.rotation,
                            team_id: info.team_id,
                            weapon: info.weapon,
                        },
                    ),
                ),
                PlayerPawnState::Dead => Ok(None),
            },
            Ok(_) => {
                // Unreachable: a coherent resolve of a pawn kind yields its
                // own variant.
                proof {
                    assert(false);
                }
                Ok(None)
            },
        }
    }

    /// Generates one frame: advances the epoch, resolves the foundational
    /// kinds, and folds every entity into the snapshot. One entity's
    /// derivation failure skips that entity; a foundational failure or an
    /// unreadable entity record aborts the frame.
    #[verifier::rlimit(100)]
    pub fn generate_state(&mut self, table: &ProcessTable, ctx: &GameContext) -> (r: Result<
        RadarState,
        ResolveError,
    >)
        requires
            old(self).states.wf(),
            table.wf(),
            old(self).states.epoch < u64::MAX,
        ensures
            final(self).states.wf(),
            match r {
                Ok(st) => generate_state_spec(*table, *ctx) == Ok::<RadarStateV, ResolveError>(st@),
                Err(e) => generate_state_spec(*table, *ctx) == Err::<RadarStateV, ResolveError>(e),
            },
    {
        self.states.invalidate();

        let world_name = match self.states.resolve(table, ctx, StateKind::CurrentMap, 0) {
            Err(e) => {
                return Err(e);
            },
            Ok(StateValue::MapName(n)) => n,
            Ok(_) => {
                proof {
                    reveal(resolve_spec);
                    assert(false);
                }
                return Err(ResolveError::UnknownProcess);
            },
        };
        let entities = match self.states.resolve(table, ctx, StateKind::EntitySystem, 0) {
            Err(e) => {
                return Err(e);
            },
            Ok(StateValue::Entities(ents)) => ents,
            Ok(_) => {
                proof {
                    reveal(resolve_spec);
                    assert(false);
                }
                return Err(ResolveError::UnknownProcess);
            },
        };
        let class_names = match self.states.resolve(table, ctx, StateKind::ClassNameCache, 0) {
            Err(e) => {
                return Err(e);
            },
            Ok(StateValue::ClassNames(c)) => c,
            Ok(_) => {
                proof {
                    reveal(resolve_spec);
                    assert(false);
                }
                return Err(ResolveError::UnknownProcess);
            },
        };

        proof {
            assert(map_name_spec(*table, *ctx) == Ok::<Seq<u8>, ResolveError>(world_name@));
            assert(entity_list_of_spec(*table, *ctx) == Ok::<Seq<EntityIdentity>, ResolveError>(
                entities@,
            ));
            assert(class_table_of_spec(*table, *ctx) == Ok::<Seq<ClassEntry>, ResolveError>(
                class_names@,
            ));
        }

        let ghost acc0 = SnapshotAcc {
            players: Seq::empty(),
            planted_c4: None,
            c4_entities: Seq::empty(),
        };
        let mut players: Vec<RadarPlayerInfo> = Vec::new();
        let mut planted_c4: Option<RadarPlantedC4> = None;
        let mut c4_entities: Vec<RadarC4> = Vec::new();
        proof {
            assert(entities@.skip(0) =~= entities@);
            assert(players_view(players@) =~= acc0.players);
        }

        let mut i: usize = 0;
        while i < entities.len()
            invariant
                0 <= i <= entities@.len(),
                self.states.wf(),
                table.wf(),
                self.states.coherent(*table, *ctx),
                map_name_spec(*table, *ctx) == Ok::<Seq<u8>, ResolveError>(world_name@),
                entity_list_of_spec(*table, *ctx) == Ok::<Seq<EntityIdentity>, ResolveError>(
                    entities@,
                ),
                class_table_of_spec(*table, *ctx) == Ok::<Seq<ClassEntry>, ResolveError>(
                    class_names@,
                ),
                acc0 == (SnapshotAcc {
                    players: Seq::<RadarPlayerInfoV>::empty(),
                    planted_c4: None,
                    c4_entities: Seq::<RadarC4>::empty(),
                }),
                snapshot_fold(
                    *table,
                    *ctx,
                    class_names@,
                    entities@.skip(i as int),
                    SnapshotAcc {
                        players: players_view(players@),
                        planted_c4: planted_view(planted_c4),
                        c4_entities: c4_entities@,
                    },
                ) == snapshot_fold(*table, *ctx, class_names@, entities@, acc0),
            decreases entities@.len() - i,
        {
            let ghost acc_pre = SnapshotAcc {
                players: players_view(players@),
                planted_c4: planted_view(planted_c4),
                c4_entities: c4_entities@,
            };
            let ent = entities[i];
            proof {
                assert(entities@.skip(i as int)[0] == ent);
            }
            match self.apply_entity(
                table,
                ctx,
                &class_names,
                &ent,
                &mut players,
                &mut planted_c4,
                &mut c4_entities,
            ) {
                Err(e) => {
                    proof {
                        assert(snapshot_fold(
                            *table,
                            *ctx,
                            class_names@,
                            entities@.skip(i as int),
                            acc_pre,
                        ) == Err::<SnapshotAcc, ResolveError>(e));
                        assert(snapshot_fold(*table, *ctx, class_names@, entities@, acc0)
                            == Err::<SnapshotAcc, ResolveError>(e));
                        assert(generate_state_spec(*table, *ctx) == Err::<
                            RadarStateV,
                            ResolveError,
                        >(e));
                    }
                    return Err(e);
                },
                Ok(_) => {},
            }
            proof {
                assert(entities@.skip(i as int).skip(1) =~= entities@.skip(i as int + 1));
            }
            i += 1;
        }

        proof {
            assert(entities@.skip(entities@.len() as int) =~= Seq::<EntityIdentity>::empty());
        }
        let result = RadarState { players, world_name, planted_c4, c4_entities };
        Ok(result)
    }

    /// Folds one entity into the snapshot parts, resolving what its class
    /// calls for. A failure while deriving the entity's state leaves the
    /// parts as they were; an unreadable entity record is the error returned.
    fn apply_entity(
        &mut self,
        table: &ProcessTable,
        ctx: &GameContext,
        class_names: &Vec<ClassEntry>,
        ent: &EntityIdentity,
        players: &mut Vec<RadarPlayerInfo>,
        planted_c4: &mut Option<RadarPlantedC4>,
        c4_entities: &mut Vec<RadarC4>,
    ) -> (r: Result<(), ResolveError>)
        requires
            old(self).states.wf(),
            table.wf(),
            old(self).states.coherent(*table, *ctx),
        ensures
            final(self).states.wf(),
            final(self).states.coherent(*table, *ctx),
            final(self).states.epoch == old(self).states.epoch,
            match r {
                Ok(_) => snapshot_step(
                    *table,
                    *ctx,
                    class_names@,
                    SnapshotAcc {
                        players: players_view(old(players)@),
                        planted_c4: planted_view(*old(planted_c4)),
                        c4_entities: old(c4_entities)@,
                    },
                    *ent,
                ) == Ok::<SnapshotAcc, ResolveError>(
                    SnapshotAcc {
                        players: players_view(final(players)@),
                        planted_c4: planted_view(*final(planted_c4)),
                        c4_entities: final(c4_entities)@,
                    },
                ),
                Err(e) => snapshot_step(
                    *table,
                    *ctx,
                    class_names@,
                    SnapshotAcc {
                        players: players_view(old(players)@),
                        planted_c4: planted_view(*old(planted_c4)),
                        c4_entities: old(c4_entities)@,
                    },
                    *ent,
                ) == Err::<SnapshotAcc, ResolveError>(e),
            },
    {
        proof {
            reveal(snapshot_step);
        }
        let ghost acc_pre = SnapshotAcc {
            players: players_view(players@),
            planted_c4: planted_view(*planted_c4),
            c4_entities: c4_entities@,
        };
        match lookup_class(class_names, ent.class_info) {
            None => {
                // Unknown entity class: skipped.
            },
            Some(code) => {
                if code == CLASS_PLAYER_PAWN {
                    match self.generate_player_info(table, ctx, ent) {
                        Ok(Some(info)) => {
                            players.push(info);
                            proof {
                                assert(players_view(players@) =~= acc_pre.players.push(
                                    players@[players@.len() - 1]@,
                                ));
                            }
                        },
                        Ok(None) => {},
                        Err(_) => {
                            // One failing entity must not abort the frame.
                        },
                    }
                } else if code == CLASS_PLANTED_DEVICE {
                    let mut offs: Vec<i64> = Vec::new();
                    offs.push(ent.address as i64);
                    proof {
                        assert(offs@ =~= direct_chain(ent.address));
                    }
                    match read_chain(table, ctx.process_id, offs, PLANTED_RECORD_LEN) {
                        Err(e) => {
                            return Err(e);
                        },
                        Ok(b) => {
                            let rec = parse_planted_record(&b);
                            match planted_c4_to_radar_state(self, table, ctx, &rec) {
                                Ok(state) => {
                                    *planted_c4 = Some(
                                        RadarPlantedC4 {
                                            position: rec.position,
                                            bomb_site: rec.bomb_site,
                                            state,
                                        },
                                    );
                                },
                                Err(_) => {
                                    // Device-state failure: only this
                                    // device is dropped from the frame.
                                },
                            }
                        },
                    }
                } else if code == CLASS_CARRIED_DEVICE {
                    let mut offs: Vec<i64> = Vec::new();
                    offs.push(ent.address as i64);
                    proof {
                        assert(offs@ =~= direct_chain(ent.address));
                    }
                    match read_chain(table, ctx.process_id, offs, CARRIED_RECORD_LEN) {
                        Err(e) => {
                            return Err(e);
                        },
                        Ok(b) => {
                            let rec = parse_carried_record(&b);
                            if !rec.bomb_planted {
                                c4_entities.push(
                                    RadarC4 {
                                        entity_id: ent.entity_index,
                                        position: rec.position,
                                        owner_entity_id: if rec.owner_handle == INVALID_HANDLE {
                                            None
                                        } else {
                                            Some(rec.owner_handle)
                                        },
                                    },
                                );
                            }
                        },
                    }
                }
            },
        }
        Ok(())
    }
}

} // verus!

//! The typed lazy state cache: a registry mapping a state kind (plus an
//! optional per-kind key) to a lazily computed, memoized value.
//!
//! Within one invalidation epoch every (kind, key) slot is computed at most
//! once: a fresh slot is returned as-is and never recomputed, and a resolve
//! that does compute bumps the slot's generation counter by exactly one.
//! `invalidate` bumps the epoch in O(1); storage is kept and recomputed
//! lazily. Failed resolutions are never cached, so the next epoch retries.
//!
//! What each kind resolves to is pinned by [`resolve_spec`], a mathematical
//! function of the target's memory alone; [`StateRegistry::coherent`] says
//! every fresh slot agrees with it, and `resolve` preserves that.

use vstd::prelude::*;

use crate::bytes::{nul_prefix, take_until_nul, u32_le_spec, u64_le_at, u64_le_spec, u32_le_at};
use crate::game::{
    entity_list_spec, class_table_spec, find_entity, lookup_entity, parse_entity_list,
    parse_class_table, parse_pawn_record, pawn_record_spec, ClassEntry, EntityIdentity,
    GameContext, GlobalsState, PlayerPawnState, PlayerPawnStateV, CLASS_RECORD_LEN,
    ENTITY_RECORD_LEN, MAP_NAME_LEN, MAX_ENTITIES, PAWN_RECORD_LEN,
};
use crate::memory::{
    handler_read, read_ok, read_value, ProcessTable, ReadRequest, ReadResponse, MAX_HOPS,
};

verus! {

/// A category of derived, cacheable information. `PlayerPawn` is keyed by an
/// entity index; the other kinds ignore their key.
#[derive(Clone, Copy, PartialEq, Eq, Structural, Debug)]
pub enum StateKind {
    Globals,
    EntitySystem,
    ClassNameCache,
    CurrentMap,
    PlayerPawn,
}

/// Dependency rank of a kind: a kind's resolver only ever resolves kinds of
/// strictly lower rank, so resolution terminates and never re-enters a slot.
pub open spec fn rank_of(kind: StateKind) -> int {
    match kind {
        StateKind::PlayerPawn => 1,
        _ => 0,
    }
}

/// A resolved state value; the variant matches the kind it was resolved for.
#[derive(Debug)]
pub enum StateValue {
    Globals(GlobalsState),
    Entities(Vec<EntityIdentity>),
    ClassNames(Vec<ClassEntry>),
    MapName(Vec<u8>),
    Pawn(PlayerPawnState),
}

/// Mathematical image of [`StateValue`].
pub enum StateValueV {
    Globals(GlobalsState),
    Entities(Seq<EntityIdentity>),
    ClassNames(Seq<ClassEntry>),
    MapName(Seq<u8>),
    Pawn(PlayerPawnStateV),
}

impl View for StateValue {
    type V = StateValueV;

    open spec fn view(&self) -> StateValueV {
        match self {
            StateValue::Globals(g) => StateValueV::Globals(*g),
            StateValue::Entities(v) => StateValueV::Entities(v@),
            StateValue::ClassNames(v) => StateValueV::ClassNames(v@),
            StateValue::MapName(v) => StateValueV::MapName(v@),
            StateValue::Pawn(p) => StateValueV::Pawn(p@),
        }
    }
}

/// Why a resolution failed. Failures are typed, never cached, and propagate
/// to whoever asked.
#[derive(Clone, Copy, PartialEq, Eq, Structural, Debug)]
pub enum ResolveError {
    /// The target process is gone: no data this cycle, not an error to surface.
    UnknownProcess,
    /// A remote read walked through an unmapped address.
    InvalidAddress,
    /// A table in target memory claims more rows than the resolver accepts.
    TooManyEntities,
    /// A keyed resolution named an entity index the entity list does not hold.
    EntityNotFound,
    /// A device claims a defuser, but the named pawn is not alive.
    MissingDefuser,
}

/// Copies a vector of plain values, element for element.
fn copy_vec<T: Copy>(v: &Vec<T>) -> (r: Vec<T>)
    ensures
        r@ == v@,
{
    let mut out: Vec<T> = Vec::new();
    let mut i: usize = 0;
    while i < v.len()
        invariant
            0 <= i <= v@.len(),
            out@ == v@.take(i as int),
        decreases v@.len() - i,
    {
        out.push(v[i]);
        i += 1;
        proof {
            assert(out@ =~= v@.take(i as int));
        }
    }
    proof {
        assert(v@.take(v@.len() as int) =~= v@);
    }
    out
}

impl PlayerPawnState {
    /// A copy with the same mathematical value.
    pub fn duplicate(&self) -> (r: PlayerPawnState)
        ensures
            r@ == self@,
    {
        match self {
            PlayerPawnState::Dead => PlayerPawnState::Dead,
            PlayerPawnState::Alive(info) => PlayerPawnState::Alive(
                crate::game::PlayerPawnInfo {
                    controller_entity_id: info.controller_entity_id,
                    pawn_entity_id: info.pawn_entity_id,
                    player_name: copy_vec(&info.player_name),
                    player_flashtime: info.player_flashtime,
                    player_has_defuser: info.player_has_defuser,
                    player_health: info.player_health,
                    position: info.position,
                    rotation: info.rotation,
                    team_id: info.team_id,
                    weapon: info.weapon,
                },
            ),
        }
    }
}

impl StateValue {
    /// A copy with the same mathematical value.
    pub fn duplicate(&self) -> (r: StateValue)
        ensures
            r@ == self@,
    {
        match self {
            StateValue::Globals(g) => StateValue::Globals(*g),
            StateValue::Entities(v) => StateValue::Entities(copy_vec(v)),
            StateValue::ClassNames(v) => StateValue::ClassNames(copy_vec(v)),
            StateValue::MapName(v) => StateValue::MapName(copy_vec(v)),
            StateValue::Pawn(p) => StateValue::Pawn(p.duplicate()),
        }
    }
}

/// `Ok` carries the value's mathematical image; errors pass through.
pub open spec fn result_view(r: Result<StateValue, ResolveError>) -> Result<
    StateValueV,
    ResolveError,
> {
    match r {
        Ok(v) => Ok(v@),
        Err(e) => Err(e),
    }
}

/// What one remote read of `count` bytes through the offset chain yields:
/// the bytes, a fault, or an unresolvable process.
pub enum ReadOutcome {
    Value(Seq<u8>),
    Fault,
    NoProcess,
}

/// The protocol's answer as a mathematical function of the target's memory.
#[verifier::opaque]
pub open spec fn read_result(table: ProcessTable, pid: u32, offsets: Seq<i64>, count: nat)
    -> ReadOutcome {
    if !table.has_pid(pid) {
        ReadOutcome::NoProcess
    } else if read_ok(table.memory_of(pid), offsets, count) {
        ReadOutcome::Value(read_value(table.memory_of(pid), offsets, count))
    } else {
        ReadOutcome::Fault
    }
}

/// Issues one read through the protocol handler and converts the response
/// into a typed resolution outcome.
pub(crate) fn read_chain(table: &ProcessTable, process_id: u32, offsets: Vec<i64>, count: usize) -> (r: Result<
    Vec<u8>,
    ResolveError,
>)
    requires
        table.wf(),
        1 <= offsets@.len() <= MAX_HOPS,
    ensures
        match r {
            Ok(v) => v@.len() == count && read_result(*table, process_id, offsets@, count as nat)
                == ReadOutcome::Value(v@),
            Err(e) => {
                ||| (e == ResolveError::UnknownProcess && read_result(
                    *table,
                    process_id,
                    offsets@,
                    count as nat,
                ) is NoProcess)
                ||| (e == ResolveError::InvalidAddress && read_result(
                    *table,
                    process_id,
                    offsets@,
                    count as nat,
                ) is Fault)
            },
        },
{
    proof {
        reveal(read_result);
    }
    let ghost o = offsets@;
    let offset_count = offsets.len();
    let req = ReadRequest { process_id, offsets, offset_count, count };
    let mut res = ReadResponse::UnknownProcess;
    let out = handler_read(table, &req, &mut res);
    proof {
        assert(req.valid());
        assert(req.chain() =~= o);
    }
    match out {
        Err(_) => {
            // Unreachable: the request is valid by construction.
            proof {
                assert(false);
            }
            Err(ResolveError::InvalidAddress)
        },
        Ok(_) => match res {
            ReadResponse::Success { data } => Ok(data),
            ReadResponse::UnknownProcess => Err(ResolveError::UnknownProcess),
            ReadResponse::InvalidAddress { .. } => Err(ResolveError::InvalidAddress),
        },
    }
}

/// The chain that reads `len` bytes directly at an absolute address.
pub open spec fn direct_chain(addr: u64) -> Seq<i64> {
    seq![addr as i64]
}

/// The chain that dereferences the pointer stored at `slot` and reads at the
/// address it points to.
pub open spec fn pointer_chain(slot: u64) -> Seq<i64> {
    seq![slot as i64, 0]
}

/// What resolving the engine globals yields.
pub open spec fn globals_spec(table: ProcessTable, ctx: GameContext) -> Result<
    StateValueV,
    ResolveError,
> {
    match read_result(table, ctx.process_id, direct_chain(ctx.globals_address), 8) {
        ReadOutcome::NoProcess => Err(ResolveError::UnknownProcess),
        ReadOutcome::Fault => Err(ResolveError::InvalidAddress),
        ReadOutcome::Value(b) => Ok(StateValueV::Globals(GlobalsState { time: u64_le_spec(b) })),
    }
}

/// What resolving the current map name yields: the NUL-terminated prefix of
/// the name field.
pub open spec fn map_spec(table: ProcessTable, ctx: GameContext) -> Result<
    StateValueV,
    ResolveError,
> {
    match read_result(table, ctx.process_id, direct_chain(ctx.map_name_address), MAP_NAME_LEN as nat) {
        ReadOutcome::NoProcess => Err(ResolveError::UnknownProcess),
        ReadOutcome::Fault => Err(ResolveError::InvalidAddress),
        ReadOutcome::Value(b) => Ok(StateValueV::MapName(nul_prefix(b))),
    }
}

/// What resolving the entity system yields: the header at the list address
/// gives a row count and a pointer to the packed identity array, which is
/// then read through one pointer hop.
pub open spec fn entities_spec(table: ProcessTable, ctx: GameContext) -> Result<
    StateValueV,
    ResolveError,
> {
    match read_result(table, ctx.process_id, direct_chain(ctx.entity_list_address), 16) {
        ReadOutcome::NoProcess => Err(ResolveError::UnknownProcess),
        ReadOutcome::Fault => Err(ResolveError::InvalidAddress),
        ReadOutcome::Value(h) => {
            let n = u32_le_spec(h.subrange(0, 4));
            if n as usize > MAX_ENTITIES {
                Err(ResolveError::TooManyEntities)
            } else {
                match read_result(
                    table,
                    ctx.process_id,
                    pointer_chain(ctx.entity_list_address.wrapping_add(8)),
                    n as nat * ENTITY_RECORD_LEN as nat,
                ) {
                    ReadOutcome::NoProcess => Err(ResolveError::UnknownProcess),
                    ReadOutcome::Fault => Err(ResolveError::InvalidAddress),
                    ReadOutcome::Value(d) => Ok(
                        StateValueV::Entities(entity_list_spec(d, n as int)),
                    ),
                }
            }
        },
    }
}

/// What resolving the class name cache yields, with the same header shape as
/// the entity system.
pub open spec fn classes_spec(table: ProcessTable, ctx: GameContext) -> Result<
    StateValueV,
    ResolveError,
> {
    match read_result(table, ctx.process_id, direct_chain(ctx.class_table_address), 16) {
        ReadOutcome::NoProcess => Err(ResolveError::UnknownProcess),
        ReadOutcome::Fault => Err(ResolveError::InvalidAddress),
        ReadOutcome::Value(h) => {
            let n = u32_le_spec(h.subrange(0, 4));
            if n as usize > MAX_ENTITIES {
                Err(ResolveError::TooManyEntities)
            } else {
                match read_result(
                    table,
                    ctx.process_id,
                    pointer_chain(ctx.class_table_address.wrapping_add(8)),
                    n as nat * CLASS_RECORD_LEN as nat,
                ) {
                    ReadOutcome::NoProcess => Err(ResolveError::UnknownProcess),
                    ReadOutcome::Fault => Err(ResolveError::InvalidAddress),
                    ReadOutcome::Value(d) => Ok(
                        StateValueV::ClassNames(class_table_spec(d, n as int)),
                    ),
                }
            }
        },
    }
}

/// What resolving a player pawn yields once the entity list is known: the
/// pawn record read at the address of the entity with the requested index.
pub open spec fn pawn_tail_spec(
    table: ProcessTable,
    ctx: GameContext,
    ents: Seq<EntityIdentity>,
    key: u32,
) -> Result<StateValueV, ResolveError> {
    match find_entity(ents, key) {
        None => Err(ResolveError::EntityNotFound),
        Some(ent) => match read_result(
            table,
            ctx.process_id,
            direct_chain(ent.address),
            PAWN_RECORD_LEN as nat,
        ) {
            ReadOutcome::NoProcess => Err(ResolveError::UnknownProcess),
            ReadOutcome::Fault => Err(ResolveError::InvalidAddress),
            ReadOutcome::Value(b) => Ok(StateValueV::Pawn(pawn_record_spec(b, key))),
        },
    }
}

/// What a resolution of (kind, key) must yield: a mathematical function of
/// the target's memory alone. A keyed kind resolves its dependencies first
/// and fails if any of them fails.
#[verifier::opaque]
pub open spec fn resolve_spec(table: ProcessTable, ctx: GameContext, kind: StateKind, key: u32)
    -> Result<StateValueV, ResolveError>
    decreases rank_of(kind),
{
    match kind {
        StateKind::Globals => globals_spec(table, ctx),
        StateKind::CurrentMap => map_spec(table, ctx),
        StateKind::EntitySystem => entities_spec(table, ctx),
        StateKind::ClassNameCache => classes_spec(table, ctx),
        StateKind::PlayerPawn => match resolve_spec(table, ctx, StateKind::EntitySystem, 0) {
            Err(e) => Err(e),
            Ok(v) => match v {
                StateValueV::Entities(ents) => pawn_tail_spec(table, ctx, ents, key),
                _ => Err(ResolveError::EntityNotFound),
            },
        },
    }
}
/// Resolves the engine globals: one direct read of the clock record.
fn compute_globals(table: &ProcessTable, ctx: &GameContext) -> (r: Result<StateValue, ResolveError>)
    requires
        table.wf(),
    ensures
        result_view(r) == globals_spec(*table, *ctx),
{
    let mut offs: Vec<i64> = Vec::new();
    offs.push(ctx.globals_address as i64);
    proof {
        assert(offs@ =~= direct_chain(ctx.globals_address));
    }
    match read_chain(table, ctx.process_id, offs, 8) {
        Err(e) => Err(e),
        Ok(v) => {
            let t = u64_le_at(&v, 0);
            proof {
                assert(v@.subrange(0, 8) =~= v@);
            }
            Ok(StateValue::Globals(GlobalsState { time: t }))
        },
    }
}

/// Resolves the current map name: one direct read of the name field,
/// truncated at its NUL terminator.
fn compute_map(table: &ProcessTable, ctx: &GameContext) -> (r: Result<StateValue, ResolveError>)
    requires
        table.wf(),
    ensures
        result_view(r) == map_spec(*table, *ctx),
{
    let mut offs: Vec<i64> = Vec::new();
    offs.push(ctx.map_name_address as i64);
    proof {
        assert(offs@ =~= direct_chain(ctx.map_name_address));
    }
    match read_chain(table, ctx.process_id, offs, MAP_NAME_LEN) {
        Err(e) => Err(e),
        Ok(v) => Ok(StateValue::MapName(take_until_nul(&v))),
    }
}

/// Resolves the entity system: the header names a row count and points at
/// the packed identity array, read through one pointer hop.
fn compute_entities(table: &ProcessTable, ctx: &GameContext) -> (r: Result<StateValue, ResolveError>)
    requires
        table.wf(),
    ensures
        result_view(r) == entities_spec(*table, *ctx),
{
    let mut offs: Vec<i64> = Vec::new();
    offs.push(ctx.entity_list_address as i64);
    proof {
        assert(offs@ =~= direct_chain(ctx.entity_list_address));
    }
    let header = match read_chain(table, ctx.process_id, offs, 16) {
        Ok(h) => h,
        Err(e) => {
            return Err(e);
        },
    };
    let n32 = u32_le_at(&header, 0);
    if n32 as usize > MAX_ENTITIES {
        return Err(ResolveError::TooManyEntities);
    }
    let n = n32 as usize;
    let mut offs2: Vec<i64> = Vec::new();
    offs2.push(ctx.entity_list_address.wrapping_add(8) as i64);
    offs2.push(0);
    proof {
        assert(offs2@ =~= pointer_chain(ctx.entity_list_address.wrapping_add(8)));
    }
    match read_chain(table, ctx.process_id, offs2, n * ENTITY_RECORD_LEN) {
        Err(e) => Err(e),
        Ok(d) => Ok(StateValue::Entities(parse_entity_list(&d, n))),
    }
}

/// Resolves the class name cache, laid out like the entity system header.
fn compute_classes(table: &ProcessTable, ctx: &GameContext) -> (r: Result<StateValue, ResolveError>)
    requires
        table.wf(),
    ensures
        result_view(r) == classes_spec(*table, *ctx),
{
    let mut offs: Vec<i64> = Vec::new();
    offs.push(ctx.class_table_address as i64);
    proof {
        assert(offs@ =~= direct_chain(ctx.class_table_address));
    }
    let header = match read_chain(table, ctx.process_id, offs, 16) {
        Ok(h) => h,
        Err(e) => {
            return Err(e);
        },
    };
    let n32 = u32_le_at(&header, 0);
    if n32 as usize > MAX_ENTITIES {
        return Err(ResolveError::TooManyEntities);
    }
    let n = n32 as usize;
    let mut offs2: Vec<i64> = Vec::new();
    offs2.push(ctx.class_table_address.wrapping_add(8) as i64);
    offs2.push(0);
    proof {
        assert(offs2@ =~= pointer_chain(ctx.class_table_address.wrapping_add(8)));
    }
    match read_chain(table, ctx.process_id, offs2, n * CLASS_RECORD_LEN) {
        Err(e) => Err(e),
        Ok(d) => Ok(StateValue::ClassNames(parse_class_table(&d, n))),
    }
}

/// Resolves a player pawn from an already-resolved entity list: the pawn
/// record is read at the address of the entity with the requested index.
fn compute_pawn(
    table: &ProcessTable,
    ctx: &GameContext,
    ents: &Vec<EntityIdentity>,
    key: u32,
) -> (r: Result<StateValue, ResolveError>)
    requires
        table.wf(),
    ensures
        result_view(r) == pawn_tail_spec(*table, *ctx, ents@, key),
{
    let ent = match lookup_entity(ents, key) {
        Some(e) => e,
        None => {
            return Err(ResolveError::EntityNotFound);
        },
    };
    let mut offs: Vec<i64> = Vec::new();
    offs.push(ent.address as i64);
    proof {
        assert(offs@ =~= direct_chain(ent.address));
    }
    match read_chain(table, ctx.process_id, offs, PAWN_RECORD_LEN) {
        Err(e) => Err(e),
        Ok(b) => Ok(StateValue::Pawn(parse_pawn_record(&b, key))),
    }
}

/// Law: a failure propagates up a dependency chain. When the entity system
/// fails to resolve, every pawn resolution fails with that same failure.
pub proof fn lemma_dependency_failure_propagates(
    table: ProcessTable,
    ctx: GameContext,
    key: u32,
    e: ResolveError,
)
    requires
        resolve_spec(table, ctx, StateKind::EntitySystem, 0) == Err::<StateValueV, ResolveError>(e),
    ensures
        resolve_spec(table, ctx, StateKind::PlayerPawn, key) == Err::<StateValueV, ResolveError>(e),
{
    reveal(resolve_spec);
}

/// One cached resolution: the slot's identity, its value, the epoch it was
/// computed in, and how many times this slot has been computed overall.
pub struct CacheEntry {
    pub kind: StateKind,
    pub key: u32,
    pub value: StateValue,
    pub epoch: u64,
    pub generation: u64,
}

/// The registry owning the cache storage and the epoch counter.
pub struct StateRegistry {
    pub epoch: u64,
    pub entries: Vec<CacheEntry>,
}

impl StateRegistry {
    /// Slots are unique per (kind, key); entries are never stamped ahead of
    /// the registry's epoch; generations start at 1 and a slot is computed at
    /// most once per epoch, so its generation never exceeds its epoch.
    pub open spec fn wf(&self) -> bool {
        &&& self.epoch >= 1
        &&& forall|i: int, j: int|
            0 <= i < j < self.entries@.len() ==> !((#[trigger] self.entries@[i]).kind == (
            #[trigger] self.entries@[j]).kind && self.entries@[i].key == self.entries@[j].key)
        &&& forall|i: int|
            0 <= i < self.entries@.len() ==> (#[trigger] self.entries@[i]).epoch <= self.epoch
        &&& forall|i: int|
            0 <= i < self.entries@.len() ==> 1 <= (#[trigger] self.entries@[i]).generation
                <= self.entries@[i].epoch
    }

    /// Some entry caches (kind, key).
    pub open spec fn has_slot(&self, kind: StateKind, key: u32) -> bool {
        exists|i: int|
            0 <= i < self.entries@.len() && (#[trigger] self.entries@[i]).kind == kind
                && self.entries@[i].key == key
    }

    /// Index of the entry caching (kind, key); unique under `wf`.
    pub open spec fn slot_index(&self, kind: StateKind, key: u32) -> int {
        choose|i: int|
            0 <= i < self.entries@.len() && (#[trigger] self.entries@[i]).kind == kind
                && self.entries@[i].key == key
    }

    /// The entry caching (kind, key), if any.
    pub open spec fn slot_opt(&self, kind: StateKind, key: u32) -> Option<CacheEntry> {
        if self.has_slot(kind, key) {
            Some(self.entries@[self.slot_index(kind, key)])
        } else {
            None
        }
    }

    /// The slot exists and was computed in the current epoch, so a resolve
    /// returns it without recomputation.
    pub open spec fn is_fresh(&self, kind: StateKind, key: u32) -> bool {
        match self.slot_opt(kind, key) {
            Some(e) => e.epoch == self.epoch,
            None => false,
        }
    }

    /// How many times the slot has ever been computed.
    pub open spec fn gen_of(&self, kind: StateKind, key: u32) -> int {
        match self.slot_opt(kind, key) {
            Some(e) => e.generation as int,
            None => 0,
        }
    }

    /// The slot for (kind, key), if fresh, agrees with the kind's
    /// mathematical resolution against this target.
    pub open spec fn slot_matches(
        &self,
        table: ProcessTable,
        ctx: GameContext,
        kind: StateKind,
        key: u32,
    ) -> bool {
        match self.slot_opt(kind, key) {
            Some(e) => e.epoch == self.epoch ==> resolve_spec(table, ctx, kind, key) == Ok::<
                StateValueV,
                ResolveError,
            >(e.value@),
            None => true,
        }
    }

    /// Every fresh slot agrees with its kind's mathematical resolution. Holds
    /// vacuously right after `invalidate`, and `resolve` preserves it for a
    /// fixed target.
    pub open spec fn coherent(&self, table: ProcessTable, ctx: GameContext) -> bool {
        forall|kind: StateKind, key: u32| #[trigger] self.slot_matches(table, ctx, kind, key)
    }

    /// A fresh registry: epoch 1, nothing cached.
    pub fn new() -> (r: StateRegistry)
        ensures
            r.wf(),
            r.epoch == 1,
            forall|kind: StateKind, key: u32| !r.has_slot(kind, key),
            forall|kind: StateKind, key: u32| #[trigger] r.gen_of(kind, key) == 0,
            forall|table: ProcessTable, ctx: GameContext| #[trigger] r.coherent(table, ctx),
    {
        let r = StateRegistry { epoch: 1, entries: Vec::new() };
        proof {
            assert forall|table: ProcessTable, ctx: GameContext| #[trigger] r.coherent(table, ctx) by {
                assert forall|kind: StateKind, key: u32| #[trigger] r.slot_matches(
                    table,
                    ctx,
                    kind,
                    key,
                ) by {
                    assert(!r.has_slot(kind, key));
                }
            }
        }
        r
    }

    /// Advances the epoch. O(1): storage is untouched, every slot becomes
    /// logically stale, and the next resolve of any slot recomputes it.
    pub fn invalidate(&mut self)
        requires
            old(self).wf(),
            old(self).epoch < u64::MAX,
        ensures
            final(self).wf(),
            final(self).epoch == old(self).epoch + 1,
            final(self).entries == old(self).entries,
            forall|kind: StateKind, key: u32| #[trigger] final(self).slot_opt(kind, key) == old(
                self,
            ).slot_opt(kind, key),
            forall|kind: StateKind, key: u32| !(#[trigger] final(self).is_fresh(kind, key)),
            forall|kind: StateKind, key: u32| #[trigger] final(self).gen_of(kind, key) == old(
                self,
            ).gen_of(kind, key),
            forall|table: ProcessTable, ctx: GameContext| #[trigger] final(self).coherent(
                table,
                ctx,
            ),
    {
        self.epoch = self.epoch + 1;
        proof {
            let post = *self;
            let pre = *old(self);
            assert forall|kind: StateKind, key: u32| #[trigger] post.slot_opt(kind, key)
                == pre.slot_opt(kind, key) by {
                assert(post.has_slot(kind, key) == pre.has_slot(kind, key));
            }
            assert forall|table: ProcessTable, ctx: GameContext| #[trigger] post.coherent(
                table,
                ctx,
            ) by {
                assert forall|kind: StateKind, key: u32| #[trigger] post.slot_matches(
                    table,
                    ctx,
                    kind,
                    key,
                ) by {
                    assert(!post.is_fresh(kind, key));
                }
            }
        }
    }

    /// The current epoch counter.
    pub fn current_epoch(&self) -> (r: u64)
        ensures
            r == self.epoch,
    {
        self.epoch
    }

    /// How many times the slot has been computed; a test hook for the
    /// at-most-once-per-epoch guarantee.
    pub fn generation_of(&self, kind: StateKind, key: u32) -> (r: u64)
        requires
            self.wf(),
        ensures
            r as int == self.gen_of(kind, key),
    {
        match self.find_slot(kind, key) {
            Some(i) => self.entries[i].generation,
            None => 0,
        }
    }

    /// An entry at a matching index is the slot.
    proof fn lemma_slot_at(&self, kind: StateKind, key: u32, i: int)
        requires
            self.wf(),
            0 <= i < self.entries@.len(),
            self.entries@[i].kind == kind,
            self.entries@[i].key == key,
        ensures
            self.has_slot(kind, key),
            self.slot_index(kind, key) == i,
            self.slot_opt(kind, key) == Some(self.entries@[i]),
    {
        assert(self.has_slot(kind, key));
        let j = self.slot_index(kind, key);
        if i != j {
            if i < j {
                assert(!(self.entries@[i].kind == self.entries@[j].kind && self.entries@[i].key
                    == self.entries@[j].key));
            } else {
                assert(!(self.entries@[j].kind == self.entries@[i].kind && self.entries@[j].key
                    == self.entries@[i].key));
            }
        }
    }

    /// Scans the storage for the slot of (kind, key).
    fn find_slot(&self, kind: StateKind, key: u32) -> (r: Option<usize>)
        requires
            self.wf(),
        ensures
            match r {
                Some(i) => 0 <= i < self.entries@.len() && self.slot_opt(kind, key) == Some(
                    self.entries@[i as int],
                ) && self.entries@[i as int].kind == kind && self.entries@[i as int].key == key,
                None => self.slot_opt(kind, key) is None,
            },
    {
        let mut i: usize = 0;
        while i < self.entries.len()
            invariant
                0 <= i <= self.entries@.len(),
                self.wf(),
                forall|j: int|
                    0 <= j < i ==> !((#[trigger] self.entries@[j]).kind == kind
                        && self.entries@[j].key == key),
            decreases self.entries@.len() - i,
        {
            if self.entries[i].kind == kind && self.entries[i].key == key {
                proof {
                    self.lemma_slot_at(kind, key, i as int);
                }
                return Some(i);
            }
            i += 1;
        }
        proof {
            assert(!self.has_slot(kind, key));
        }
        None
    }

    /// Stores a computed value for a non-fresh slot: the slot becomes fresh,
    /// its generation moves up by exactly one, and no other slot changes.
    fn store(&mut self, kind: StateKind, key: u32, value: StateValue)
        requires
            old(self).wf(),
            !old(self).is_fresh(kind, key),
        ensures
            final(self).wf(),
            final(self).epoch == old(self).epoch,
            final(self).is_fresh(kind, key),
            final(self).slot_opt(kind, key) matches Some(e) && e.value == value,
            final(self).gen_of(kind, key) == old(self).gen_of(kind, key) + 1,
            forall|k2: StateKind, key2: u32|
                !(k2 == kind && key2 == key) ==> #[trigger] final(self).slot_opt(k2, key2) == old(
                    self,
                ).slot_opt(k2, key2),
    {
        let ghost pre = *self;
        match self.find_slot(kind, key) {
            Some(i) => {
                // The slot exists but is stale: recompute in place.
                let generation = self.entries[i].generation;
                proof {
                    assert(pre.entries@[i as int].epoch < pre.epoch);
                }
                let epoch = self.epoch;
                self.entries[i] = CacheEntry { kind, key, value, epoch, generation: generation + 1 };
                proof {
                    let post = *self;
                    assert(post.entries@ == pre.entries@.update(
                        i as int,
                        post.entries@[i as int],
                    ));
                    post.lemma_slot_at(kind, key, i as int);
                    pre.lemma_slot_at(kind, key, i as int);
                    assert forall|k2: StateKind, key2: u32| !(k2 == kind && key2 == key)
                        implies #[trigger] post.slot_opt(k2, key2) == pre.slot_opt(k2, key2) by {
                        if pre.has_slot(k2, key2) {
                            let j = pre.slot_index(k2, key2);
                            assert(j != i);
                            assert(post.entries@[j] == pre.entries@[j]);
                            post.lemma_slot_at(k2, key2, j);
                        }
                        if post.has_slot(k2, key2) {
                            let j = post.slot_index(k2, key2);
                            assert(j != i);
                            assert(pre.entries@[j] == post.entries@[j]);
                            pre.lemma_slot_at(k2, key2, j);
                        }
                    }
                }
            },
            None => {
                let epoch = self.epoch;
                self.entries.push(CacheEntry { kind, key, value, epoch, generation: 1 });
                proof {
                    let post = *self;
                    let n = pre.entries@.len() as int;
                    assert forall|a: int, b: int|
                        0 <= a < b < post.entries@.len() implies !((
                    #[trigger] post.entries@[a]).kind == (#[trigger] post.entries@[b]).kind
                        && post.entries@[a].key == post.entries@[b].key) by {
                        if b == n {
                            assert(post.entries@[a] == pre.entries@[a]);
                            if post.entries@[a].kind == kind && post.entries@[a].key == key {
                                pre.lemma_slot_at(kind, key, a);
                            }
                        } else {
                            assert(post.entries@[a] == pre.entries@[a]);
                            assert(post.entries@[b] == pre.entries@[b]);
                        }
                    }
                    post.lemma_slot_at(kind, key, n);
                    assert forall|k2: StateKind, key2: u32| !(k2 == kind && key2 == key)
                        implies #[trigger] post.slot_opt(k2, key2) == pre.slot_opt(k2, key2) by {
                        if pre.has_slot(k2, key2) {
                            let j = pre.slot_index(k2, key2);
                            assert(post.entries@[j] == pre.entries@[j]);
                            post.lemma_slot_at(k2, key2, j);
                        }
                        if post.has_slot(k2, key2) {
                            let j = post.slot_index(k2, key2);
                            assert(j < n) by {
                                if j == n {
                                    assert(post.entries@[j].kind == kind);
                                }
                            }
                            assert(pre.entries@[j] == post.entries@[j]);
                            pre.lemma_slot_at(k2, key2, j);
                        }
                    }
                }
            },
        }
    }

    /// The mathematical value cached for (kind, key); meaningful only when
    /// the slot exists.
    pub open spec fn cached_value(&self, kind: StateKind, key: u32) -> StateValueV {
        match self.slot_opt(kind, key) {
            Some(e) => e.value@,
            None => arbitrary(),
        }
    }

    /// Resolves (kind, key).
    ///
    /// A slot fresh in the current epoch is returned as-is: the registry does
    /// not change at all, so within one epoch a slot is computed at most once
    /// however many dependents ask for it. Otherwise the kind's value is
    /// computed — resolving strictly lower-ranked dependency kinds through
    /// this same registry first — stored stamped with the current epoch with
    /// its generation counter moved up by exactly one, and returned. A failed
    /// computation leaves the slot untouched, so the next epoch retries.
    ///
    /// Against a coherent registry the result is exactly [`resolve_spec`],
    /// the kind's mathematical resolution of the target's memory.
    pub fn resolve(&mut self, table: &ProcessTable, ctx: &GameContext, kind: StateKind, key: u32)
        -> (r: Result<StateValue, ResolveError>)
        requires
            old(self).wf(),
            table.wf(),
        ensures
            final(self).wf(),
            final(self).epoch == old(self).epoch,
            forall|k2: StateKind, key2: u32|
                old(self).is_fresh(k2, key2) ==> #[trigger] final(self).slot_opt(k2, key2) == old(
                    self,
                ).slot_opt(k2, key2),
            old(self).is_fresh(kind, key) ==> *final(self) == *old(self) && result_view(r) == Ok::<
                StateValueV,
                ResolveError,
            >(old(self).cached_value(kind, key)),
            !old(self).is_fresh(kind, key) ==> match r {
                Ok(v) => final(self).is_fresh(kind, key) && final(self).cached_value(kind, key)
                    == v@ && final(self).gen_of(kind, key) == old(self).gen_of(kind, key) + 1,
                Err(_) => final(self).slot_opt(kind, key) == old(self).slot_opt(kind, key),
            },
            forall|k2: StateKind, key2: u32|
                !(k2 == kind && key2 == key) && rank_of(k2) >= rank_of(kind)
                    ==> #[trigger] final(self).slot_opt(k2, key2) == old(self).slot_opt(k2, key2),
            old(self).coherent(*table, *ctx) ==> final(self).coherent(*table, *ctx)
                && result_view(r) == resolve_spec(*table, *ctx, kind, key),
        decreases rank_of(kind),
    {
        proof {
            reveal(resolve_spec);
        }
        let ghost pre = *self;
        match self.find_slot(kind, key) {
            Some(i) => {
                if self.entries[i].epoch == self.epoch {
                    let v = self.entries[i].value.duplicate();
                    proof {
                        assert(pre.is_fresh(kind, key));
                        if pre.coherent(*table, *ctx) {
                            assert(pre.slot_matches(*table, *ctx, kind, key));
                        }
                    }
                    return Ok(v);
                }
            },
            None => {},
        }
        proof {
            assert(!pre.is_fresh(kind, key));
        }
        let computed: Result<StateValue, ResolveError> = match kind {
            StateKind::Globals => compute_globals(table, ctx),
            StateKind::CurrentMap => compute_map(table, ctx),
            StateKind::EntitySystem => compute_entities(table, ctx),
            StateKind::ClassNameCache => compute_classes(table, ctx),
            StateKind::PlayerPawn => {
                match self.resolve(table, ctx, StateKind::EntitySystem, 0) {
                    Err(e) => Err(e),
                    Ok(v) => match v {
                        StateValue::Entities(ents) => compute_pawn(table, ctx, &ents, key),
                        _ => Err(ResolveError::EntityNotFound),
                    },
                }
            },
        };
        let ghost mid = *self;
        proof {
            assert(mid.wf());
            assert(!mid.is_fresh(kind, key));
            assert(mid.slot_opt(kind, key) == pre.slot_opt(kind, key));
        }
        match computed {
            Err(e) => {
                proof {
                    if pre.coherent(*table, *ctx) {
                        assert(mid.coherent(*table, *ctx));
                    }
                }
                Err(e)
            },
            Ok(value) => {
                let out = value.duplicate();
                let ghost gv = value@;
                self.store(kind, key, value);
                proof {
                    let post = *self;
                    if pre.coherent(*table, *ctx) {
                        assert(mid.coherent(*table, *ctx));
                        assert(resolve_spec(*table, *ctx, kind, key) == Ok::<
                            StateValueV,
                            ResolveError,
                        >(gv));
                        assert forall|k2: StateKind, key2: u32| #[trigger] post.slot_matches(
                            *table,
                            *ctx,
                            k2,
                            key2,
                        ) by {
                            if k2 == kind && key2 == key {
                                assert(post.cached_value(kind, key) == gv);
                            } else {
                                assert(post.slot_opt(k2, key2) == mid.slot_opt(k2, key2));
                                assert(mid.slot_matches(*table, *ctx, k2, key2));
                            }
                        }
                    }
                }
                Ok(out)
            },
        }
    }
}

} // verus!

//! Client-side reconciliation of the authoritative entity state.
//!
//! The reconciler consumes lifecycle events and snapshots and decides what
//! the presentation layer must do to its local mirror world. Persistent
//! entities (players) follow explicit create/remove events from the reliable
//! channel; ephemeral entities (projectiles) are spawned on first sighting in
//! a snapshot and removed by mark-and-sweep when a snapshot no longer lists
//! them. Every decision is returned as a list of [`Effect`] values; the
//! embedder performs them (spawn, update or despawn a mirror entity) and
//! never needs to consult the protocol state itself.
//!
//! Each mutating method is specified against a pure transition function on
//! the abstract [`ReconcilerView`]; the proof lemmas at the end of the module
//! state the protocol laws: duplicate creates and removes are no-ops, a
//! snapshot never spawns or despawns players, and after a snapshot the
//! ephemeral table binds exactly the handles the snapshot listed.

use vstd::prelude::*;

use crate::mapping::{
    keys_distinct, lemma_keys_distinct_drop_last, lemma_keys_distinct_push,
    lemma_keys_distinct_remove, lemma_table_contains_drop_last, lemma_table_contains_iff,
    lemma_table_lookup_after_remove, lemma_table_lookup_at, lemma_table_lookup_none,
    lemma_table_lookup_drop_last, lemma_table_lookup_push, lemma_table_remove_absent,
    lemma_table_remove_at,
    lemma_table_remove_keys_subset, table_contains, table_lookup, table_remove, MappingTable,
};
use crate::messages::{
    NetworkedEntities, PlayerEntry, PlayerTextureType, ProjectileEntry, ServerMessages,
    Vec3Bits, WeaponFxTextureEntityType, WeaponTextureType, MAX_ENTITIES,
};

verus! {

/// The peer id the server assigned to this client process.
#[derive(Clone, Copy, PartialEq, Eq, Structural, Debug)]
pub struct CurrentClientId(pub u64);

/// A peer's pair of handles: its entity in the authoritative world and the
/// local mirror entity.
#[derive(Clone, Copy, PartialEq, Eq, Structural, Debug)]
pub struct PlayerInfo {
    pub server_entity: u64,
    pub client_entity: u64,
}

/// One instruction to the presentation layer. `entity` is the server-side
/// handle the instruction concerns, `client_handle` the local mirror it
/// targets.
#[derive(Clone, Copy, PartialEq, Eq, Structural, Debug)]
pub enum Effect {
    /// Create a player mirror (with its aim pivot and weapon sprite attached
    /// by the embedder). `locally_controlled` marks this client's own player.
    SpawnPlayer {
        entity: u64,
        client_handle: u64,
        translation: Vec3Bits,
        player_texture_entity_type: PlayerTextureType,
        weapon_texture_entity_type: WeaponTextureType,
        locally_controlled: bool,
    },
    /// Overwrite a player mirror's presentation state from a snapshot row.
    UpdatePlayer {
        entity: u64,
        client_handle: u64,
        translation: Vec3Bits,
        sprite_index: u32,
        sprite_flip_x: bool,
        aim_direction: u32,
    },
    /// Destroy a player mirror (and its attached sub-entities).
    DespawnPlayer { entity: u64, client_handle: u64 },
    /// Create a projectile mirror from its first sighting in a snapshot.
    SpawnProjectile {
        entity: u64,
        client_handle: u64,
        translation: Vec3Bits,
        sprite_index: u32,
        sprite_flip_y: bool,
        weapon_fx_texture_entity_type: WeaponFxTextureEntityType,
    },
    /// Overwrite a projectile mirror's presentation state.
    UpdateProjectile {
        entity: u64,
        client_handle: u64,
        translation: Vec3Bits,
        sprite_index: u32,
        sprite_flip_y: bool,
        weapon_fx_texture_entity_type: WeaponFxTextureEntityType,
    },
    /// Destroy a projectile mirror whose handle left the snapshot.
    DespawnProjectile { entity: u64, client_handle: u64 },
}

/// Every mapped mirror handle lies below `b`, the allocation watermark.
pub open spec fn values_bounded(s: Seq<(u64, u64)>, b: u64) -> bool {
    forall|i: int| 0 <= i < s.len() ==> (#[trigger] s[i]).1 < b
}

/// Whether some row of a projectile block carries handle `h`.
pub open spec fn entries_contain_handle(es: Seq<ProjectileEntry>, h: u64) -> bool {
    exists|i: int| 0 <= i < es.len() && (#[trigger] es[i]).entity == h
}

/// The abstract state of a reconciler: this client's peer id, the lobby
/// binding peers to their handle pairs, the two mapping tables, and the next
/// unused local mirror handle.
pub ghost struct ReconcilerView {
    pub own_id: u64,
    pub lobby: Seq<(u64, PlayerInfo)>,
    pub players: Seq<(u64, u64)>,
    pub projectiles: Seq<(u64, u64)>,
    pub next_handle: u64,
}

/// The reconciler's invariant: unique keys everywhere and no mapped mirror
/// handle at or above the allocation watermark.
pub open spec fn view_wf(v: ReconcilerView) -> bool {
    &&& keys_distinct(v.lobby)
    &&& keys_distinct(v.players)
    &&& keys_distinct(v.projectiles)
    &&& values_bounded(v.players, v.next_handle)
    &&& values_bounded(v.projectiles, v.next_handle)
}

/// Transition for one `PlayerCreate`: a no-op when the server handle is
/// already mirrored, else one freshly allocated mirror, registered in the
/// lobby and the persistent table.
pub open spec fn apply_player_create_spec(
    v: ReconcilerView,
    id: u64,
    entity: u64,
    translation: Vec3Bits,
    player_texture_entity_type: PlayerTextureType,
    weapon_texture_entity_type: WeaponTextureType,
) -> (ReconcilerView, Seq<Effect>) {
    if table_contains(v.players, entity) {
        (v, Seq::empty())
    } else {
        let c = v.next_handle;
        let info = PlayerInfo { server_entity: entity, client_entity: c };
        (
            ReconcilerView {
                own_id: v.own_id,
                lobby: table_remove(v.lobby, id).push((id, info)),
                players: v.players.push((entity, c)),
                projectiles: v.projectiles,
                next_handle: (c + 1) as u64,
            },
            seq![
                Effect::SpawnPlayer {
                    entity,
                    client_handle: c,
                    translation,
                    player_texture_entity_type,
                    weapon_texture_entity_type,
                    locally_controlled: id == v.own_id,
                },
            ],
        )
    }
}

/// Transition for one `PlayerRemove`: the peer's record and mapping entry
/// leave and its mirror is despawned; unknown peers are a no-op.
pub open spec fn apply_player_remove_spec(v: ReconcilerView, id: u64) -> (
    ReconcilerView,
    Seq<Effect>,
) {
    match table_lookup(v.lobby, id) {
        Some(info) => (
            ReconcilerView {
                own_id: v.own_id,
                lobby: table_remove(v.lobby, id),
                players: table_remove(v.players, info.server_entity),
                projectiles: v.projectiles,
                next_handle: v.next_handle,
            },
            seq![
                Effect::DespawnPlayer {
                    entity: info.server_entity,
                    client_handle: info.client_entity,
                },
            ],
        ),
        None => (v, Seq::empty()),
    }
}

/// Transition for either lifecycle event.
pub open spec fn apply_server_message_spec(v: ReconcilerView, m: ServerMessages) -> (
    ReconcilerView,
    Seq<Effect>,
) {
    match m {
        ServerMessages::PlayerCreate {
            id,
            entity,
            translation,
            player_texture_entity_type,
            weapon_texture_entity_type,
        } => apply_player_create_spec(
            v,
            id,
            entity,
            translation,
            player_texture_entity_type,
            weapon_texture_entity_type,
        ),
        ServerMessages::PlayerRemove { id } => apply_player_remove_spec(v, id),
    }
}

/// The update effects of a snapshot's player block: one per row whose handle
/// is mirrored, in row order; rows with unknown handles are skipped, never
/// spawned from.
pub open spec fn player_update_effects(players: Seq<(u64, u64)>, entries: Seq<PlayerEntry>)
    -> Seq<Effect>
    decreases entries.len(),
{
    if entries.len() == 0 {
        Seq::empty()
    } else {
        let rest = player_update_effects(players, entries.drop_last());
        let e = entries.last();
        match table_lookup(players, e.entity) {
            Some(c) => rest + seq![
                Effect::UpdatePlayer {
                    entity: e.entity,
                    client_handle: c,
                    translation: e.translation,
                    sprite_index: e.sprite_index,
                    sprite_flip_x: e.sprite_flip_x,
                    aim_direction: e.aim_direction,
                },
            ],
            None => rest,
        }
    }
}

/// Intermediate state of the projectile block's first pass.
pub ghost struct ProjectilePhase {
    pub table: Seq<(u64, u64)>,
    pub next_handle: u64,
    pub effects: Seq<Effect>,
}

/// First pass over the projectile block: known handles are updated, unseen
/// handles get a fresh mirror and a table entry, in row order.
pub open spec fn apply_projectile_entries(
    table: Seq<(u64, u64)>,
    next: u64,
    entries: Seq<ProjectileEntry>,
    fx: WeaponFxTextureEntityType,
) -> ProjectilePhase
    decreases entries.len(),
{
    if entries.len() == 0 {
        ProjectilePhase { table, next_handle: next, effects: Seq::empty() }
    } else {
        let p = apply_projectile_entries(table, next, entries.drop_last(), fx);
        let e = entries.last();
        match table_lookup(p.table, e.entity) {
            Some(c) => ProjectilePhase {
                table: p.table,
                next_handle: p.next_handle,
                effects: p.effects + seq![
                    Effect::UpdateProjectile {
                        entity: e.entity,
                        client_handle: c,
                        translation: e.translation,
                        sprite_index: e.sprite_index,
                        sprite_flip_y: e.sprite_flip_y,
                        weapon_fx_texture_entity_type: fx,
                    },
                ],
            },
            None => ProjectilePhase {
                table: p.table.push((e.entity, p.next_handle)),
                next_handle: (p.next_handle + 1) as u64,
                effects: p.effects + seq![
                    Effect::SpawnProjectile {
                        entity: e.entity,
                        client_handle: p.next_handle,
                        translation: e.translation,
                        sprite_index: e.sprite_index,
                        sprite_flip_y: e.sprite_flip_y,
                        weapon_fx_texture_entity_type: fx,
                    },
                ],
            },
        }
    }
}

/// Mark-and-sweep over the ephemeral table, in table order: entries whose
/// handle the snapshot still lists survive, every other mirror is despawned.
/// This is the only despawn path for ephemeral entities.
pub open spec fn sweep_projectiles(table: Seq<(u64, u64)>, live: Seq<ProjectileEntry>) -> (
    Seq<(u64, u64)>,
    Seq<Effect>,
)
    decreases table.len(),
{
    if table.len() == 0 {
        (table, Seq::empty())
    } else {
        let r = sweep_projectiles(table.drop_last(), live);
        let entry = table.last();
        if entries_contain_handle(live, entry.0) {
            (r.0.push(entry), r.1)
        } else {
            (r.0, r.1 + seq![Effect::DespawnProjectile { entity: entry.0, client_handle: entry.1 }])
        }
    }
}

/// Transition for one snapshot: update mirrored players (skipping unknown
/// handles), then run both projectile passes.
pub open spec fn apply_snapshot_spec(
    v: ReconcilerView,
    players: Seq<PlayerEntry>,
    projectiles: Seq<ProjectileEntry>,
    fx: WeaponFxTextureEntityType,
) -> (ReconcilerView, Seq<Effect>) {
    let upd = player_update_effects(v.players, players);
    let ph = apply_projectile_entries(v.projectiles, v.next_handle, projectiles, fx);
    let swept = sweep_projectiles(ph.table, projectiles);
    (
        ReconcilerView {
            own_id: v.own_id,
            lobby: v.lobby,
            players: v.players,
            projectiles: swept.0,
            next_handle: ph.next_handle,
        },
        upd + ph.effects + swept.1,
    )
}

/// Every entry a sweep keeps is an entry of the swept table.
pub proof fn lemma_sweep_projectiles_subset(
    table: Seq<(u64, u64)>,
    live: Seq<ProjectileEntry>,
    i: int,
)
    requires
        0 <= i < sweep_projectiles(table, live).0.len(),
    ensures
        exists|j: int|
            0 <= j < table.len() && table[j] == (#[trigger] sweep_projectiles(table, live).0[i]),
    decreases table.len(),
{
    if table.len() > 0 {
        let r = sweep_projectiles(table.drop_last(), live);
        if entries_contain_handle(live, table.last().0) {
            if i < r.0.len() {
                lemma_sweep_projectiles_subset(table.drop_last(), live, i);
                let j = choose|j: int|
                    0 <= j < table.drop_last().len() && table.drop_last()[j] == (#[trigger] r.0[i]);
                assert(table[j] == sweep_projectiles(table, live).0[i]);
            } else {
                assert(sweep_projectiles(table, live).0[i] == table.last());
                assert(table[table.len() - 1] == sweep_projectiles(table, live).0[i]);
            }
        } else {
            lemma_sweep_projectiles_subset(table.drop_last(), live, i);
            let j = choose|j: int|
                0 <= j < table.drop_last().len() && table.drop_last()[j] == (#[trigger] r.0[i]);
            assert(table[j] == sweep_projectiles(table, live).0[i]);
        }
    }
}

/// Sweeping preserves key uniqueness.
pub proof fn lemma_sweep_projectiles_distinct(table: Seq<(u64, u64)>, live: Seq<ProjectileEntry>)
    requires
        keys_distinct(table),
    ensures
        keys_distinct(sweep_projectiles(table, live).0),
    decreases table.len(),
{
    if table.len() > 0 {
        assert(keys_distinct(table.drop_last())) by {
            assert forall|i: int, j: int|
                0 <= i < j < table.drop_last().len() implies (
            #[trigger] table.drop_last()[i]).0 != (#[trigger] table.drop_last()[j]).0 by {
                assert(table[i].0 != table[j].0);
            }
        }
        lemma_sweep_projectiles_distinct(table.drop_last(), live);
        let r = sweep_projectiles(table.drop_last(), live);
        if entries_contain_handle(live, table.last().0) {
            let kept = r.0.push(table.last());
            assert forall|i: int, j: int| 0 <= i < j < kept.len() implies (#[trigger] kept[i]).0
                != (#[trigger] kept[j]).0 by {
                if j < r.0.len() {
                    assert(r.0[i].0 != r.0[j].0);
                } else {
                    lemma_sweep_projectiles_subset(table.drop_last(), live, i);
                    let t = choose|t: int|
                        0 <= t < table.drop_last().len() && table.drop_last()[t] == (
                    #[trigger] r.0[i]);
                    assert(table[t].0 != table[table.len() - 1].0);
                }
            }
        }
    }
}

/// The client lobby: peers currently known to this client, each bound to its
/// handle pair. Keys are unique; inserting an already known peer replaces
/// its binding.
pub struct ClientLobby {
    entries: Vec<(u64, PlayerInfo)>,
}

impl View for ClientLobby {
    type V = Seq<(u64, PlayerInfo)>;

    closed spec fn view(&self) -> Seq<(u64, PlayerInfo)> {
        self.entries@
    }
}

impl ClientLobby {
    /// Key uniqueness, the lobby's invariant.
    pub open spec fn wf(self) -> bool {
        keys_distinct(self@)
    }

    /// An empty lobby.
    pub fn new() -> (r: Self)
        ensures
            r@ == Seq::<(u64, PlayerInfo)>::empty(),
            r.wf(),
    {
        ClientLobby { entries: Vec::new() }
    }

    /// The handle pair of peer `id`, if known.
    pub fn lookup(&self, id: u64) -> (r: Option<PlayerInfo>)
        ensures
            r == table_lookup(self@, id),
    {
        let mut i: usize = 0;
        while i < self.entries.len()
            invariant
                i <= self.entries@.len(),
                forall|j: int| 0 <= j < i ==> (#[trigger] self.entries@[j]).0 != id,
            decreases self.entries@.len() - i,
        {
            if self.entries[i].0 == id {
                proof {
                    lemma_table_lookup_at(self@, id, i as int);
                }
                return Some(self.entries[i].1);
            }
            i += 1;
        }
        proof {
            lemma_table_lookup_none(self@, id);
        }
        None
    }

    /// Forgets peer `id` and hands back its binding; a no-op returning
    /// `None` when the peer is unknown.
    pub fn remove(&mut self, id: u64) -> (r: Option<PlayerInfo>)
        requires
            old(self).wf(),
        ensures
            r == table_lookup(old(self)@, id),
            final(self)@ == table_remove(old(self)@, id),
            final(self).wf(),
    {
        let mut i: usize = 0;
        while i < self.entries.len()
            invariant
                i <= self.entries@.len(),
                forall|j: int| 0 <= j < i ==> (#[trigger] self.entries@[j]).0 != id,
                self == old(self),
                old(self).wf(),
            decreases self.entries@.len() - i,
        {
            if self.entries[i].0 == id {
                let info = self.entries[i].1;
                proof {
                    lemma_table_lookup_at(self@, id, i as int);
                    lemma_table_remove_at(self@, id, i as int);
                    lemma_keys_distinct_remove(self@, id);
                }
                self.entries.remove(i);
                return Some(info);
            }
            i += 1;
        }
        proof {
            lemma_table_lookup_none(self@, id);
            lemma_table_remove_absent(self@, id);
        }
        None
    }

    /// Binds peer `id` to `info`, replacing any earlier binding.
    pub fn insert(&mut self, id: u64, info: PlayerInfo)
        requires
            old(self).wf(),
        ensures
            final(self)@ == table_remove(old(self)@, id).push((id, info)),
            final(self).wf(),
    {
        let _ = self.remove(id);
        proof {
            lemma_table_lookup_after_remove(old(self)@, id, id);
            lemma_keys_distinct_push(self@, id, info);
        }
        self.entries.push((id, info));
    }
}

/// Scans a projectile block for handle `h`.
fn block_contains_handle(entries: &Vec<ProjectileEntry>, h: u64) -> (r: bool)
    ensures
        r == entries_contain_handle(entries@, h),
{
    let mut i: usize = 0;
    while i < entries.len()
        invariant
            i <= entries@.len(),
            forall|j: int| 0 <= j < i ==> (#[trigger] entries@[j]).entity != h,
        decreases entries@.len() - i,
    {
        if entries[i].entity == h {
            return true;
        }
        i += 1;
    }
    false
}

/// The client-side mirror keeper: owns the lobby and both mapping tables,
/// allocates local mirror handles, and turns protocol messages into
/// presentation effects.
pub struct Reconciler {
    own_id: u64,
    lobby: ClientLobby,
    player_mapping: MappingTable,
    projectile_mapping: MappingTable,
    next_client_handle: u64,
}

impl View for Reconciler {
    type V = ReconcilerView;

    closed spec fn view(&self) -> ReconcilerView {
        ReconcilerView {
            own_id: self.own_id,
            lobby: self.lobby@,
            players: self.player_mapping@,
            projectiles: self.projectile_mapping@,
            next_handle: self.next_client_handle,
        }
    }
}

impl Reconciler {
    /// The reconciler's invariant.
    pub open spec fn wf(self) -> bool {
        view_wf(self@)
    }

    /// A fresh reconciler for the client the server assigned `client_id`.
    pub fn new(client_id: CurrentClientId) -> (r: Self)
        ensures
            r@ == (ReconcilerView {
                own_id: client_id.0,
                lobby: Seq::empty(),
                players: Seq::empty(),
                projectiles: Seq::empty(),
                next_handle: 0,
            }),
            r.wf(),
    {
        Reconciler {
            own_id: client_id.0,
            lobby: ClientLobby::new(),
            player_mapping: MappingTable::new(),
            projectile_mapping: MappingTable::new(),
            next_client_handle: 0,
        }
    }

    /// Whether at least `n` more mirror handles can be allocated — the
    /// guard an embedder checks before feeding the reconciler another
    /// message.
    pub fn can_allocate(&self, n: u64) -> (r: bool)
        ensures
            r == (self@.next_handle + n <= u64::MAX),
    {
        self.next_client_handle <= u64::MAX - n
    }

    /// How many persistent entities are mirrored.
    pub fn player_count(&self) -> (n: usize)
        ensures
            n == self@.players.len(),
    {
        self.player_mapping.len()
    }

    /// How many ephemeral entities are mirrored.
    pub fn projectile_count(&self) -> (n: usize)
        ensures
            n == self@.projectiles.len(),
    {
        self.projectile_mapping.len()
    }

    /// The mirror handle bound to a persistent server handle, if any.
    pub fn lookup_player(&self, entity: u64) -> (r: Option<u64>)
        ensures
            r == table_lookup(self@.players, entity),
    {
        self.player_mapping.lookup(entity)
    }

    /// The mirror handle bound to an ephemeral server handle, if any.
    pub fn lookup_projectile(&self, entity: u64) -> (r: Option<u64>)
        ensures
            r == table_lookup(self@.projectiles, entity),
    {
        self.projectile_mapping.lookup(entity)
    }

    /// Applies one `PlayerCreate`: spawns and registers a mirror for an
    /// unseen handle, marks it locally controlled when the peer is this
    /// client, and does nothing on a duplicate.
    pub fn apply_player_create(
        &mut self,
        id: u64,
        entity: u64,
        translation: Vec3Bits,
        player_texture_entity_type: PlayerTextureType,
        weapon_texture_entity_type: WeaponTextureType,
    ) -> (effects: Vec<Effect>)
        requires
            old(self).wf(),
            old(self)@.next_handle < u64::MAX,
        ensures
            final(self).wf(),
            final(self)@ == apply_player_create_spec(
                old(self)@,
                id,
                entity,
                translation,
                player_texture_entity_type,
                weapon_texture_entity_type,
            ).0,
            effects@ == apply_player_create_spec(
                old(self)@,
                id,
                entity,
                translation,
                player_texture_entity_type,
                weapon_texture_entity_type,
            ).1,
    {
        let mut effects: Vec<Effect> = Vec::new();
        match self.player_mapping.lookup(entity) {
            Some(_) => effects,
            None => {
                let c = self.next_client_handle;
                self.player_mapping.insert(entity, c);
                self.lobby.insert(id, PlayerInfo { server_entity: entity, client_entity: c });
                self.next_client_handle = c + 1;
                effects.push(
                    Effect::SpawnPlayer {
                        entity,
                        client_handle: c,
                        translation,
                        player_texture_entity_type,
                        weapon_texture_entity_type,
                        locally_controlled: id == self.own_id,
                    },
                );
                proof {
                    assert(effects@ =~= apply_player_create_spec(
                        old(self)@,
                        id,
                        entity,
                        translation,
                        player_texture_entity_type,
                        weapon_texture_entity_type,
                    ).1);
                    assert(values_bounded(self@.players, self@.next_handle));
                    assert(values_bounded(self@.projectiles, self@.next_handle));
                }
                effects
            },
        }
    }

    /// Applies one `PlayerRemove`: despawns and unregisters the peer's
    /// mirror; duplicate or unknown removals are no-ops.
    pub fn apply_player_remove(&mut self, id: u64) -> (effects: Vec<Effect>)
        requires
            old(self).wf(),
        ensures
            final(self).wf(),
            final(self)@ == apply_player_remove_spec(old(self)@, id).0,
            effects@ == apply_player_remove_spec(old(self)@, id).1,
    {
        let mut effects: Vec<Effect> = Vec::new();
        match self.lobby.remove(id) {
            Some(info) => {
                let _ = self.player_mapping.remove(info.server_entity);
                effects.push(
                    Effect::DespawnPlayer {
                        entity: info.server_entity,
                        client_handle: info.client_entity,
                    },
                );
                proof {
                    assert(effects@ =~= apply_player_remove_spec(old(self)@, id).1);
                    assert(values_bounded(self@.players, self@.next_handle)) by {
                        assert forall|i: int| 0 <= i < self@.players.len() implies (
                        #[trigger] self@.players[i]).1 < self@.next_handle by {
                            lemma_table_remove_keys_subset(
                                old(self)@.players,
                                info.server_entity,
                                i,
                            );
                        }
                    }
                }
                effects
            },
            None => {
                proof {
                    lemma_table_contains_iff(old(self)@.lobby, id);
                    lemma_table_remove_absent(old(self)@.lobby, id);
                }
                effects
            },
        }
    }

    /// Applies either lifecycle event.
    pub fn apply_server_message(&mut self, message: &ServerMessages) -> (effects: Vec<Effect>)
        requires
            old(self).wf(),
            old(self)@.next_handle < u64::MAX,
        ensures
            final(self).wf(),
            final(self)@ == apply_server_message_spec(old(self)@, *message).0,
            effects@ == apply_server_message_spec(old(self)@, *message).1,
    {
        match message {
            ServerMessages::PlayerCreate {
                id,
                entity,
                translation,
                player_texture_entity_type,
                weapon_texture_entity_type,
            } => self.apply_player_create(
                *id,
                *entity,
                *translation,
                *player_texture_entity_type,
                *weapon_texture_entity_type,
            ),
            ServerMessages::PlayerRemove { id } => self.apply_player_remove(*id),
        }
    }

    /// Applies one snapshot: overwrites mirrored players (rows with unknown
    /// handles are skipped — the create may still be in flight on the other
    /// channel), spawns or updates each listed projectile, then despawns
    /// every projectile mirror the snapshot no longer lists.
    pub fn apply_snapshot(&mut self, snap: &NetworkedEntities) -> (effects: Vec<Effect>)
        requires
            old(self).wf(),
            snap.wf(),
            old(self)@.next_handle + MAX_ENTITIES <= u64::MAX,
        ensures
            final(self).wf(),
            final(self)@ == apply_snapshot_spec(
                old(self)@,
                snap.players@,
                snap.projectiles@,
                snap.weapon_fx_texture_type,
            ).0,
            effects@ == apply_snapshot_spec(
                old(self)@,
                snap.players@,
                snap.projectiles@,
                snap.weapon_fx_texture_type,
            ).1,
    {
        let fxt = snap.weapon_fx_texture_type;
        let mut effects: Vec<Effect> = Vec::new();
        let mut i: usize = 0;
        while i < snap.players.len()
            invariant
                i <= snap.players@.len(),
                self == old(self),
                effects@ == player_update_effects(
                    old(self)@.players,
                    snap.players@.subrange(0, i as int),
                ),
            decreases snap.players@.len() - i,
        {
            let e = snap.players[i];
            match self.player_mapping.lookup(e.entity) {
                Some(c) => {
                    effects.push(
                        Effect::UpdatePlayer {
                            entity: e.entity,
                            client_handle: c,
                            translation: e.translation,
                            sprite_index: e.sprite_index,
                            sprite_flip_x: e.sprite_flip_x,
                            aim_direction: e.aim_direction,
                        },
                    );
                },
                None => {},
            }
            proof {
                let prefix = snap.players@.subrange(0, i + 1);
                assert(prefix.drop_last() =~= snap.players@.subrange(0, i as int));
                assert(prefix.last() == snap.players@[i as int]);
                assert(effects@ =~= player_update_effects(old(self)@.players, prefix));
            }
            i += 1;
        }
        proof {
            assert(snap.players@.subrange(0, snap.players@.len() as int) =~= snap.players@);
        }
        let ghost upd_all = effects@;
        let mut j: usize = 0;
        while j < snap.projectiles.len()
            invariant
                j <= snap.projectiles@.len(),
                snap.projectiles@.len() <= MAX_ENTITIES,
                view_wf(old(self)@),
                old(self)@.next_handle + MAX_ENTITIES <= u64::MAX,
                self@.own_id == old(self)@.own_id,
                self@.lobby == old(self)@.lobby,
                self@.players == old(self)@.players,
                ({
                    let p = apply_projectile_entries(
                        old(self)@.projectiles,
                        old(self)@.next_handle,
                        snap.projectiles@.subrange(0, j as int),
                        fxt,
                    );
                    self@.projectiles == p.table && self@.next_handle == p.next_handle
                        && effects@ == upd_all + p.effects
                }),
                old(self)@.next_handle <= self@.next_handle,
                self@.next_handle <= old(self)@.next_handle + j,
                keys_distinct(self@.projectiles),
                values_bounded(self@.projectiles, self@.next_handle),
            decreases snap.projectiles@.len() - j,
        {
            let e = snap.projectiles[j];
            let ghost before = self@.projectiles;
            let ghost next_before = self@.next_handle;
            match self.projectile_mapping.lookup(e.entity) {
                Some(c) => {
                    effects.push(
                        Effect::UpdateProjectile {
                            entity: e.entity,
                            client_handle: c,
                            translation: e.translation,
                            sprite_index: e.sprite_index,
                            sprite_flip_y: e.sprite_flip_y,
                            weapon_fx_texture_entity_type: fxt,
                        },
                    );
                },
                None => {
                    let c = self.next_client_handle;
                    self.projectile_mapping.insert(e.entity, c);
                    self.next_client_handle = c + 1;
                    effects.push(
                        Effect::SpawnProjectile {
                            entity: e.entity,
                            client_handle: c,
                            translation: e.translation,
                            sprite_index: e.sprite_index,
                            sprite_flip_y: e.sprite_flip_y,
                            weapon_fx_texture_entity_type: fxt,
                        },
                    );
                    proof {
                        assert forall|t: int| 0 <= t < self@.projectiles.len() implies (
                        #[trigger] self@.projectiles[t]).1 < self@.next_handle by {
                            if t < before.len() {
                                assert(before[t].1 < next_before);
                            } else {
                                assert(self@.projectiles[t] == (e.entity, c));
                            }
                        }
                    }
                },
            }
            proof {
                let prefix = snap.projectiles@.subrange(0, j + 1);
                assert(prefix.drop_last() =~= snap.projectiles@.subrange(0, j as int));
                assert(prefix.last() == snap.projectiles@[j as int]);
                assert(effects@ =~= upd_all + apply_projectile_entries(
                    old(self)@.projectiles,
                    old(self)@.next_handle,
                    prefix,
                    fxt,
                ).effects);
            }
            j += 1;
        }
        proof {
            assert(snap.projectiles@.subrange(0, snap.projectiles@.len() as int)
                =~= snap.projectiles@);
        }
        let ghost ph = apply_projectile_entries(
            old(self)@.projectiles,
            old(self)@.next_handle,
            snap.projectiles@,
            fxt,
        );
        let ghost mid = self@;
        let ghost pre_sweep = effects@;
        let n = self.projectile_mapping.len();
        let mut kept: Vec<(u64, u64)> = Vec::new();
        let mut k: usize = 0;
        while k < n
            invariant
                k <= n,
                self@ == mid,
                n == mid.projectiles.len(),
                ({
                    let r = sweep_projectiles(
                        mid.projectiles.subrange(0, k as int),
                        snap.projectiles@,
                    );
                    kept@ == r.0 && effects@ == pre_sweep + r.1
                }),
            decreases n - k,
        {
            let (h, c) = self.projectile_mapping.entry_at(k);
            if block_contains_handle(&snap.projectiles, h) {
                kept.push((h, c));
            } else {
                effects.push(Effect::DespawnProjectile { entity: h, client_handle: c });
            }
            proof {
                let prefix = mid.projectiles.subrange(0, k + 1);
                assert(prefix.drop_last() =~= mid.projectiles.subrange(0, k as int));
                assert(prefix.last() == mid.projectiles[k as int]);
                let r = sweep_projectiles(prefix, snap.projectiles@);
                assert(kept@ =~= r.0);
                assert(effects@ =~= pre_sweep + r.1);
            }
            k += 1;
        }
        proof {
            assert(mid.projectiles.subrange(0, n as int) =~= mid.projectiles);
            lemma_sweep_projectiles_distinct(ph.table, snap.projectiles@);
        }
        self.projectile_mapping = MappingTable::from_entries(kept);
        proof {
            let swept = sweep_projectiles(ph.table, snap.projectiles@);
            assert(effects@ =~= upd_all + ph.effects + swept.1);
            assert(values_bounded(self@.players, self@.next_handle)) by {
                assert forall|t: int| 0 <= t < self@.players.len() implies (
                #[trigger] self@.players[t]).1 < self@.next_handle by {
                    assert(old(self)@.players[t].1 < old(self)@.next_handle);
                }
            }
            assert(values_bounded(self@.projectiles, self@.next_handle)) by {
                assert forall|t: int| 0 <= t < self@.projectiles.len() implies (
                #[trigger] self@.projectiles[t]).1 < self@.next_handle by {
                    lemma_sweep_projectiles_subset(ph.table, snap.projectiles@, t);
                }
            }
        }
        effects
    }
}

/// No two rows of a projectile block carry the same handle; snapshots built
/// from the authoritative entity set have this shape, handles being unique
/// while an entity is alive.
pub open spec fn projectile_handles_distinct(es: Seq<ProjectileEntry>) -> bool {
    forall|i: int, j: int| 0 <= i < j < es.len() ==> (#[trigger] es[i]).entity != (
    #[trigger] es[j]).entity
}

/// A handle is in a block exactly when it is in the front part or carried by
/// the last row.
proof fn lemma_entries_contain_drop_last(es: Seq<ProjectileEntry>, h: u64)
    requires
        es.len() > 0,
    ensures
        entries_contain_handle(es, h) <==> entries_contain_handle(es.drop_last(), h)
            || es.last().entity == h,
{
    if entries_contain_handle(es, h) {
        let i = choose|i: int| 0 <= i < es.len() && (#[trigger] es[i]).entity == h;
        if i < es.len() - 1 {
            assert(es.drop_last()[i].entity == h);
        }
    }
    if entries_contain_handle(es.drop_last(), h) {
        let i = choose|i: int|
            0 <= i < es.drop_last().len() && (#[trigger] es.drop_last()[i]).entity == h;
        assert(es[i].entity == h);
    }
    if es.last().entity == h {
        assert(es[es.len() - 1].entity == h);
    }
}

/// The projectile block's first pass binds exactly the old handles plus the
/// block's handles, keeps keys unique, and leaves existing bindings as they
/// were.
pub proof fn lemma_projectile_phase(
    table: Seq<(u64, u64)>,
    next: u64,
    entries: Seq<ProjectileEntry>,
    fx: WeaponFxTextureEntityType,
    h: u64,
)
    requires
        keys_distinct(table),
    ensures
        ({
            let p = apply_projectile_entries(table, next, entries, fx);
            &&& keys_distinct(p.table)
            &&& (table_contains(p.table, h) <==> table_contains(table, h)
                || entries_contain_handle(entries, h))
            &&& (table_contains(table, h) ==> table_lookup(p.table, h) == table_lookup(table, h))
        }),
    decreases entries.len(),
{
    if entries.len() > 0 {
        let p0 = apply_projectile_entries(table, next, entries.drop_last(), fx);
        let e = entries.last();
        lemma_projectile_phase(table, next, entries.drop_last(), fx, h);
        lemma_projectile_phase(table, next, entries.drop_last(), fx, e.entity);
        lemma_entries_contain_drop_last(entries, h);
        match table_lookup(p0.table, e.entity) {
            Some(_) => {},
            None => {
                lemma_keys_distinct_push(p0.table, e.entity, p0.next_handle);
                lemma_table_lookup_push(p0.table, e.entity, p0.next_handle, h);
            },
        }
    }
}

/// Mark-and-sweep keeps exactly the entries whose handle the snapshot still
/// lists, with their bindings unchanged.
pub proof fn lemma_sweep_contains(table: Seq<(u64, u64)>, live: Seq<ProjectileEntry>, h: u64)
    requires
        keys_distinct(table),
    ensures
        ({
            let r = sweep_projectiles(table, live);
            &&& (table_contains(r.0, h) <==> table_contains(table, h) && entries_contain_handle(
                live,
                h,
            ))
            &&& (table_contains(table, h) && entries_contain_handle(live, h) ==> table_lookup(
                r.0,
                h,
            ) == table_lookup(table, h))
        }),
    decreases table.len(),
{
    if table.len() > 0 {
        lemma_keys_distinct_drop_last(table);
        lemma_sweep_contains(table.drop_last(), live, h);
        lemma_table_contains_drop_last(table, h);
        let r0 = sweep_projectiles(table.drop_last(), live);
        let entry = table.last();
        if entry.0 != h {
            lemma_table_lookup_drop_last(table, h);
        }
        if entries_contain_handle(live, entry.0) {
            lemma_table_lookup_push(r0.0, entry.0, entry.1, h);
            if h == entry.0 {
                assert(!table_contains(table.drop_last(), h)) by {
                    lemma_table_contains_iff(table.drop_last(), h);
                    if table_contains(table.drop_last(), h) {
                        let i = choose|i: int|
                            0 <= i < table.drop_last().len() && (
                            #[trigger] table.drop_last()[i]).0 == h;
                        assert(table[i].0 == table[table.len() - 1].0);
                        assert(false);
                    }
                }
                assert(table_lookup(table, h) == Some(entry.1)) by {
                    lemma_table_contains_iff(table.drop_last(), h);
                    lemma_table_lookup_at(table, h, table.len() - 1);
                }
            }
        } else {
            if h == entry.0 && table_contains(r0.0, h) {
                assert(entries_contain_handle(live, h));
                assert(false);
            }
        }
    }
}

/// Law: a duplicate `PlayerCreate` is a no-op. The second application of the
/// same event leaves the reconciler state unchanged and emits no effect, so
/// a retransmitted create yields exactly one mirror and one mapping entry.
pub proof fn lemma_player_create_idempotent(
    v: ReconcilerView,
    id: u64,
    entity: u64,
    translation: Vec3Bits,
    player_texture_entity_type: PlayerTextureType,
    weapon_texture_entity_type: WeaponTextureType,
)
    ensures
        ({
            let r1 = apply_player_create_spec(
                v,
                id,
                entity,
                translation,
                player_texture_entity_type,
                weapon_texture_entity_type,
            );
            let r2 = apply_player_create_spec(
                r1.0,
                id,
                entity,
                translation,
                player_texture_entity_type,
                weapon_texture_entity_type,
            );
            r2.0 == r1.0 && r2.1 == Seq::<Effect>::empty()
        }),
        !table_contains(v.players, entity) ==> ({
            let r1 = apply_player_create_spec(
                v,
                id,
                entity,
                translation,
                player_texture_entity_type,
                weapon_texture_entity_type,
            );
            &&& r1.1.len() == 1
            &&& r1.1[0] is SpawnPlayer
            &&& r1.0.players.len() == v.players.len() + 1
            &&& table_lookup(r1.0.players, entity) == Some(v.next_handle)
        }),
{
    if !table_contains(v.players, entity) {
        lemma_table_lookup_push(v.players, entity, v.next_handle, entity);
    }
}

/// Law: a `PlayerRemove` for an already removed or never known peer is a
/// no-op; applying the same removal twice equals applying it once.
pub proof fn lemma_player_remove_idempotent(v: ReconcilerView, id: u64)
    requires
        keys_distinct(v.lobby),
    ensures
        ({
            let r1 = apply_player_remove_spec(v, id);
            let r2 = apply_player_remove_spec(r1.0, id);
            r2.0 == r1.0 && r2.1 == Seq::<Effect>::empty()
        }),
{
    if table_lookup(v.lobby, id) is Some {
        lemma_table_lookup_after_remove(v.lobby, id, id);
    }
}

/// Law: a snapshot never touches the persistent tier's state — the lobby and
/// the player mapping table come out unchanged — and never spawns or
/// despawns a player mirror, however the snapshot relates to the mirrored
/// players. A snapshot row whose handle is unknown is skipped outright.
pub proof fn lemma_snapshot_players_untouched(
    v: ReconcilerView,
    players: Seq<PlayerEntry>,
    projectiles: Seq<ProjectileEntry>,
    fx: WeaponFxTextureEntityType,
)
    ensures
        apply_snapshot_spec(v, players, projectiles, fx).0.players == v.players,
        apply_snapshot_spec(v, players, projectiles, fx).0.lobby == v.lobby,
        forall|x: Effect|
            #[trigger] apply_snapshot_spec(v, players, projectiles, fx).1.contains(x) ==> !(
            x is SpawnPlayer) && !(x is DespawnPlayer),
{
    let upd = player_update_effects(v.players, players);
    let ph = apply_projectile_entries(v.projectiles, v.next_handle, projectiles, fx);
    let swept = sweep_projectiles(ph.table, projectiles);
    lemma_player_update_effects_kinds(v.players, players);
    lemma_projectile_phase_effects_kinds(v.projectiles, v.next_handle, projectiles, fx);
    lemma_sweep_effects_kinds(ph.table, projectiles);
    assert forall|x: Effect|
        #[trigger] apply_snapshot_spec(v, players, projectiles, fx).1.contains(x) implies !(
    x is SpawnPlayer) && !(x is DespawnPlayer) by {
        let all = upd + ph.effects + swept.1;
        let i = choose|i: int| 0 <= i < all.len() && all[i] == x;
        if i < upd.len() {
            assert(upd.contains(x));
        } else if i < upd.len() + ph.effects.len() {
            assert(ph.effects[i - upd.len()] == x);
            assert(ph.effects.contains(x));
        } else {
            assert(swept.1[i - upd.len() - ph.effects.len()] == x);
            assert(swept.1.contains(x));
        }
    }
}

/// Every effect of the player pass is an `UpdatePlayer`.
proof fn lemma_player_update_effects_kinds(players: Seq<(u64, u64)>, entries: Seq<PlayerEntry>)
    ensures
        forall|x: Effect|
            #[trigger] player_update_effects(players, entries).contains(x)
                ==> x is UpdatePlayer,
    decreases entries.len(),
{
    if entries.len() > 0 {
        lemma_player_update_effects_kinds(players, entries.drop_last());
        let rest = player_update_effects(players, entries.drop_last());
        assert forall|x: Effect|
            #[trigger] player_update_effects(players, entries).contains(x) implies x
            is UpdatePlayer by {
            let whole = player_update_effects(players, entries);
            let i = choose|i: int| 0 <= i < whole.len() && whole[i] == x;
            if i < rest.len() {
                assert(rest.contains(x));
            }
        }
    }
}

/// Every effect of the projectile pass concerns a projectile mirror.
proof fn lemma_projectile_phase_effects_kinds(
    table: Seq<(u64, u64)>,
    next: u64,
    entries: Seq<ProjectileEntry>,
    fx: WeaponFxTextureEntityType,
)
    ensures
        forall|x: Effect|
            #[trigger] apply_projectile_entries(table, next, entries, fx).effects.contains(x)
                ==> x is SpawnProjectile || x is UpdateProjectile,
    decreases entries.len(),
{
    if entries.len() > 0 {
        lemma_projectile_phase_effects_kinds(table, next, entries.drop_last(), fx);
        let rest = apply_projectile_entries(table, next, entries.drop_last(), fx).effects;
        assert forall|x: Effect|
            #[trigger] apply_projectile_entries(table, next, entries, fx).effects.contains(
                x,
            ) implies x is SpawnProjectile || x is UpdateProjectile by {
            let whole = apply_projectile_entries(table, next, entries, fx).effects;
            let i = choose|i: int| 0 <= i < whole.len() && whole[i] == x;
            if i < rest.len() {
                assert(rest.contains(x));
            }
        }
    }
}

/// Every effect of the sweep is a `DespawnProjectile`.
proof fn lemma_sweep_effects_kinds(table: Seq<(u64, u64)>, live: Seq<ProjectileEntry>)
    ensures
        forall|x: Effect|
            #[trigger] sweep_projectiles(table, live).1.contains(x) ==> x is DespawnProjectile,
    decreases table.len(),
{
    if table.len() > 0 {
        lemma_sweep_effects_kinds(table.drop_last(), live);
        let rest = sweep_projectiles(table.drop_last(), live).1;
        assert forall|x: Effect|
            #[trigger] sweep_projectiles(table, live).1.contains(x) implies x
            is DespawnProjectile by {
            let whole = sweep_projectiles(table, live).1;
            let i = choose|i: int| 0 <= i < whole.len() && whole[i] == x;
            if i < rest.len() {
                assert(rest.contains(x));
            }
        }
    }
}

/// Law: after a snapshot, the ephemeral table binds exactly the handles of
/// the snapshot's projectile block — newly listed handles were added, and
/// every no-longer-listed handle was swept out, its mirror despawned exactly
/// once. Handles that stay listed keep the mirror they had.
pub proof fn lemma_mark_and_sweep(
    v: ReconcilerView,
    players: Seq<PlayerEntry>,
    projectiles: Seq<ProjectileEntry>,
    fx: WeaponFxTextureEntityType,
)
    requires
        keys_distinct(v.projectiles),
    ensures
        forall|h: u64|
            table_contains(
                #[trigger] apply_snapshot_spec(v, players, projectiles, fx).0.projectiles,
                h,
            ) <==> entries_contain_handle(projectiles, h),
        forall|h: u64|
            table_contains(v.projectiles, h) && entries_contain_handle(projectiles, h)
                ==> table_lookup(
                #[trigger] apply_snapshot_spec(v, players, projectiles, fx).0.projectiles,
                h,
            ) == table_lookup(v.projectiles, h),
        forall|h: u64|
            #[trigger] despawn_count_for(apply_snapshot_spec(v, players, projectiles, fx).1, h)
                == (if table_contains(v.projectiles, h) && !entries_contain_handle(
                projectiles,
                h,
            ) {
                1nat
            } else {
                0nat
            }),
{
    let ph = apply_projectile_entries(v.projectiles, v.next_handle, projectiles, fx);
    assert forall|h: u64|
        table_contains(
            #[trigger] apply_snapshot_spec(v, players, projectiles, fx).0.projectiles,
            h,
        ) <==> entries_contain_handle(projectiles, h) by {
        lemma_projectile_phase(v.projectiles, v.next_handle, projectiles, fx, h);
        lemma_sweep_contains(ph.table, projectiles, h);
    }
    assert forall|h: u64|
        table_contains(v.projectiles, h) && entries_contain_handle(projectiles, h)
            implies table_lookup(
        #[trigger] apply_snapshot_spec(v, players, projectiles, fx).0.projectiles,
        h,
    ) == table_lookup(v.projectiles, h) by {
        lemma_projectile_phase(v.projectiles, v.next_handle, projectiles, fx, h);
        lemma_sweep_contains(ph.table, projectiles, h);
    }
    let upd = player_update_effects(v.players, players);
    let swept = sweep_projectiles(ph.table, projectiles);
    lemma_player_update_effects_kinds(v.players, players);
    lemma_projectile_phase_effects_kinds(v.projectiles, v.next_handle, projectiles, fx);
    assert forall|h: u64|
        #[trigger] despawn_count_for(apply_snapshot_spec(v, players, projectiles, fx).1, h) == (
        if table_contains(v.projectiles, h) && !entries_contain_handle(projectiles, h) {
            1nat
        } else {
            0nat
        }) by {
        lemma_projectile_phase(v.projectiles, v.next_handle, projectiles, fx, h);
        lemma_despawn_count_zero(upd, h);
        lemma_despawn_count_zero(ph.effects, h);
        lemma_sweep_despawn_count(ph.table, projectiles, h);
        lemma_despawn_count_concat(upd, ph.effects, h);
        lemma_despawn_count_concat(upd + ph.effects, swept.1, h);
    }
}

/// How many `DespawnProjectile` effects of the list concern handle `h`.
pub open spec fn despawn_count_for(effects: Seq<Effect>, h: u64) -> nat
    decreases effects.len(),
{
    if effects.len() == 0 {
        0
    } else {
        despawn_count_for(effects.drop_last(), h) + (match effects.last() {
            Effect::DespawnProjectile { entity, .. } => if entity == h {
                1nat
            } else {
                0nat
            },
            _ => 0nat,
        })
    }
}

/// Despawn counts add up over concatenation.
proof fn lemma_despawn_count_concat(a: Seq<Effect>, b: Seq<Effect>, h: u64)
    ensures
        despawn_count_for(a + b, h) == despawn_count_for(a, h) + despawn_count_for(b, h),
    decreases b.len(),
{
    if b.len() == 0 {
        assert(a + b =~= a);
    } else {
        lemma_despawn_count_concat(a, b.drop_last(), h);
        assert((a + b).drop_last() =~= a + b.drop_last());
        assert((a + b).last() == b.last());
    }
}

/// A list with no `DespawnProjectile` effects despawns nothing.
proof fn lemma_despawn_count_zero(effects: Seq<Effect>, h: u64)
    requires
        forall|x: Effect| #[trigger] effects.contains(x) ==> !(x is DespawnProjectile),
    ensures
        despawn_count_for(effects, h) == 0,
    decreases effects.len(),
{
    if effects.len() > 0 {
        assert(effects.contains(effects.last())) by {
            assert(effects[effects.len() - 1] == effects.last());
        }
        assert forall|x: Effect| #[trigger] effects.drop_last().contains(x) implies !(
        x is DespawnProjectile) by {
            let i = choose|i: int|
                0 <= i < effects.drop_last().len() && effects.drop_last()[i] == x;
            assert(effects[i] == x);
            assert(effects.contains(x));
        }
        lemma_despawn_count_zero(effects.drop_last(), h);
    }
}

/// The sweep despawns the mirror of handle `h` exactly when the table bound
/// it and the snapshot no longer lists it — and then exactly once.
proof fn lemma_sweep_despawn_count(table: Seq<(u64, u64)>, live: Seq<ProjectileEntry>, h: u64)
    requires
        keys_distinct(table),
    ensures
        despawn_count_for(sweep_projectiles(table, live).1, h) == (if table_contains(table, h)
            && !entries_contain_handle(live, h) {
            1nat
        } else {
            0nat
        }),
    decreases table.len(),
{
    if table.len() > 0 {
        lemma_keys_distinct_drop_last(table);
        lemma_sweep_despawn_count(table.drop_last(), live, h);
        lemma_table_contains_drop_last(table, h);
        let r0 = sweep_projectiles(table.drop_last(), live);
        let entry = table.last();
        if h == entry.0 {
            assert(!table_contains(table.drop_last(), h)) by {
                lemma_table_contains_iff(table.drop_last(), h);
                if table_contains(table.drop_last(), h) {
                    let i = choose|i: int|
                        0 <= i < table.drop_last().len() && (#[trigger] table.drop_last()[i]).0
                            == h;
                    assert(table[i].0 == table[table.len() - 1].0);
                    assert(false);
                }
            }
        }
        if entries_contain_handle(live, entry.0) {
            assert(sweep_projectiles(table, live).1 == r0.1);
        } else {
            let fx = Effect::DespawnProjectile { entity: entry.0, client_handle: entry.1 };
            assert((r0.1 + seq![fx]).drop_last() =~= r0.1);
            assert((r0.1 + seq![fx]).last() == fx);
        }
    }
}

/// How many `SpawnProjectile` effects of the list concern handle `h`.
pub open spec fn spawn_count_for(effects: Seq<Effect>, h: u64) -> nat
    decreases effects.len(),
{
    if effects.len() == 0 {
        0
    } else {
        spawn_count_for(effects.drop_last(), h) + (match effects.last() {
            Effect::SpawnProjectile { entity, .. } => if entity == h {
                1nat
            } else {
                0nat
            },
            _ => 0nat,
        })
    }
}

/// Spawn counts add up over concatenation.
proof fn lemma_spawn_count_concat(a: Seq<Effect>, b: Seq<Effect>, h: u64)
    ensures
        spawn_count_for(a + b, h) == spawn_count_for(a, h) + spawn_count_for(b, h),
    decreases b.len(),
{
    if b.len() == 0 {
        assert(a + b =~= a);
    } else {
        lemma_spawn_count_concat(a, b.drop_last(), h);
        assert((a + b).drop_last() =~= a + b.drop_last());
        assert((a + b).last() == b.last());
    }
}

/// A list with no `SpawnProjectile` effects spawns nothing.
proof fn lemma_spawn_count_zero(effects: Seq<Effect>, h: u64)
    requires
        forall|x: Effect| #[trigger] effects.contains(x) ==> !(x is SpawnProjectile),
    ensures
        spawn_count_for(effects, h) == 0,
    decreases effects.len(),
{
    if effects.len() > 0 {
        assert(effects.contains(effects.last())) by {
            assert(effects[effects.len() - 1] == effects.last());
        }
        assert forall|x: Effect| #[trigger] effects.drop_last().contains(x) implies !(
        x is SpawnProjectile) by {
            let i = choose|i: int|
                0 <= i < effects.drop_last().len() && effects.drop_last()[i] == x;
            assert(effects[i] == x);
            assert(effects.contains(x));
        }
        lemma_spawn_count_zero(effects.drop_last(), h);
    }
}

/// The first pass spawns a mirror for handle `h` exactly when some row
/// carries `h` and no mirror for `h` exists yet — and then exactly once.
proof fn lemma_phase_spawn_count(
    table: Seq<(u64, u64)>,
    next: u64,
    entries: Seq<ProjectileEntry>,
    fx: WeaponFxTextureEntityType,
    h: u64,
)
    requires
        keys_distinct(table),
        projectile_handles_distinct(entries),
    ensures
        spawn_count_for(apply_projectile_entries(table, next, entries, fx).effects, h) == (
        if entries_contain_handle(entries, h) && !table_contains(table, h) {
            1nat
        } else {
            0nat
        }),
    decreases entries.len(),
{
    if entries.len() > 0 {
        assert(projectile_handles_distinct(entries.drop_last())) by {
            assert forall|i: int, j: int|
                0 <= i < j < entries.drop_last().len() implies (
            #[trigger] entries.drop_last()[i]).entity != (
            #[trigger] entries.drop_last()[j]).entity by {
                assert(entries[i].entity != entries[j].entity);
            }
        }
        lemma_phase_spawn_count(table, next, entries.drop_last(), fx, h);
        lemma_entries_contain_drop_last(entries, h);
        let p0 = apply_projectile_entries(table, next, entries.drop_last(), fx);
        let e = entries.last();
        lemma_projectile_phase(table, next, entries.drop_last(), fx, e.entity);
        if e.entity == h {
            assert(!entries_contain_handle(entries.drop_last(), h)) by {
                if entries_contain_handle(entries.drop_last(), h) {
                    let i = choose|i: int|
                        0 <= i < entries.drop_last().len() && (
                        #[trigger] entries.drop_last()[i]).entity == h;
                    assert(entries[i].entity == entries[entries.len() - 1].entity);
                    assert(false);
                }
            }
        }
        match table_lookup(p0.table, e.entity) {
            Some(_) => {
                assert(apply_projectile_entries(table, next, entries, fx).effects.drop_last()
                    =~= p0.effects);
            },
            None => {
                assert(apply_projectile_entries(table, next, entries, fx).effects.drop_last()
                    =~= p0.effects);
            },
        }
    }
}

/// Law: a snapshot spawns one projectile mirror for a handle it lists that
/// has none yet, and never spawns for a handle that already has its mirror —
/// a later snapshot that still lists the handle updates that same mirror
/// instead of duplicating it.
pub proof fn lemma_ephemeral_implicit_spawn(
    v: ReconcilerView,
    players: Seq<PlayerEntry>,
    projectiles: Seq<ProjectileEntry>,
    fx: WeaponFxTextureEntityType,
    h: u64,
)
    requires
        keys_distinct(v.projectiles),
        projectile_handles_distinct(projectiles),
    ensures
        spawn_count_for(apply_snapshot_spec(v, players, projectiles, fx).1, h) == (
        if entries_contain_handle(projectiles, h) && !table_contains(v.projectiles, h) {
            1nat
        } else {
            0nat
        }),
{
    let upd = player_update_effects(v.players, players);
    let ph = apply_projectile_entries(v.projectiles, v.next_handle, projectiles, fx);
    let swept = sweep_projectiles(ph.table, projectiles);
    lemma_player_update_effects_kinds(v.players, players);
    lemma_spawn_count_zero(upd, h);
    lemma_sweep_effects_kinds(ph.table, projectiles);
    lemma_spawn_count_zero(swept.1, h);
    lemma_phase_spawn_count(v.projectiles, v.next_handle, projectiles, fx, h);
    lemma_spawn_count_concat(upd, ph.effects, h);
    lemma_spawn_count_concat(upd + ph.effects, swept.1, h);
}

} // verus!

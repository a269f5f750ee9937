//! Wire message types of the replication protocol.
//!
//! The server describes its authoritative world to clients with two kinds of
//! message: explicit lifecycle events for persistent entities (players), sent
//! on the reliable channel, and periodic full-state snapshots covering both
//! players and ephemeral entities (projectiles), sent on the unreliable
//! channel. Clients send their intent back as `PlayerInput` messages.
//!
//! Positions and angles travel as raw IEEE-754 bit patterns (`u32` fields), so
//! that values cross the wire bit-exactly without this crate doing any
//! floating-point arithmetic; the presentation layer converts at the edge.

use vstd::prelude::*;

verus! {

/// Largest number of entities one snapshot block may describe. The protocol
/// assumes a bounded number of concurrently simulated entities; this bound
/// also keeps every encoded message length comfortably inside `usize`.
pub const MAX_ENTITIES: usize = 4096;

/// Sprite-sheet family used for a player body.
#[derive(Clone, Copy, PartialEq, Eq, Structural, Debug)]
pub enum PlayerTextureType {
    Rick1,
    Rick2,
}

/// Sprite-sheet family used for a held weapon.
#[derive(Clone, Copy, PartialEq, Eq, Structural, Debug)]
pub enum WeaponTextureType {
    Pistol,
    Shotgun,
    Rifle,
    GrenadeLauncher,
}

/// Sprite-sheet family used for a weapon effect (projectile).
#[derive(Clone, Copy, PartialEq, Eq, Structural, Debug)]
pub enum WeaponFxTextureEntityType {
    Pistol,
    Shotgun,
    Rifle,
    GrenadeLauncher,
}

impl WeaponFxTextureEntityType {
    /// The effect family a weapon of the given family fires.
    pub fn from_weapon(value: &WeaponTextureType) -> (r: Self)
        ensures
            r == (match *value {
                WeaponTextureType::Pistol => WeaponFxTextureEntityType::Pistol,
                WeaponTextureType::Shotgun => WeaponFxTextureEntityType::Shotgun,
                WeaponTextureType::Rifle => WeaponFxTextureEntityType::Rifle,
                WeaponTextureType::GrenadeLauncher => WeaponFxTextureEntityType::GrenadeLauncher,
            }),
    {
        match value {
            WeaponTextureType::Pistol => WeaponFxTextureEntityType::Pistol,
            WeaponTextureType::Shotgun => WeaponFxTextureEntityType::Shotgun,
            WeaponTextureType::Rifle => WeaponFxTextureEntityType::Rifle,
            WeaponTextureType::GrenadeLauncher => WeaponFxTextureEntityType::GrenadeLauncher,
        }
    }
}

/// A 3-component translation, each component the bit pattern of an `f32`.
#[derive(Clone, Copy, PartialEq, Eq, Structural, Debug)]
pub struct Vec3Bits {
    pub x: u32,
    pub y: u32,
    pub z: u32,
}

/// The weapon a player currently holds.
#[derive(Clone, Copy, PartialEq, Eq, Structural, Debug)]
pub struct PlayerWeaponSelected {
    pub weapon_texture_type: WeaponTextureType,
}

impl PlayerWeaponSelected {
    /// The weapon every player starts with.
    pub fn default_weapon() -> (r: Self)
        ensures
            r.weapon_texture_type == WeaponTextureType::Pistol,
    {
        Self { weapon_texture_type: WeaponTextureType::Pistol }
    }
}

/// Client intent for one tick: movement flags, a jump request, the aim
/// direction (bit pattern of an `f32` angle in radians) and a shoot request.
#[derive(Clone, Copy, PartialEq, Eq, Structural, Debug)]
pub struct PlayerInput {
    pub up: bool,
    pub down: bool,
    pub left: bool,
    pub right: bool,
    pub jump: bool,
    pub aim_direction: u32,
    pub shoot: bool,
}

impl Default for PlayerInput {
    /// All flags cleared, aim pointing along the positive x axis.
    fn default() -> (r: Self)
        ensures
            r == (PlayerInput {
                up: false,
                down: false,
                left: false,
                right: false,
                jump: false,
                aim_direction: 0,
                shoot: false,
            }),
    {
        PlayerInput {
            up: false,
            down: false,
            left: false,
            right: false,
            jump: false,
            aim_direction: 0,
            shoot: false,
        }
    }
}

/// Lifecycle events for persistent entities, sent on the reliable channel.
///
/// A persistent entity is introduced to clients only through `PlayerCreate`
/// and retired only through `PlayerRemove`; snapshots never spawn one.
#[derive(Clone, Copy, PartialEq, Eq, Structural, Debug)]
pub enum ServerMessages {
    PlayerCreate {
        /// Peer that owns the new player.
        id: u64,
        /// Server-side handle of the new entity, opaque to clients.
        entity: u64,
        translation: Vec3Bits,
        player_texture_entity_type: PlayerTextureType,
        weapon_texture_entity_type: WeaponTextureType,
    },
    PlayerRemove {
        id: u64,
    },
}

/// One player's row in a snapshot.
#[derive(Clone, Copy, PartialEq, Eq, Structural, Debug)]
pub struct PlayerEntry {
    pub entity: u64,
    pub translation: Vec3Bits,
    pub sprite_index: u32,
    pub sprite_flip_x: bool,
    pub player_texture_entity_type: PlayerTextureType,
    pub weapon_texture_entity_type: WeaponTextureType,
    /// Bit pattern of the aim angle in radians.
    pub aim_direction: u32,
}

/// One projectile's row in a snapshot.
#[derive(Clone, Copy, PartialEq, Eq, Structural, Debug)]
pub struct ProjectileEntry {
    pub entity: u64,
    pub translation: Vec3Bits,
    pub sprite_index: u32,
    pub sprite_flip_y: bool,
}

/// A full, non-delta description of every currently alive replicated entity,
/// broadcast on the unreliable channel each tick.
///
/// One texture type covers every projectile of the snapshot — a deliberate
/// simplification of the wire format: concurrently visible projectiles all
/// render with the same weapon-effect texture.
#[derive(Clone, PartialEq, Eq, Debug)]
pub struct NetworkedEntities {
    pub players: Vec<PlayerEntry>,
    pub projectiles: Vec<ProjectileEntry>,
    pub weapon_fx_texture_type: WeaponFxTextureEntityType,
}

impl NetworkedEntities {
    /// A snapshot small enough to encode: each block within the entity bound.
    pub open spec fn wf(self) -> bool {
        self.players@.len() <= MAX_ENTITIES && self.projectiles@.len() <= MAX_ENTITIES
    }

    /// Whether some row of the projectile block carries handle `h`.
    pub open spec fn has_projectile_handle(self, h: u64) -> bool {
        exists|i: int| 0 <= i < self.projectiles@.len() && self.projectiles@[i].entity == h
    }

    /// An empty snapshot with the given projectile texture.
    pub fn new(weapon_fx_texture_type: WeaponFxTextureEntityType) -> (r: Self)
        ensures
            r.players@ == Seq::<PlayerEntry>::empty(),
            r.projectiles@ == Seq::<ProjectileEntry>::empty(),
            r.weapon_fx_texture_type == weapon_fx_texture_type,
            r.wf(),
    {
        NetworkedEntities { players: Vec::new(), projectiles: Vec::new(), weapon_fx_texture_type }
    }
}

} // verus!

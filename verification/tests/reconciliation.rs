//! Client-side reconciliation scenarios: idempotent lifecycle handling,
//! implicit ephemeral spawning, mark-and-sweep, and channel-race tolerance.

use replication::codec::{decode_server_message, encode_server_message};
use replication::messages::{
    NetworkedEntities, PlayerEntry, PlayerTextureType, ProjectileEntry, ServerMessages,
    Vec3Bits, WeaponFxTextureEntityType, WeaponTextureType,
};
use replication::reconciler::{CurrentClientId, Effect, Reconciler};

fn v3(x: f32, y: f32, z: f32) -> Vec3Bits {
    Vec3Bits { x: x.to_bits(), y: y.to_bits(), z: z.to_bits() }
}

fn projectile_row(entity: u64) -> ProjectileEntry {
    ProjectileEntry {
        entity,
        translation: v3(1.0, 2.0, 0.0),
        sprite_index: 0,
        sprite_flip_y: false,
    }
}

fn projectile_snapshot(handles: &[u64]) -> NetworkedEntities {
    NetworkedEntities {
        players: Vec::new(),
        projectiles: handles.iter().map(|h| projectile_row(*h)).collect(),
        weapon_fx_texture_type: WeaponFxTextureEntityType::Pistol,
    }
}

#[test]
fn idempotent_create() {
    let mut rec = Reconciler::new(CurrentClientId(7));
    let effects = rec.apply_player_create(
        7,
        42,
        v3(0.0, 0.0, 0.0),
        PlayerTextureType::Rick1,
        WeaponTextureType::Pistol,
    );
    assert_eq!(effects.len(), 1);
    match effects[0] {
        Effect::SpawnPlayer { entity, client_handle, locally_controlled, .. } => {
            assert_eq!(entity, 42);
            assert_eq!(client_handle, 0);
            assert!(locally_controlled);
        }
        ref other => panic!("expected a spawn, got {:?}", other),
    }
    assert_eq!(rec.player_count(), 1);

    let again = rec.apply_player_create(
        7,
        42,
        v3(0.0, 0.0, 0.0),
        PlayerTextureType::Rick1,
        WeaponTextureType::Pistol,
    );
    assert!(again.is_empty());
    assert_eq!(rec.player_count(), 1);
    assert_eq!(rec.lookup_player(42), Some(0));
}

#[test]
fn create_for_other_peer_is_not_controlled() {
    let mut rec = Reconciler::new(CurrentClientId(7));
    let effects = rec.apply_player_create(
        8,
        43,
        v3(0.0, 0.0, 0.0),
        PlayerTextureType::Rick2,
        WeaponTextureType::Rifle,
    );
    match effects[0] {
        Effect::SpawnPlayer { locally_controlled, .. } => assert!(!locally_controlled),
        ref other => panic!("expected a spawn, got {:?}", other),
    }
}

#[test]
fn idempotent_remove() {
    let mut rec = Reconciler::new(CurrentClientId(1));
    rec.apply_player_create(
        2,
        42,
        v3(0.0, 0.0, 0.0),
        PlayerTextureType::Rick1,
        WeaponTextureType::Pistol,
    );
    let effects = rec.apply_player_remove(2);
    assert_eq!(
        effects,
        vec![Effect::DespawnPlayer { entity: 42, client_handle: 0 }]
    );
    assert_eq!(rec.player_count(), 0);

    let second = rec.apply_player_remove(2);
    assert!(second.is_empty());
    let unknown = rec.apply_player_remove(999);
    assert!(unknown.is_empty());
    assert_eq!(rec.player_count(), 0);
}

#[test]
fn mark_and_sweep() {
    let mut rec = Reconciler::new(CurrentClientId(1));
    let spawned = rec.apply_snapshot(&projectile_snapshot(&[1, 2, 3]));
    assert_eq!(spawned.len(), 3);
    assert_eq!(rec.projectile_count(), 3);
    let c2 = rec.lookup_projectile(2).unwrap();

    let effects = rec.apply_snapshot(&projectile_snapshot(&[2]));
    let despawned: Vec<u64> = effects
        .iter()
        .filter_map(|e| match e {
            Effect::DespawnProjectile { entity, .. } => Some(*entity),
            _ => None,
        })
        .collect();
    assert_eq!(despawned, vec![1, 3]);
    assert_eq!(rec.projectile_count(), 1);
    assert_eq!(rec.lookup_projectile(2), Some(c2));
    assert_eq!(rec.lookup_projectile(1), None);
    assert_eq!(rec.lookup_projectile(3), None);
}

#[test]
fn ephemeral_implicit_spawn() {
    let mut rec = Reconciler::new(CurrentClientId(1));
    let first = rec.apply_snapshot(&projectile_snapshot(&[7]));
    assert_eq!(first.len(), 1);
    let mirror = match first[0] {
        Effect::SpawnProjectile { entity, client_handle, .. } => {
            assert_eq!(entity, 7);
            client_handle
        }
        ref other => panic!("expected a projectile spawn, got {:?}", other),
    };
    assert_eq!(rec.lookup_projectile(7), Some(mirror));

    let second = rec.apply_snapshot(&projectile_snapshot(&[7]));
    assert_eq!(second.len(), 1);
    match second[0] {
        Effect::UpdateProjectile { entity, client_handle, .. } => {
            assert_eq!(entity, 7);
            assert_eq!(client_handle, mirror);
        }
        ref other => panic!("expected an update, got {:?}", other),
    }
    assert_eq!(rec.projectile_count(), 1);
}

#[test]
fn out_of_order_snapshot_is_tolerated() {
    let mut rec = Reconciler::new(CurrentClientId(1));
    let snapshot = NetworkedEntities {
        players: vec![PlayerEntry {
            entity: 5,
            translation: v3(3.0, 4.0, 0.0),
            sprite_index: 1,
            sprite_flip_x: false,
            player_texture_entity_type: PlayerTextureType::Rick1,
            weapon_texture_entity_type: WeaponTextureType::Pistol,
            aim_direction: 0,
        }],
        projectiles: Vec::new(),
        weapon_fx_texture_type: WeaponFxTextureEntityType::Pistol,
    };

    // Snapshot first: handle 5 has seen no create yet, so nothing happens.
    let early = rec.apply_snapshot(&snapshot);
    assert!(early.is_empty());
    assert_eq!(rec.player_count(), 0);

    // The create arrives; the same snapshot now updates the mirror.
    let created = rec.apply_player_create(
        2,
        5,
        v3(0.0, 0.0, 0.0),
        PlayerTextureType::Rick1,
        WeaponTextureType::Pistol,
    );
    assert_eq!(created.len(), 1);
    let late = rec.apply_snapshot(&snapshot);
    assert_eq!(late.len(), 1);
    match late[0] {
        Effect::UpdatePlayer { entity, client_handle, sprite_index, .. } => {
            assert_eq!(entity, 5);
            assert_eq!(client_handle, 0);
            assert_eq!(sprite_index, 1);
        }
        ref other => panic!("expected a player update, got {:?}", other),
    }
}

#[test]
fn snapshot_updates_use_snapshot_values() {
    let mut rec = Reconciler::new(CurrentClientId(9));
    rec.apply_player_create(
        9,
        5,
        v3(0.0, 0.0, 0.0),
        PlayerTextureType::Rick2,
        WeaponTextureType::Shotgun,
    );
    let aim = (-1.5f32).to_bits();
    let snapshot = NetworkedEntities {
        players: vec![PlayerEntry {
            entity: 5,
            translation: v3(-10.0, 2.5, 0.0),
            sprite_index: 3,
            sprite_flip_x: true,
            player_texture_entity_type: PlayerTextureType::Rick2,
            weapon_texture_entity_type: WeaponTextureType::Shotgun,
            aim_direction: aim,
        }],
        projectiles: Vec::new(),
        weapon_fx_texture_type: WeaponFxTextureEntityType::Shotgun,
    };
    let effects = rec.apply_snapshot(&snapshot);
    assert_eq!(
        effects,
        vec![Effect::UpdatePlayer {
            entity: 5,
            client_handle: 0,
            translation: v3(-10.0, 2.5, 0.0),
            sprite_index: 3,
            sprite_flip_x: true,
            aim_direction: aim,
        }]
    );
}

#[test]
fn lifecycle_events_cross_the_wire() {
    let mut rec = Reconciler::new(CurrentClientId(3));
    assert!(rec.can_allocate(1));

    let create = ServerMessages::PlayerCreate {
        id: 3,
        entity: 21,
        translation: v3(5.0, 6.0, 0.0),
        player_texture_entity_type: PlayerTextureType::Rick1,
        weapon_texture_entity_type: WeaponTextureType::Pistol,
    };
    let decoded = decode_server_message(&encode_server_message(&create)).unwrap();
    let effects = rec.apply_server_message(&decoded);
    assert_eq!(effects.len(), 1);
    assert!(matches!(effects[0], Effect::SpawnPlayer { locally_controlled: true, .. }));
    assert_eq!(rec.lookup_player(21), Some(0));

    let remove = ServerMessages::PlayerRemove { id: 3 };
    let decoded = decode_server_message(&encode_server_message(&remove)).unwrap();
    let effects = rec.apply_server_message(&decoded);
    assert_eq!(effects, vec![Effect::DespawnPlayer { entity: 21, client_handle: 0 }]);
    assert_eq!(rec.lookup_player(21), None);
}

#[test]
fn projectile_texture_is_snapshot_wide() {
    let mut rec = Reconciler::new(CurrentClientId(1));
    let mut snapshot = projectile_snapshot(&[1, 2]);
    snapshot.weapon_fx_texture_type = WeaponFxTextureEntityType::GrenadeLauncher;
    let effects = rec.apply_snapshot(&snapshot);
    for e in &effects {
        match e {
            Effect::SpawnProjectile { weapon_fx_texture_entity_type, .. } => {
                assert_eq!(
                    *weapon_fx_texture_entity_type,
                    WeaponFxTextureEntityType::GrenadeLauncher
                );
            }
            other => panic!("expected a projectile spawn, got {:?}", other),
        }
    }
}

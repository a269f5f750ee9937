//! Server-side behaviour: connect/disconnect traffic, the empty-snapshot
//! optimization, input relay, the jump state machine, channel settings and
//! texture-atlas geometry.

use replication::animation::{next_animation_index, AnimationIndices};
use replication::channels::{
    ClientChannel, ConnectionSettings, SendKind, ServerChannel, AVAILABLE_BYTES_PER_TICK,
    PROTOCOL_ID,
};
use replication::codec::encode_snapshot;
use replication::mapping::MappingTable;
use replication::messages::{
    NetworkedEntities, PlayerEntry, PlayerInput, PlayerTextureType, PlayerWeaponSelected,
    Vec3Bits, WeaponFxTextureEntityType, WeaponTextureType,
};
use replication::player::{
    apply_jump_input, apply_sensor_start, apply_sensor_stop, movement_axis,
    rand_player_texture_entity_type, Grounded, JumpCounter,
};
use replication::replicator::{
    server_network_sync, update_player_input, Destination, ExistingPlayer, Outgoing, Replicator,
};
use replication::texture::{
    generate_frames, PlayerTextureEntity, Uv2, WeaponFxTextureEntity, WeaponTextureEntity,
};

fn v3(x: f32, y: f32, z: f32) -> Vec3Bits {
    Vec3Bits { x: x.to_bits(), y: y.to_bits(), z: z.to_bits() }
}

#[test]
fn connect_bootstraps_then_broadcasts() {
    let mut rep = Replicator::new();
    let first = rep.on_client_connected(
        10,
        100,
        v3(1.0, 0.0, 0.0),
        PlayerTextureType::Rick1,
        WeaponTextureType::Pistol,
        &Vec::new(),
    );
    assert_eq!(first.len(), 1);
    assert_eq!(first[0].destination, Destination::Broadcast);
    assert_eq!(first[0].channel, ServerChannel::ServerMessages);
    assert_eq!(rep.player_count(), 1);
    assert_eq!(rep.lookup(10), Some(100));

    let existing = vec![ExistingPlayer {
        id: 10,
        entity: 100,
        translation: v3(1.0, 0.0, 0.0),
        player_texture_entity_type: PlayerTextureType::Rick1,
        weapon_texture_entity_type: WeaponTextureType::Pistol,
    }];
    let second = rep.on_client_connected(
        11,
        101,
        v3(2.0, 0.0, 0.0),
        PlayerTextureType::Rick2,
        WeaponTextureType::Rifle,
        &existing,
    );
    assert_eq!(second.len(), 2);
    assert_eq!(second[0].destination, Destination::To { peer: 11 });
    assert_eq!(second[1].destination, Destination::Broadcast);
    assert_eq!(rep.player_count(), 2);
}

#[test]
fn disconnect_broadcasts_and_is_idempotent() {
    let mut rep = Replicator::new();
    rep.on_client_connected(
        10,
        100,
        v3(0.0, 0.0, 0.0),
        PlayerTextureType::Rick1,
        WeaponTextureType::Pistol,
        &Vec::new(),
    );
    let (despawn, out) = rep.on_client_disconnected(10);
    assert_eq!(despawn, Some(100));
    assert_eq!(out.len(), 1);
    match out[0] {
        Outgoing { destination: Destination::Broadcast, channel, .. } => {
            assert_eq!(channel, ServerChannel::ServerMessages);
        }
        ref other => panic!("expected a broadcast, got {:?}", other),
    }
    assert_eq!(rep.player_count(), 0);

    let (again, out2) = rep.on_client_disconnected(10);
    assert_eq!(again, None);
    assert_eq!(out2.len(), 1);
}

#[test]
fn empty_snapshot_is_not_broadcast() {
    let empty = NetworkedEntities::new(WeaponFxTextureEntityType::Pistol);
    assert_eq!(server_network_sync(&empty), None);

    let mut with_player = NetworkedEntities::new(WeaponFxTextureEntityType::Pistol);
    with_player.players.push(PlayerEntry {
        entity: 1,
        translation: v3(0.0, 0.0, 0.0),
        sprite_index: 0,
        sprite_flip_x: false,
        player_texture_entity_type: PlayerTextureType::Rick1,
        weapon_texture_entity_type: WeaponTextureType::Pistol,
        aim_direction: 0,
    });
    let bytes = server_network_sync(&with_player).expect("a snapshot with players is sent");
    assert_eq!(bytes, encode_snapshot(&with_player));
}

#[test]
fn input_reaches_only_the_matching_player() {
    let mut players = vec![(1u64, PlayerInput::default()), (2u64, PlayerInput::default())];
    let mut input = PlayerInput::default();
    input.jump = true;
    input.right = true;
    update_player_input(&mut players, 2, input);
    assert_eq!(players[0].1, PlayerInput::default());
    assert_eq!(players[1].1, input);
}

#[test]
fn jump_counter() {
    let mut grounded = Grounded(false);
    let mut counter = JumpCounter { jumps_left: 2, max_jumps: 2 };

    assert!(apply_jump_input(true, &mut counter));
    assert!(apply_jump_input(true, &mut counter));
    assert_eq!(counter.jumps_left, 0);
    assert!(!apply_jump_input(true, &mut counter));
    assert_eq!(counter.jumps_left, 0);

    apply_sensor_start(&mut grounded, &mut counter);
    assert!(grounded.0);
    assert_eq!(counter.jumps_left, 2);

    apply_sensor_stop(&mut grounded);
    assert!(!grounded.0);
    assert_eq!(counter.jumps_left, 2);

    // A jump request without the flag set consumes nothing.
    assert!(!apply_jump_input(false, &mut counter));
    assert_eq!(counter.jumps_left, 2);
}

#[test]
fn jump_counter_reset_and_use() {
    let mut counter = JumpCounter { jumps_left: 0, max_jumps: 3 };
    assert!(!counter.use_jump());
    counter.reset();
    assert_eq!(counter.jumps_left, 3);
    assert!(counter.use_jump());
    assert_eq!(counter.jumps_left, 2);
}

#[test]
fn movement_axis_values() {
    assert_eq!(movement_axis(false, false), 0);
    assert_eq!(movement_axis(true, false), -1);
    assert_eq!(movement_axis(false, true), 1);
    assert_eq!(movement_axis(true, true), 0);
}

#[test]
fn default_weapon_is_pistol() {
    assert_eq!(
        PlayerWeaponSelected::default_weapon().weapon_texture_type,
        WeaponTextureType::Pistol
    );
}

#[test]
fn random_texture_is_a_player_sheet() {
    for _ in 0..32 {
        let t = rand_player_texture_entity_type();
        assert!(matches!(t, PlayerTextureType::Rick1 | PlayerTextureType::Rick2));
    }
}

#[test]
fn mapping_table_basics() {
    let mut table = MappingTable::new();
    assert_eq!(table.lookup(5), None);
    table.insert(5, 0);
    table.insert(9, 1);
    assert_eq!(table.len(), 2);
    assert_eq!(table.lookup(5), Some(0));
    assert_eq!(table.lookup(9), Some(1));
    assert_eq!(table.remove(5), Some(0));
    assert_eq!(table.remove(5), None);
    assert_eq!(table.len(), 1);
    assert_eq!(table.lookup(9), Some(1));
}

#[test]
fn channel_tables() {
    assert_eq!(PROTOCOL_ID, 7);
    assert_eq!(ClientChannel::Input.channel_id(), 1);
    assert_eq!(ClientChannel::Command.channel_id(), 0);
    assert_eq!(ServerChannel::NetworkedEntities.channel_id(), 0);
    assert_eq!(ServerChannel::ServerMessages.channel_id(), 1);

    let client = ClientChannel::channel_config();
    assert_eq!(client.len(), 2);
    assert!(client.iter().all(|c| matches!(
        c.send_kind,
        SendKind::ReliableOrdered { resend_time_ms: 0 }
    )));

    let server = ServerChannel::channel_config();
    assert_eq!(server.len(), 2);
    assert_eq!(server[0].send_kind, SendKind::Unreliable);
    assert_eq!(server[1].send_kind, SendKind::ReliableOrdered { resend_time_ms: 200 });

    let conn: ConnectionSettings = replication::channels::connection_config();
    assert_eq!(conn.available_bytes_per_tick, AVAILABLE_BYTES_PER_TICK);
    assert_eq!(conn.client_channels_config, client);
    assert_eq!(conn.server_channels_config, server);
}

#[test]
fn animation_walks_and_wraps() {
    let indices = AnimationIndices { first: 0, last: 3 };
    assert_eq!(next_animation_index(0, true, &indices), 1);
    assert_eq!(next_animation_index(2, true, &indices), 3);
    assert_eq!(next_animation_index(3, true, &indices), 0);
    assert_eq!(next_animation_index(2, false, &indices), 1);
    assert_eq!(next_animation_index(0, false, &indices), 3);
    assert_eq!(next_animation_index(3, false, &indices), 0);
    assert_eq!(next_animation_index(7, false, &indices), 0);
}

#[test]
fn frame_generation() {
    let frames = generate_frames(Uv2 { x: 10, y: 20 }, 2, Uv2 { x: 5, y: 6 }, 1);
    assert_eq!(frames.len(), 2);
    assert_eq!(frames[0].min, Uv2 { x: 10, y: 20 });
    assert_eq!(frames[0].max, Uv2 { x: 15, y: 26 });
    assert_eq!(frames[1].min, Uv2 { x: 16, y: 20 });
    assert_eq!(frames[1].max, Uv2 { x: 21, y: 26 });
}

#[test]
fn player_texture_geometry() {
    let rick1 = PlayerTextureEntity::new(&PlayerTextureType::Rick1);
    assert_eq!(rick1.layout_size, Uv2 { x: 1036, y: 740 });
    assert_eq!(rick1.texture_path, "textures/players/rick1.png");
    assert_eq!(rick1.animation_indices, AnimationIndices { first: 0, last: 3 });
    assert_eq!(rick1.frames.len(), 4);
    assert_eq!(rick1.frames[0].min, Uv2 { x: 519, y: 173 });
    assert_eq!(rick1.frames[1].min, Uv2 { x: 650, y: 173 });

    let rick2 = PlayerTextureEntity::new(&PlayerTextureType::Rick2);
    assert_eq!(rick2.layout_size, Uv2 { x: 816, y: 1241 });
    assert_eq!(rick2.frames[0].min, Uv2 { x: 5, y: 908 });

    assert_eq!(PlayerTextureEntity::all().len(), 2);
}

#[test]
fn weapon_texture_geometry() {
    let weapon = WeaponTextureEntity::new(&WeaponTextureType::Shotgun);
    assert_eq!(weapon.layout_size, Uv2 { x: 502, y: 448 });
    assert_eq!(weapon.frames.len(), 1);
    assert_eq!(weapon.frames[0].min, Uv2 { x: 358, y: 200 });
    assert_eq!(weapon.frames[0].max, Uv2 { x: 409, y: 223 });
    assert_eq!(WeaponTextureEntity::all().len(), 4);

    let fx = WeaponFxTextureEntity::new(&WeaponFxTextureEntityType::Pistol);
    assert_eq!(fx.layout_size, Uv2 { x: 1300, y: 3175 });
    assert_eq!(fx.frames[0].min, Uv2 { x: 3, y: 2431 });
    assert_eq!(fx.frames[0].max, Uv2 { x: 34, y: 2446 });
    assert_eq!(WeaponFxTextureEntity::all().len(), 4);
}

#[test]
fn weapon_to_effect_family() {
    assert_eq!(
        WeaponFxTextureEntityType::from_weapon(&WeaponTextureType::GrenadeLauncher),
        WeaponFxTextureEntityType::GrenadeLauncher
    );
}

//! Round trips and failure cases of the message codec.

use replication::codec::{
    decode_input, decode_server_message, decode_snapshot, encode_input, encode_server_message,
    encode_snapshot, DecodeError,
};
use replication::messages::{
    NetworkedEntities, PlayerEntry, PlayerInput, PlayerTextureType, ProjectileEntry,
    ServerMessages, Vec3Bits, WeaponFxTextureEntityType, WeaponTextureType,
};

fn v3(x: f32, y: f32, z: f32) -> Vec3Bits {
    Vec3Bits { x: x.to_bits(), y: y.to_bits(), z: z.to_bits() }
}

#[test]
fn input_round_trip() {
    let m = PlayerInput {
        up: true,
        down: false,
        left: true,
        right: false,
        jump: true,
        aim_direction: 1.25f32.to_bits(),
        shoot: true,
    };
    let bytes = encode_input(&m);
    assert_eq!(bytes.len(), 10);
    assert_eq!(decode_input(&bytes), Ok(m));
}

#[test]
fn input_default_round_trip() {
    let m = PlayerInput::default();
    assert_eq!(decode_input(&encode_input(&m)), Ok(m));
}

#[test]
fn input_rejects_wrong_length() {
    assert_eq!(decode_input(&vec![0u8; 9]), Err(DecodeError::Malformed));
    assert_eq!(decode_input(&vec![0u8; 11]), Err(DecodeError::Malformed));
    assert_eq!(decode_input(&Vec::new()), Err(DecodeError::Malformed));
}

#[test]
fn input_rejects_bad_flag_byte() {
    let mut bytes = encode_input(&PlayerInput::default());
    bytes[4] = 2;
    assert_eq!(decode_input(&bytes), Err(DecodeError::Malformed));
}

#[test]
fn player_create_round_trip() {
    let m = ServerMessages::PlayerCreate {
        id: 7,
        entity: 0xdead_beef_1234_5678,
        translation: v3(-250.0, 0.5, 1.0),
        player_texture_entity_type: PlayerTextureType::Rick2,
        weapon_texture_entity_type: WeaponTextureType::Shotgun,
    };
    let bytes = encode_server_message(&m);
    assert_eq!(bytes.len(), 31);
    assert_eq!(decode_server_message(&bytes), Ok(m));
}

#[test]
fn player_remove_round_trip() {
    let m = ServerMessages::PlayerRemove { id: 0x0102_0304_0506_0708 };
    let bytes = encode_server_message(&m);
    assert_eq!(bytes, vec![1u8, 8, 7, 6, 5, 4, 3, 2, 1]);
    assert_eq!(decode_server_message(&bytes), Ok(m));
}

#[test]
fn server_message_rejects_bad_tag() {
    assert_eq!(decode_server_message(&vec![9u8, 0, 0, 0, 0, 0, 0, 0, 0]),
        Err(DecodeError::Malformed));
    assert_eq!(decode_server_message(&Vec::new()), Err(DecodeError::Malformed));
}

#[test]
fn server_message_rejects_truncation() {
    let m = ServerMessages::PlayerCreate {
        id: 1,
        entity: 2,
        translation: v3(0.0, 0.0, 0.0),
        player_texture_entity_type: PlayerTextureType::Rick1,
        weapon_texture_entity_type: WeaponTextureType::Pistol,
    };
    let mut bytes = encode_server_message(&m);
    bytes.pop();
    assert_eq!(decode_server_message(&bytes), Err(DecodeError::Malformed));
}

#[test]
fn server_message_rejects_bad_texture_tag() {
    let m = ServerMessages::PlayerCreate {
        id: 1,
        entity: 2,
        translation: v3(0.0, 0.0, 0.0),
        player_texture_entity_type: PlayerTextureType::Rick1,
        weapon_texture_entity_type: WeaponTextureType::Pistol,
    };
    let mut bytes = encode_server_message(&m);
    bytes[29] = 7;
    assert_eq!(decode_server_message(&bytes), Err(DecodeError::Malformed));
}

fn sample_snapshot() -> NetworkedEntities {
    NetworkedEntities {
        players: vec![
            PlayerEntry {
                entity: 11,
                translation: v3(10.0, -3.5, 0.0),
                sprite_index: 2,
                sprite_flip_x: true,
                player_texture_entity_type: PlayerTextureType::Rick1,
                weapon_texture_entity_type: WeaponTextureType::Rifle,
                aim_direction: 0.75f32.to_bits(),
            },
            PlayerEntry {
                entity: 12,
                translation: v3(0.0, 0.0, 5.0),
                sprite_index: 0,
                sprite_flip_x: false,
                player_texture_entity_type: PlayerTextureType::Rick2,
                weapon_texture_entity_type: WeaponTextureType::Pistol,
                aim_direction: 0,
            },
        ],
        projectiles: vec![ProjectileEntry {
            entity: 40,
            translation: v3(1.0, 2.0, 3.0),
            sprite_index: 1,
            sprite_flip_y: true,
        }],
        weapon_fx_texture_type: WeaponFxTextureEntityType::Rifle,
    }
}

#[test]
fn snapshot_round_trip() {
    let m = sample_snapshot();
    let bytes = encode_snapshot(&m);
    assert_eq!(bytes.len(), 9 + 31 * 2 + 25);
    assert_eq!(decode_snapshot(&bytes), Ok(m));
}

#[test]
fn empty_snapshot_round_trip() {
    let m = NetworkedEntities::new(WeaponFxTextureEntityType::Pistol);
    let bytes = encode_snapshot(&m);
    assert_eq!(bytes.len(), 9);
    assert_eq!(decode_snapshot(&bytes), Ok(m));
}

#[test]
fn snapshot_rejects_short_header() {
    assert_eq!(decode_snapshot(&vec![0u8; 8]), Err(DecodeError::Malformed));
}

#[test]
fn snapshot_rejects_length_mismatch() {
    let mut bytes = encode_snapshot(&sample_snapshot());
    bytes.push(0);
    assert_eq!(decode_snapshot(&bytes), Err(DecodeError::Malformed));
    bytes.pop();
    bytes.pop();
    assert_eq!(decode_snapshot(&bytes), Err(DecodeError::Malformed));
}

#[test]
fn snapshot_rejects_oversized_count() {
    // Header claiming 5000 players, far over the entity bound.
    let mut bytes = vec![0u8; 9];
    bytes[0] = 0x88;
    bytes[1] = 0x13;
    assert_eq!(decode_snapshot(&bytes), Err(DecodeError::Malformed));
}

#[test]
fn snapshot_rejects_bad_flip_byte() {
    let mut bytes = encode_snapshot(&sample_snapshot());
    // The flip flag of the first player row sits 24 bytes into the row.
    bytes[9 + 24] = 3;
    assert_eq!(decode_snapshot(&bytes), Err(DecodeError::Malformed));
}

#[test]
fn translation_bits_survive_exactly() {
    let t = v3(f32::MIN_POSITIVE, -0.0, 123456.789);
    let m = ServerMessages::PlayerCreate {
        id: 0,
        entity: 0,
        translation: t,
        player_texture_entity_type: PlayerTextureType::Rick1,
        weapon_texture_entity_type: WeaponTextureType::Pistol,
    };
    match decode_server_message(&encode_server_message(&m)) {
        Ok(ServerMessages::PlayerCreate { translation, .. }) => {
            assert_eq!(f32::from_bits(translation.x), f32::MIN_POSITIVE);
            assert_eq!(f32::from_bits(translation.y), -0.0);
            assert_eq!(f32::from_bits(translation.z), 123456.789);
        }
        other => panic!("unexpected decode result: {:?}", other),
    }
}

//! Binary codec for the wire messages.
//!
//! The format is fixed-layout and self-describing: integers travel
//! little-endian, booleans as one byte (`0` or `1`), enum tags as one byte,
//! and the snapshot prefixes its two blocks with their entry counts. For
//! every message kind a spec-level encoding (`..._bytes`) is the single
//! source of truth; encoders produce exactly those bytes, and each decoder
//! returns `Ok` precisely on the byte strings some well-formed message
//! encodes to, `Err(DecodeError)` on all others. Together with the proved
//! injectivity lemmas this gives the round trip: decoding an encoding yields
//! the encoded message, and nothing else.

use vstd::prelude::*;

use crate::bytes::{
    bool_byte, lemma_u32_le_inverse, lemma_u64_le_inverse, push_bool, push_u32, push_u64,
    read_bool, read_u32, read_u64, u32_le, u64_le,
};
use crate::messages::{
    NetworkedEntities, PlayerEntry, PlayerInput, PlayerTextureType, ProjectileEntry,
    ServerMessages, Vec3Bits, WeaponFxTextureEntityType, WeaponTextureType, MAX_ENTITIES,
};

verus! {

/// Malformed or truncated message bytes. Decoding failures are recovered
/// locally: the receiver discards the one message and keeps reading.
#[derive(Clone, Copy, PartialEq, Eq, Structural, Debug)]
pub enum DecodeError {
    Malformed,
}

/// Tag byte of `ServerMessages::PlayerCreate`.
pub const TAG_PLAYER_CREATE: u8 = 0;

/// Tag byte of `ServerMessages::PlayerRemove`.
pub const TAG_PLAYER_REMOVE: u8 = 1;

/// The tag byte of a player texture type.
pub open spec fn player_texture_byte(t: PlayerTextureType) -> u8 {
    match t {
        PlayerTextureType::Rick1 => 0,
        PlayerTextureType::Rick2 => 1,
    }
}

/// The tag byte of a weapon texture type.
pub open spec fn weapon_texture_byte(t: WeaponTextureType) -> u8 {
    match t {
        WeaponTextureType::Pistol => 0,
        WeaponTextureType::Shotgun => 1,
        WeaponTextureType::Rifle => 2,
        WeaponTextureType::GrenadeLauncher => 3,
    }
}

/// The tag byte of a weapon effect texture type.
pub open spec fn weapon_fx_texture_byte(t: WeaponFxTextureEntityType) -> u8 {
    match t {
        WeaponFxTextureEntityType::Pistol => 0,
        WeaponFxTextureEntityType::Shotgun => 1,
        WeaponFxTextureEntityType::Rifle => 2,
        WeaponFxTextureEntityType::GrenadeLauncher => 3,
    }
}

/// The twelve bytes of a translation: x, y, z components in order.
pub open spec fn vec3_bytes(v: Vec3Bits) -> Seq<u8> {
    u32_le(v.x) + u32_le(v.y) + u32_le(v.z)
}

/// The ten bytes of a `PlayerInput`: five movement flags, the aim direction,
/// the shoot flag.
pub open spec fn input_bytes(m: PlayerInput) -> Seq<u8> {
    seq![
        bool_byte(m.up),
        bool_byte(m.down),
        bool_byte(m.left),
        bool_byte(m.right),
        bool_byte(m.jump),
    ] + u32_le(m.aim_direction) + seq![bool_byte(m.shoot)]
}

/// Layout facts of `vec3_bytes`, for carving a translation out of a buffer.
pub proof fn lemma_vec3_bytes_facts(v: Vec3Bits)
    ensures
        vec3_bytes(v).len() == 12,
        vec3_bytes(v).subrange(0, 4) == u32_le(v.x),
        vec3_bytes(v).subrange(4, 8) == u32_le(v.y),
        vec3_bytes(v).subrange(8, 12) == u32_le(v.z),
{
    assert(vec3_bytes(v).subrange(0, 4) =~= u32_le(v.x));
    assert(vec3_bytes(v).subrange(4, 8) =~= u32_le(v.y));
    assert(vec3_bytes(v).subrange(8, 12) =~= u32_le(v.z));
}

/// Two translations with the same bytes are the same translation.
pub proof fn lemma_vec3_bytes_injective(a: Vec3Bits, b: Vec3Bits)
    requires
        vec3_bytes(a) == vec3_bytes(b),
    ensures
        a == b,
{
    lemma_vec3_bytes_facts(a);
    lemma_vec3_bytes_facts(b);
    lemma_u32_le_inverse(a.x);
    lemma_u32_le_inverse(b.x);
    lemma_u32_le_inverse(a.y);
    lemma_u32_le_inverse(b.y);
    lemma_u32_le_inverse(a.z);
    lemma_u32_le_inverse(b.z);
}

/// Layout facts of `input_bytes`.
pub proof fn lemma_input_bytes_facts(m: PlayerInput)
    ensures
        input_bytes(m).len() == 10,
        input_bytes(m)[0] == bool_byte(m.up),
        input_bytes(m)[1] == bool_byte(m.down),
        input_bytes(m)[2] == bool_byte(m.left),
        input_bytes(m)[3] == bool_byte(m.right),
        input_bytes(m)[4] == bool_byte(m.jump),
        input_bytes(m).subrange(5, 9) == u32_le(m.aim_direction),
        input_bytes(m)[9] == bool_byte(m.shoot),
{
    assert(input_bytes(m).subrange(5, 9) =~= u32_le(m.aim_direction));
}

/// Distinct inputs never share an encoding.
pub proof fn lemma_input_bytes_injective(a: PlayerInput, b: PlayerInput)
    requires
        input_bytes(a) == input_bytes(b),
    ensures
        a == b,
{
    lemma_input_bytes_facts(a);
    lemma_input_bytes_facts(b);
    lemma_u32_le_inverse(a.aim_direction);
    lemma_u32_le_inverse(b.aim_direction);
}

/// Appends the translation's twelve bytes.
fn push_vec3(out: &mut Vec<u8>, v: &Vec3Bits)
    ensures
        final(out)@ == old(out)@ + vec3_bytes(*v),
{
    push_u32(out, v.x);
    push_u32(out, v.y);
    push_u32(out, v.z);
    proof {
        assert(out@ =~= old(out)@ + vec3_bytes(*v));
    }
}

/// Reads the translation whose bytes start at `i`.
fn read_vec3(s: &Vec<u8>, i: usize) -> (r: Vec3Bits)
    requires
        i + 12 <= s@.len(),
    ensures
        s@.subrange(i as int, i + 12) == vec3_bytes(r),
{
    let _n = s.len();
    let x = read_u32(s, i);
    let y = read_u32(s, i + 4);
    let z = read_u32(s, i + 8);
    let r = Vec3Bits { x, y, z };
    proof {
        assert(s@.subrange(i as int, i + 12) =~= s@.subrange(i as int, i + 4) + s@.subrange(
            i + 4,
            i + 8,
        ) + s@.subrange(i + 8, i + 12));
    }
    r
}

/// Appends the tag byte of a player texture type.
fn push_player_texture(out: &mut Vec<u8>, t: PlayerTextureType)
    ensures
        final(out)@ == old(out)@ + seq![player_texture_byte(t)],
{
    out.push(match t {
        PlayerTextureType::Rick1 => 0,
        PlayerTextureType::Rick2 => 1,
    });
    proof {
        assert(out@ =~= old(out)@ + seq![player_texture_byte(t)]);
    }
}

/// Reads the player texture tag at `i`; tags above the last variant are
/// malformed.
fn read_player_texture(s: &Vec<u8>, i: usize) -> (r: Option<PlayerTextureType>)
    requires
        i < s@.len(),
    ensures
        (match r {
            Some(t) => s@[i as int] == player_texture_byte(t),
            None => forall|t: PlayerTextureType| s@[i as int] != player_texture_byte(t),
        }),
{
    if s[i] == 0 {
        Some(PlayerTextureType::Rick1)
    } else if s[i] == 1 {
        Some(PlayerTextureType::Rick2)
    } else {
        None
    }
}

/// Appends the tag byte of a weapon texture type.
fn push_weapon_texture(out: &mut Vec<u8>, t: WeaponTextureType)
    ensures
        final(out)@ == old(out)@ + seq![weapon_texture_byte(t)],
{
    out.push(match t {
        WeaponTextureType::Pistol => 0,
        WeaponTextureType::Shotgun => 1,
        WeaponTextureType::Rifle => 2,
        WeaponTextureType::GrenadeLauncher => 3,
    });
    proof {
        assert(out@ =~= old(out)@ + seq![weapon_texture_byte(t)]);
    }
}

/// Reads the weapon texture tag at `i`.
fn read_weapon_texture(s: &Vec<u8>, i: usize) -> (r: Option<WeaponTextureType>)
    requires
        i < s@.len(),
    ensures
        (match r {
            Some(t) => s@[i as int] == weapon_texture_byte(t),
            None => forall|t: WeaponTextureType| s@[i as int] != weapon_texture_byte(t),
        }),
{
    if s[i] == 0 {
        Some(WeaponTextureType::Pistol)
    } else if s[i] == 1 {
        Some(WeaponTextureType::Shotgun)
    } else if s[i] == 2 {
        Some(WeaponTextureType::Rifle)
    } else if s[i] == 3 {
        Some(WeaponTextureType::GrenadeLauncher)
    } else {
        None
    }
}

/// Appends the tag byte of a weapon effect texture type.
fn push_weapon_fx_texture(out: &mut Vec<u8>, t: WeaponFxTextureEntityType)
    ensures
        final(out)@ == old(out)@ + seq![weapon_fx_texture_byte(t)],
{
    out.push(match t {
        WeaponFxTextureEntityType::Pistol => 0,
        WeaponFxTextureEntityType::Shotgun => 1,
        WeaponFxTextureEntityType::Rifle => 2,
        WeaponFxTextureEntityType::GrenadeLauncher => 3,
    });
    proof {
        assert(out@ =~= old(out)@ + seq![weapon_fx_texture_byte(t)]);
    }
}

/// Reads the weapon effect texture tag at `i`.
fn read_weapon_fx_texture(s: &Vec<u8>, i: usize) -> (r: Option<WeaponFxTextureEntityType>)
    requires
        i < s@.len(),
    ensures
        (match r {
            Some(t) => s@[i as int] == weapon_fx_texture_byte(t),
            None => forall|t: WeaponFxTextureEntityType| s@[i as int] != weapon_fx_texture_byte(t),
        }),
{
    if s[i] == 0 {
        Some(WeaponFxTextureEntityType::Pistol)
    } else if s[i] == 1 {
        Some(WeaponFxTextureEntityType::Shotgun)
    } else if s[i] == 2 {
        Some(WeaponFxTextureEntityType::Rifle)
    } else if s[i] == 3 {
        Some(WeaponFxTextureEntityType::GrenadeLauncher)
    } else {
        None
    }
}

/// Encodes a `PlayerInput` into its ten wire bytes.
pub fn encode_input(m: &PlayerInput) -> (out: Vec<u8>)
    ensures
        out@ == input_bytes(*m),
{
    let mut out: Vec<u8> = Vec::new();
    push_bool(&mut out, m.up);
    push_bool(&mut out, m.down);
    push_bool(&mut out, m.left);
    push_bool(&mut out, m.right);
    push_bool(&mut out, m.jump);
    push_u32(&mut out, m.aim_direction);
    push_bool(&mut out, m.shoot);
    proof {
        assert(out@ =~= input_bytes(*m));
    }
    out
}

/// Decodes a `PlayerInput`; returns `Ok` exactly on the byte strings some
/// input encodes to, and then on the input that encodes to them.
pub fn decode_input(bytes: &Vec<u8>) -> (r: Result<PlayerInput, DecodeError>)
    ensures
        (match r {
            Ok(m) => bytes@ == input_bytes(m),
            Err(_) => forall|m: PlayerInput| bytes@ != input_bytes(m),
        }),
{
    if bytes.len() != 10 {
        proof {
            assert forall|m: PlayerInput| bytes@ != input_bytes(m) by {
                lemma_input_bytes_facts(m);
            }
        }
        return Err(DecodeError::Malformed);
    }
    let up = match read_bool(bytes, 0) {
        Some(b) => b,
        None => {
            proof {
                assert forall|m: PlayerInput| bytes@ != input_bytes(m) by {
                    lemma_input_bytes_facts(m);
                }
            }
            return Err(DecodeError::Malformed);
        },
    };
    let down = match read_bool(bytes, 1) {
        Some(b) => b,
        None => {
            proof {
                assert forall|m: PlayerInput| bytes@ != input_bytes(m) by {
                    lemma_input_bytes_facts(m);
                }
            }
            return Err(DecodeError::Malformed);
        },
    };
    let left = match read_bool(bytes, 2) {
        Some(b) => b,
        None => {
            proof {
                assert forall|m: PlayerInput| bytes@ != input_bytes(m) by {
                    lemma_input_bytes_facts(m);
                }
            }
            return Err(DecodeError::Malformed);
        },
    };
    let right = match read_bool(bytes, 3) {
        Some(b) => b,
        None => {
            proof {
                assert forall|m: PlayerInput| bytes@ != input_bytes(m) by {
                    lemma_input_bytes_facts(m);
                }
            }
            return Err(DecodeError::Malformed);
        },
    };
    let jump = match read_bool(bytes, 4) {
        Some(b) => b,
        None => {
            proof {
                assert forall|m: PlayerInput| bytes@ != input_bytes(m) by {
                    lemma_input_bytes_facts(m);
                }
            }
            return Err(DecodeError::Malformed);
        },
    };
    let aim_direction = read_u32(bytes, 5);
    let shoot = match read_bool(bytes, 9) {
        Some(b) => b,
        None => {
            proof {
                assert forall|m: PlayerInput| bytes@ != input_bytes(m) by {
                    lemma_input_bytes_facts(m);
                }
            }
            return Err(DecodeError::Malformed);
        },
    };
    let m = PlayerInput { up, down, left, right, jump, aim_direction, shoot };
    proof {
        lemma_input_bytes_facts(m);
        assert forall|i: int| 0 <= i < 10 implies bytes@[i] == input_bytes(m)[i] by {
            if 5 <= i < 9 {
                assert(input_bytes(m)[i] == u32_le(m.aim_direction)[i - 5]);
                assert(bytes@.subrange(5, 9)[i - 5] == bytes@[i]);
            }
        }
        assert(bytes@ =~= input_bytes(m));
    }
    Ok(m)
}

/// The bytes of a lifecycle event: a tag byte, then the variant's fields.
/// `PlayerCreate` takes 31 bytes, `PlayerRemove` 9.
pub open spec fn server_message_bytes(m: ServerMessages) -> Seq<u8> {
    match m {
        ServerMessages::PlayerCreate {
            id,
            entity,
            translation,
            player_texture_entity_type,
            weapon_texture_entity_type,
        } => seq![TAG_PLAYER_CREATE] + u64_le(id) + u64_le(entity) + vec3_bytes(translation)
            + seq![
            player_texture_byte(player_texture_entity_type),
            weapon_texture_byte(weapon_texture_entity_type),
        ],
        ServerMessages::PlayerRemove { id } => seq![TAG_PLAYER_REMOVE] + u64_le(id),
    }
}

/// Layout facts of `server_message_bytes`.
pub proof fn lemma_server_message_bytes_facts(m: ServerMessages)
    ensures
        (m matches ServerMessages::PlayerCreate {
            id,
            entity,
            translation,
            player_texture_entity_type,
            weapon_texture_entity_type,
        } ==> server_message_bytes(m).len() == 31 && server_message_bytes(m)[0]
            == TAG_PLAYER_CREATE && server_message_bytes(m).subrange(1, 9) == u64_le(id)
            && server_message_bytes(m).subrange(9, 17) == u64_le(entity)
            && server_message_bytes(m).subrange(17, 29) == vec3_bytes(translation)
            && server_message_bytes(m)[29] == player_texture_byte(player_texture_entity_type)
            && server_message_bytes(m)[30] == weapon_texture_byte(weapon_texture_entity_type)),
        (m matches ServerMessages::PlayerRemove { id } ==> server_message_bytes(m).len() == 9
            && server_message_bytes(m)[0] == TAG_PLAYER_REMOVE && server_message_bytes(
            m,
        ).subrange(1, 9) == u64_le(id)),
{
    match m {
        ServerMessages::PlayerCreate { id, entity, translation, .. } => {
            assert(server_message_bytes(m).subrange(1, 9) =~= u64_le(id));
            assert(server_message_bytes(m).subrange(9, 17) =~= u64_le(entity));
            assert(server_message_bytes(m).subrange(17, 29) =~= vec3_bytes(translation));
        },
        ServerMessages::PlayerRemove { id } => {
            assert(server_message_bytes(m).subrange(1, 9) =~= u64_le(id));
        },
    }
}

/// Distinct lifecycle events never share an encoding.
pub proof fn lemma_server_message_bytes_injective(a: ServerMessages, b: ServerMessages)
    requires
        server_message_bytes(a) == server_message_bytes(b),
    ensures
        a == b,
{
    lemma_server_message_bytes_facts(a);
    lemma_server_message_bytes_facts(b);
    match (a, b) {
        (
            ServerMessages::PlayerCreate { id: ia, entity: ea, translation: ta, .. },
            ServerMessages::PlayerCreate { id: ib, entity: eb, translation: tb, .. },
        ) => {
            lemma_u64_le_inverse(ia);
            lemma_u64_le_inverse(ib);
            lemma_u64_le_inverse(ea);
            lemma_u64_le_inverse(eb);
            lemma_vec3_bytes_injective(ta, tb);
        },
        (ServerMessages::PlayerRemove { id: ia }, ServerMessages::PlayerRemove { id: ib }) => {
            lemma_u64_le_inverse(ia);
            lemma_u64_le_inverse(ib);
        },
        _ => {},
    }
}

/// Encodes a lifecycle event into its wire bytes.
pub fn encode_server_message(m: &ServerMessages) -> (out: Vec<u8>)
    ensures
        out@ == server_message_bytes(*m),
{
    let mut out: Vec<u8> = Vec::new();
    match m {
        ServerMessages::PlayerCreate {
            id,
            entity,
            translation,
            player_texture_entity_type,
            weapon_texture_entity_type,
        } => {
            out.push(TAG_PLAYER_CREATE);
            push_u64(&mut out, *id);
            push_u64(&mut out, *entity);
            push_vec3(&mut out, translation);
            push_player_texture(&mut out, *player_texture_entity_type);
            push_weapon_texture(&mut out, *weapon_texture_entity_type);
        },
        ServerMessages::PlayerRemove { id } => {
            out.push(TAG_PLAYER_REMOVE);
            push_u64(&mut out, *id);
        },
    }
    proof {
        assert(out@ =~= server_message_bytes(*m));
    }
    out
}

/// Decodes a lifecycle event; returns `Ok` exactly on the byte strings some
/// event encodes to, and then on the event that encodes to them.
pub fn decode_server_message(bytes: &Vec<u8>) -> (r: Result<ServerMessages, DecodeError>)
    ensures
        (match r {
            Ok(m) => bytes@ == server_message_bytes(m),
            Err(_) => forall|m: ServerMessages| bytes@ != server_message_bytes(m),
        }),
{
    if bytes.len() == 0 {
        proof {
            assert forall|m: ServerMessages| bytes@ != server_message_bytes(m) by {
                lemma_server_message_bytes_facts(m);
            }
        }
        return Err(DecodeError::Malformed);
    }
    let tag = bytes[0];
    if tag == TAG_PLAYER_CREATE {
        if bytes.len() != 31 {
            proof {
                assert forall|m: ServerMessages| bytes@ != server_message_bytes(m) by {
                    lemma_server_message_bytes_facts(m);
                }
            }
            return Err(DecodeError::Malformed);
        }
        let id = read_u64(bytes, 1);
        let entity = read_u64(bytes, 9);
        let translation = read_vec3(bytes, 17);
        let player_texture_entity_type = match read_player_texture(bytes, 29) {
            Some(t) => t,
            None => {
                proof {
                    assert forall|m: ServerMessages| bytes@ != server_message_bytes(m) by {
                        lemma_server_message_bytes_facts(m);
                    }
                }
                return Err(DecodeError::Malformed);
            },
        };
        let weapon_texture_entity_type = match read_weapon_texture(bytes, 30) {
            Some(t) => t,
            None => {
                proof {
                    assert forall|m: ServerMessages| bytes@ != server_message_bytes(m) by {
                        lemma_server_message_bytes_facts(m);
                    }
                }
                return Err(DecodeError::Malformed);
            },
        };
        let m = ServerMessages::PlayerCreate {
            id,
            entity,
            translation,
            player_texture_entity_type,
            weapon_texture_entity_type,
        };
        proof {
            lemma_server_message_bytes_facts(m);
            assert forall|i: int| 0 <= i < 31 implies bytes@[i] == server_message_bytes(m)[i] by {
                if 1 <= i < 9 {
                    assert(server_message_bytes(m)[i] == u64_le(id)[i - 1]);
                    assert(bytes@.subrange(1, 9)[i - 1] == bytes@[i]);
                } else if 9 <= i < 17 {
                    assert(server_message_bytes(m)[i] == u64_le(entity)[i - 9]);
                    assert(bytes@.subrange(9, 17)[i - 9] == bytes@[i]);
                } else if 17 <= i < 29 {
                    assert(server_message_bytes(m)[i] == vec3_bytes(translation)[i - 17]);
                    assert(bytes@.subrange(17, 29)[i - 17] == bytes@[i]);
                }
            }
            assert(bytes@ =~= server_message_bytes(m));
        }
        Ok(m)
    } else if tag == TAG_PLAYER_REMOVE {
        if bytes.len() != 9 {
            proof {
                assert forall|m: ServerMessages| bytes@ != server_message_bytes(m) by {
                    lemma_server_message_bytes_facts(m);
                }
            }
            return Err(DecodeError::Malformed);
        }
        let id = read_u64(bytes, 1);
        let m = ServerMessages::PlayerRemove { id };
        proof {
            lemma_server_message_bytes_facts(m);
            assert forall|i: int| 0 <= i < 9 implies bytes@[i] == server_message_bytes(m)[i] by {
                if 1 <= i < 9 {
                    assert(server_message_bytes(m)[i] == u64_le(id)[i - 1]);
                    assert(bytes@.subrange(1, 9)[i - 1] == bytes@[i]);
                }
            }
            assert(bytes@ =~= server_message_bytes(m));
        }
        Ok(m)
    } else {
        proof {
            assert forall|m: ServerMessages| bytes@ != server_message_bytes(m) by {
                lemma_server_message_bytes_facts(m);
            }
        }
        Err(DecodeError::Malformed)
    }
}

/// Byte length of one player row.
pub const PLAYER_ENTRY_LEN: usize = 31;

/// Byte length of one projectile row.
pub const PROJECTILE_ENTRY_LEN: usize = 25;

/// Byte length of the snapshot header: two block counts and the projectile
/// texture tag.
pub const SNAPSHOT_HEADER_LEN: usize = 9;

/// The 31 bytes of one player row.
pub open spec fn player_entry_bytes(e: PlayerEntry) -> Seq<u8> {
    u64_le(e.entity) + vec3_bytes(e.translation) + u32_le(e.sprite_index) + seq![
        bool_byte(e.sprite_flip_x),
        player_texture_byte(e.player_texture_entity_type),
        weapon_texture_byte(e.weapon_texture_entity_type),
    ] + u32_le(e.aim_direction)
}

/// The 25 bytes of one projectile row.
pub open spec fn projectile_entry_bytes(e: ProjectileEntry) -> Seq<u8> {
    u64_le(e.entity) + vec3_bytes(e.translation) + u32_le(e.sprite_index) + seq![
        bool_byte(e.sprite_flip_y),
    ]
}

/// The player block: each row's bytes in order.
pub open spec fn player_entries_bytes(es: Seq<PlayerEntry>) -> Seq<u8>
    decreases es.len(),
{
    if es.len() == 0 {
        Seq::empty()
    } else {
        player_entries_bytes(es.drop_last()) + player_entry_bytes(es.last())
    }
}

/// The projectile block: each row's bytes in order.
pub open spec fn projectile_entries_bytes(es: Seq<ProjectileEntry>) -> Seq<u8>
    decreases es.len(),
{
    if es.len() == 0 {
        Seq::empty()
    } else {
        projectile_entries_bytes(es.drop_last()) + projectile_entry_bytes(es.last())
    }
}

/// The snapshot wire layout: both block counts, the snapshot-wide projectile
/// texture tag, then the player block and the projectile block.
pub open spec fn snapshot_bytes(m: NetworkedEntities) -> Seq<u8> {
    u32_le(m.players@.len() as u32) + u32_le(m.projectiles@.len() as u32) + seq![
        weapon_fx_texture_byte(m.weapon_fx_texture_type),
    ] + player_entries_bytes(m.players@) + projectile_entries_bytes(m.projectiles@)
}

/// Layout facts of `player_entry_bytes`.
pub proof fn lemma_player_entry_bytes_facts(e: PlayerEntry)
    ensures
        player_entry_bytes(e).len() == 31,
        player_entry_bytes(e).subrange(0, 8) == u64_le(e.entity),
        player_entry_bytes(e).subrange(8, 20) == vec3_bytes(e.translation),
        player_entry_bytes(e).subrange(20, 24) == u32_le(e.sprite_index),
        player_entry_bytes(e)[24] == bool_byte(e.sprite_flip_x),
        player_entry_bytes(e)[25] == player_texture_byte(e.player_texture_entity_type),
        player_entry_bytes(e)[26] == weapon_texture_byte(e.weapon_texture_entity_type),
        player_entry_bytes(e).subrange(27, 31) == u32_le(e.aim_direction),
{
    assert(player_entry_bytes(e).subrange(0, 8) =~= u64_le(e.entity));
    assert(player_entry_bytes(e).subrange(8, 20) =~= vec3_bytes(e.translation));
    assert(player_entry_bytes(e).subrange(20, 24) =~= u32_le(e.sprite_index));
    assert(player_entry_bytes(e).subrange(27, 31) =~= u32_le(e.aim_direction));
}

/// Layout facts of `projectile_entry_bytes`.
pub proof fn lemma_projectile_entry_bytes_facts(e: ProjectileEntry)
    ensures
        projectile_entry_bytes(e).len() == 25,
        projectile_entry_bytes(e).subrange(0, 8) == u64_le(e.entity),
        projectile_entry_bytes(e).subrange(8, 20) == vec3_bytes(e.translation),
        projectile_entry_bytes(e).subrange(20, 24) == u32_le(e.sprite_index),
        projectile_entry_bytes(e)[24] == bool_byte(e.sprite_flip_y),
{
    assert(projectile_entry_bytes(e).subrange(0, 8) =~= u64_le(e.entity));
    assert(projectile_entry_bytes(e).subrange(8, 20) =~= vec3_bytes(e.translation));
    assert(projectile_entry_bytes(e).subrange(20, 24) =~= u32_le(e.sprite_index));
}

/// Distinct player rows never share an encoding.
pub proof fn lemma_player_entry_bytes_injective(a: PlayerEntry, b: PlayerEntry)
    requires
        player_entry_bytes(a) == player_entry_bytes(b),
    ensures
        a == b,
{
    lemma_player_entry_bytes_facts(a);
    lemma_player_entry_bytes_facts(b);
    lemma_u64_le_inverse(a.entity);
    lemma_u64_le_inverse(b.entity);
    lemma_vec3_bytes_injective(a.translation, b.translation);
    lemma_u32_le_inverse(a.sprite_index);
    lemma_u32_le_inverse(b.sprite_index);
    lemma_u32_le_inverse(a.aim_direction);
    lemma_u32_le_inverse(b.aim_direction);
}

/// Distinct projectile rows never share an encoding.
pub proof fn lemma_projectile_entry_bytes_injective(a: ProjectileEntry, b: ProjectileEntry)
    requires
        projectile_entry_bytes(a) == projectile_entry_bytes(b),
    ensures
        a == b,
{
    lemma_projectile_entry_bytes_facts(a);
    lemma_projectile_entry_bytes_facts(b);
    lemma_u64_le_inverse(a.entity);
    lemma_u64_le_inverse(b.entity);
    lemma_vec3_bytes_injective(a.translation, b.translation);
    lemma_u32_le_inverse(a.sprite_index);
    lemma_u32_le_inverse(b.sprite_index);
}

/// A player block's length is 31 bytes per row.
pub proof fn lemma_player_entries_bytes_len(es: Seq<PlayerEntry>)
    ensures
        player_entries_bytes(es).len() == 31 * es.len(),
    decreases es.len(),
{
    if es.len() > 0 {
        lemma_player_entries_bytes_len(es.drop_last());
        lemma_player_entry_bytes_facts(es.last());
    }
}

/// A projectile block's length is 25 bytes per row.
pub proof fn lemma_projectile_entries_bytes_len(es: Seq<ProjectileEntry>)
    ensures
        projectile_entries_bytes(es).len() == 25 * es.len(),
    decreases es.len(),
{
    if es.len() > 0 {
        lemma_projectile_entries_bytes_len(es.drop_last());
        lemma_projectile_entry_bytes_facts(es.last());
    }
}

/// Row `k` of a player block sits at byte offset `31 * k`.
pub proof fn lemma_player_entries_bytes_index(es: Seq<PlayerEntry>, k: int)
    requires
        0 <= k < es.len(),
    ensures
        player_entries_bytes(es).subrange(31 * k, 31 * k + 31) == player_entry_bytes(es[k]),
    decreases es.len(),
{
    lemma_player_entries_bytes_len(es);
    lemma_player_entries_bytes_len(es.drop_last());
    lemma_player_entry_bytes_facts(es.last());
    if k == es.len() - 1 {
        assert(player_entries_bytes(es).subrange(31 * k, 31 * k + 31) =~= player_entry_bytes(
            es.last(),
        ));
    } else {
        lemma_player_entries_bytes_index(es.drop_last(), k);
        assert(player_entries_bytes(es).subrange(31 * k, 31 * k + 31) =~= player_entries_bytes(
            es.drop_last(),
        ).subrange(31 * k, 31 * k + 31));
    }
}

/// Row `k` of a projectile block sits at byte offset `25 * k`.
pub proof fn lemma_projectile_entries_bytes_index(es: Seq<ProjectileEntry>, k: int)
    requires
        0 <= k < es.len(),
    ensures
        projectile_entries_bytes(es).subrange(25 * k, 25 * k + 25) == projectile_entry_bytes(
            es[k],
        ),
    decreases es.len(),
{
    lemma_projectile_entries_bytes_len(es);
    lemma_projectile_entries_bytes_len(es.drop_last());
    lemma_projectile_entry_bytes_facts(es.last());
    if k == es.len() - 1 {
        assert(projectile_entries_bytes(es).subrange(25 * k, 25 * k + 25)
            =~= projectile_entry_bytes(es.last()));
    } else {
        lemma_projectile_entries_bytes_index(es.drop_last(), k);
        assert(projectile_entries_bytes(es).subrange(25 * k, 25 * k + 25)
            =~= projectile_entries_bytes(es.drop_last()).subrange(25 * k, 25 * k + 25));
    }
}

/// Layout facts of `snapshot_bytes` for a well-formed snapshot, including
/// that the header's counts read back as the block lengths.
pub proof fn lemma_snapshot_bytes_facts(m: NetworkedEntities)
    requires
        m.wf(),
    ensures
        snapshot_bytes(m).len() == 9 + 31 * m.players@.len() + 25 * m.projectiles@.len(),
        snapshot_bytes(m).subrange(0, 4) == u32_le(m.players@.len() as u32),
        snapshot_bytes(m).subrange(4, 8) == u32_le(m.projectiles@.len() as u32),
        crate::bytes::u32_from_le(snapshot_bytes(m).subrange(0, 4)) == m.players@.len() as u32,
        crate::bytes::u32_from_le(snapshot_bytes(m).subrange(4, 8)) == m.projectiles@.len()
            as u32,
        snapshot_bytes(m)[8] == weapon_fx_texture_byte(m.weapon_fx_texture_type),
        snapshot_bytes(m).subrange(9, 9 + 31 * m.players@.len() as int) == player_entries_bytes(
            m.players@,
        ),
        snapshot_bytes(m).subrange(
            9 + 31 * m.players@.len() as int,
            snapshot_bytes(m).len() as int,
        ) == projectile_entries_bytes(m.projectiles@),
{
    lemma_player_entries_bytes_len(m.players@);
    lemma_projectile_entries_bytes_len(m.projectiles@);
    assert(snapshot_bytes(m).subrange(0, 4) =~= u32_le(m.players@.len() as u32));
    assert(snapshot_bytes(m).subrange(4, 8) =~= u32_le(m.projectiles@.len() as u32));
    lemma_u32_le_inverse(m.players@.len() as u32);
    lemma_u32_le_inverse(m.projectiles@.len() as u32);
    assert(snapshot_bytes(m).subrange(9, 9 + 31 * m.players@.len() as int) =~= player_entries_bytes(
        m.players@,
    ));
    assert(snapshot_bytes(m).subrange(9 + 31 * m.players@.len() as int, snapshot_bytes(m).len() as int)
        =~= projectile_entries_bytes(m.projectiles@));
}

/// Well-formed snapshots with the same bytes describe the same entities.
pub proof fn lemma_snapshot_bytes_injective(a: NetworkedEntities, b: NetworkedEntities)
    requires
        a.wf(),
        b.wf(),
        snapshot_bytes(a) == snapshot_bytes(b),
    ensures
        a.players@ == b.players@,
        a.projectiles@ == b.projectiles@,
        a.weapon_fx_texture_type == b.weapon_fx_texture_type,
{
    lemma_snapshot_bytes_facts(a);
    lemma_snapshot_bytes_facts(b);
    assert(a.players@.len() as u32 == b.players@.len() as u32);
    assert(a.players@.len() == b.players@.len());
    assert(a.projectiles@.len() == b.projectiles@.len());
    assert forall|k: int| 0 <= k < a.players@.len() implies a.players@[k] == b.players@[k] by {
        lemma_player_entries_bytes_index(a.players@, k);
        lemma_player_entries_bytes_index(b.players@, k);
        lemma_player_entry_bytes_injective(a.players@[k], b.players@[k]);
    }
    assert(a.players@ =~= b.players@);
    assert forall|k: int| 0 <= k < a.projectiles@.len() implies a.projectiles@[k]
        == b.projectiles@[k] by {
        lemma_projectile_entries_bytes_index(a.projectiles@, k);
        lemma_projectile_entries_bytes_index(b.projectiles@, k);
        lemma_projectile_entry_bytes_injective(a.projectiles@[k], b.projectiles@[k]);
    }
    assert(a.projectiles@ =~= b.projectiles@);
}

/// Appends one player row.
fn push_player_entry(out: &mut Vec<u8>, e: &PlayerEntry)
    ensures
        final(out)@ == old(out)@ + player_entry_bytes(*e),
{
    push_u64(out, e.entity);
    push_vec3(out, &e.translation);
    push_u32(out, e.sprite_index);
    push_bool(out, e.sprite_flip_x);
    push_player_texture(out, e.player_texture_entity_type);
    push_weapon_texture(out, e.weapon_texture_entity_type);
    push_u32(out, e.aim_direction);
    proof {
        assert(out@ =~= old(out)@ + player_entry_bytes(*e));
    }
}

/// Appends one projectile row.
fn push_projectile_entry(out: &mut Vec<u8>, e: &ProjectileEntry)
    ensures
        final(out)@ == old(out)@ + projectile_entry_bytes(*e),
{
    push_u64(out, e.entity);
    push_vec3(out, &e.translation);
    push_u32(out, e.sprite_index);
    push_bool(out, e.sprite_flip_y);
    proof {
        assert(out@ =~= old(out)@ + projectile_entry_bytes(*e));
    }
}

/// Reads the player row starting at `off`.
fn decode_player_entry(s: &Vec<u8>, off: usize) -> (r: Option<PlayerEntry>)
    requires
        off + 31 <= s@.len(),
    ensures
        (match r {
            Some(e) => s@.subrange(off as int, off + 31) == player_entry_bytes(e),
            None => forall|e: PlayerEntry| s@.subrange(off as int, off + 31)
                != player_entry_bytes(e),
        }),
{
    let _n = s.len();
    let entity = read_u64(s, off);
    let translation = read_vec3(s, off + 8);
    let sprite_index = read_u32(s, off + 20);
    let sprite_flip_x = match read_bool(s, off + 24) {
        Some(b) => b,
        None => {
            proof {
                assert forall|e: PlayerEntry| s@.subrange(off as int, off + 31)
                    != player_entry_bytes(e) by {
                    lemma_player_entry_bytes_facts(e);
                    assert(s@.subrange(off as int, off + 31)[24] == s@[off + 24]);
                }
            }
            return None;
        },
    };
    let player_texture_entity_type = match read_player_texture(s, off + 25) {
        Some(t) => t,
        None => {
            proof {
                assert forall|e: PlayerEntry| s@.subrange(off as int, off + 31)
                    != player_entry_bytes(e) by {
                    lemma_player_entry_bytes_facts(e);
                    assert(s@.subrange(off as int, off + 31)[25] == s@[off + 25]);
                }
            }
            return None;
        },
    };
    let weapon_texture_entity_type = match read_weapon_texture(s, off + 26) {
        Some(t) => t,
        None => {
            proof {
                assert forall|e: PlayerEntry| s@.subrange(off as int, off + 31)
                    != player_entry_bytes(e) by {
                    lemma_player_entry_bytes_facts(e);
                    assert(s@.subrange(off as int, off + 31)[26] == s@[off + 26]);
                }
            }
            return None;
        },
    };
    let aim_direction = read_u32(s, off + 27);
    let e = PlayerEntry {
        entity,
        translation,
        sprite_index,
        sprite_flip_x,
        player_texture_entity_type,
        weapon_texture_entity_type,
        aim_direction,
    };
    proof {
        lemma_player_entry_bytes_facts(e);
        let sub = s@.subrange(off as int, off + 31);
        assert forall|i: int| 0 <= i < 31 implies sub[i] == player_entry_bytes(e)[i] by {
            assert(sub[i] == s@[off + i]);
            if i < 8 {
                assert(player_entry_bytes(e)[i] == u64_le(e.entity)[i]);
                assert(s@.subrange(off as int, off + 8)[i] == s@[off + i]);
            } else if i < 20 {
                assert(player_entry_bytes(e)[i] == vec3_bytes(e.translation)[i - 8]);
                assert(s@.subrange(off + 8, off + 20)[i - 8] == s@[off + i]);
            } else if i < 24 {
                assert(player_entry_bytes(e)[i] == u32_le(e.sprite_index)[i - 20]);
                assert(s@.subrange(off + 20, off + 24)[i - 20] == s@[off + i]);
            } else if i >= 27 {
                assert(player_entry_bytes(e)[i] == u32_le(e.aim_direction)[i - 27]);
                assert(s@.subrange(off + 27, off + 31)[i - 27] == s@[off + i]);
            }
        }
        assert(sub =~= player_entry_bytes(e));
    }
    Some(e)
}

/// Reads the projectile row starting at `off`.
fn decode_projectile_entry(s: &Vec<u8>, off: usize) -> (r: Option<ProjectileEntry>)
    requires
        off + 25 <= s@.len(),
    ensures
        (match r {
            Some(e) => s@.subrange(off as int, off + 25) == projectile_entry_bytes(e),
            None => forall|e: ProjectileEntry| s@.subrange(off as int, off + 25)
                != projectile_entry_bytes(e),
        }),
{
    let _n = s.len();
    let entity = read_u64(s, off);
    let translation = read_vec3(s, off + 8);
    let sprite_index = read_u32(s, off + 20);
    let sprite_flip_y = match read_bool(s, off + 24) {
        Some(b) => b,
        None => {
            proof {
                assert forall|e: ProjectileEntry| s@.subrange(off as int, off + 25)
                    != projectile_entry_bytes(e) by {
                    lemma_projectile_entry_bytes_facts(e);
                    assert(s@.subrange(off as int, off + 25)[24] == s@[off + 24]);
                }
            }
            return None;
        },
    };
    let e = ProjectileEntry { entity, translation, sprite_index, sprite_flip_y };
    proof {
        lemma_projectile_entry_bytes_facts(e);
        let sub = s@.subrange(off as int, off + 25);
        assert forall|i: int| 0 <= i < 25 implies sub[i] == projectile_entry_bytes(e)[i] by {
            assert(sub[i] == s@[off + i]);
            if i < 8 {
                assert(projectile_entry_bytes(e)[i] == u64_le(e.entity)[i]);
                assert(s@.subrange(off as int, off + 8)[i] == s@[off + i]);
            } else if i < 20 {
                assert(projectile_entry_bytes(e)[i] == vec3_bytes(e.translation)[i - 8]);
                assert(s@.subrange(off + 8, off + 20)[i - 8] == s@[off + i]);
            } else if i < 24 {
                assert(projectile_entry_bytes(e)[i] == u32_le(e.sprite_index)[i - 20]);
                assert(s@.subrange(off + 20, off + 24)[i - 20] == s@[off + i]);
            }
        }
        assert(sub =~= projectile_entry_bytes(e));
    }
    Some(e)
}

/// Encodes a snapshot into its wire bytes.
pub fn encode_snapshot(m: &NetworkedEntities) -> (out: Vec<u8>)
    requires
        m.wf(),
    ensures
        out@ == snapshot_bytes(*m),
{
    let ghost hdr = u32_le(m.players@.len() as u32) + u32_le(m.projectiles@.len() as u32)
        + seq![weapon_fx_texture_byte(m.weapon_fx_texture_type)];
    let mut out: Vec<u8> = Vec::new();
    push_u32(&mut out, m.players.len() as u32);
    push_u32(&mut out, m.projectiles.len() as u32);
    push_weapon_fx_texture(&mut out, m.weapon_fx_texture_type);
    proof {
        assert(out@ =~= hdr);
    }
    let mut i: usize = 0;
    while i < m.players.len()
        invariant
            i <= m.players@.len(),
            m.players@.len() <= MAX_ENTITIES,
            out@ == hdr + player_entries_bytes(m.players@.subrange(0, i as int)),
        decreases m.players@.len() - i,
    {
        push_player_entry(&mut out, &m.players[i]);
        proof {
            let prefix = m.players@.subrange(0, i + 1);
            assert(prefix.drop_last() == m.players@.subrange(0, i as int));
            assert(prefix.last() == m.players@[i as int]);
            assert(out@ =~= hdr + player_entries_bytes(prefix));
        }
        i += 1;
    }
    proof {
        assert(m.players@.subrange(0, m.players@.len() as int) == m.players@);
    }
    let mut j: usize = 0;
    while j < m.projectiles.len()
        invariant
            j <= m.projectiles@.len(),
            m.projectiles@.len() <= MAX_ENTITIES,
            out@ == hdr + player_entries_bytes(m.players@) + projectile_entries_bytes(
                m.projectiles@.subrange(0, j as int),
            ),
        decreases m.projectiles@.len() - j,
    {
        push_projectile_entry(&mut out, &m.projectiles[j]);
        proof {
            let prefix = m.projectiles@.subrange(0, j + 1);
            assert(prefix.drop_last() == m.projectiles@.subrange(0, j as int));
            assert(prefix.last() == m.projectiles@[j as int]);
            assert(out@ =~= hdr + player_entries_bytes(m.players@) + projectile_entries_bytes(
                prefix,
            ));
        }
        j += 1;
    }
    proof {
        assert(m.projectiles@.subrange(0, m.projectiles@.len() as int) == m.projectiles@);
        assert(out@ =~= snapshot_bytes(*m));
    }
    out
}

/// Decodes a snapshot; returns `Ok` exactly on the byte strings some
/// well-formed snapshot encodes to, and then on the snapshot that encodes to
/// them.
pub fn decode_snapshot(bytes: &Vec<u8>) -> (r: Result<NetworkedEntities, DecodeError>)
    ensures
        (match r {
            Ok(m) => m.wf() && bytes@ == snapshot_bytes(m),
            Err(_) => forall|m: NetworkedEntities| m.wf() ==> bytes@ != snapshot_bytes(m),
        }),
{
    if bytes.len() < SNAPSHOT_HEADER_LEN {
        proof {
            assert forall|m: NetworkedEntities| m.wf() implies bytes@ != snapshot_bytes(m) by {
                lemma_snapshot_bytes_facts(m);
            }
        }
        return Err(DecodeError::Malformed);
    }
    let pc = read_u32(bytes, 0);
    let pj = read_u32(bytes, 4);
    let fx = match read_weapon_fx_texture(bytes, 8) {
        Some(t) => t,
        None => {
            proof {
                assert forall|m: NetworkedEntities| m.wf() implies bytes@ != snapshot_bytes(
                    m,
                ) by {
                    lemma_snapshot_bytes_facts(m);
                }
            }
            return Err(DecodeError::Malformed);
        },
    };
    if pc > MAX_ENTITIES as u32 || pj > MAX_ENTITIES as u32 {
        proof {
            assert forall|m: NetworkedEntities| m.wf() implies bytes@ != snapshot_bytes(m) by {
                if bytes@ == snapshot_bytes(m) {
                    lemma_snapshot_bytes_facts(m);
                    assert(pc == m.players@.len() as u32);
                    assert(pj == m.projectiles@.len() as u32);
                }
            }
        }
        return Err(DecodeError::Malformed);
    }
    let pcu = pc as usize;
    let pju = pj as usize;
    let expected = SNAPSHOT_HEADER_LEN + PLAYER_ENTRY_LEN * pcu + PROJECTILE_ENTRY_LEN * pju;
    if bytes.len() != expected {
        proof {
            assert forall|m: NetworkedEntities| m.wf() implies bytes@ != snapshot_bytes(m) by {
                if bytes@ == snapshot_bytes(m) {
                    lemma_snapshot_bytes_facts(m);
                    assert(pc == m.players@.len() as u32);
                    assert(pj == m.projectiles@.len() as u32);
                    assert(pcu == m.players@.len());
                    assert(pju == m.projectiles@.len());
                }
            }
        }
        return Err(DecodeError::Malformed);
    }
    let mut players: Vec<PlayerEntry> = Vec::new();
    let mut i: usize = 0;
    while i < pcu
        invariant
            i <= pcu,
            pcu <= MAX_ENTITIES,
            pju <= MAX_ENTITIES,
            bytes@.len() == 9 + 31 * pcu + 25 * pju,
            pc == pcu as u32,
            pj == pju as u32,
            bytes@.subrange(0, 4) == u32_le(pc),
            bytes@.subrange(4, 8) == u32_le(pj),
            bytes@[8] == weapon_fx_texture_byte(fx),
            players@.len() == i,
            player_entries_bytes(players@) == bytes@.subrange(9, 9 + 31 * (i as int)),
        decreases pcu - i,
    {
        let off = SNAPSHOT_HEADER_LEN + PLAYER_ENTRY_LEN * i;
        let e = match decode_player_entry(bytes, off) {
            Some(e) => e,
            None => {
                proof {
                    assert forall|m: NetworkedEntities| m.wf() implies bytes@ != snapshot_bytes(
                        m,
                    ) by {
                        if bytes@ == snapshot_bytes(m) {
                            lemma_snapshot_bytes_facts(m);
                            lemma_u32_le_inverse(pc);
                            assert(pcu == m.players@.len());
                            lemma_player_entries_bytes_index(m.players@, i as int);
                            assert(bytes@.subrange(9, 9 + 31 * (pcu as int)).subrange(
                                31 * (i as int),
                                31 * (i as int) + 31,
                            ) =~= bytes@.subrange(off as int, off + 31));
                        }
                    }
                }
                return Err(DecodeError::Malformed);
            },
        };
        let ghost prev = players@;
        players.push(e);
        proof {
            assert(players@.drop_last() == prev);
            assert(players@.last() == e);
            assert(player_entries_bytes(players@) == player_entries_bytes(prev)
                + player_entry_bytes(e));
            assert(bytes@.subrange(9, 9 + 31 * (i + 1)) =~= bytes@.subrange(9, 9 + 31 * (
            i as int)) + bytes@.subrange(off as int, off + 31));
        }
        i += 1;
    }
    let mut projectiles: Vec<ProjectileEntry> = Vec::new();
    let base = SNAPSHOT_HEADER_LEN + PLAYER_ENTRY_LEN * pcu;
    let mut j: usize = 0;
    while j < pju
        invariant
            j <= pju,
            pcu <= MAX_ENTITIES,
            pju <= MAX_ENTITIES,
            base == 9 + 31 * pcu,
            bytes@.len() == 9 + 31 * pcu + 25 * pju,
            pc == pcu as u32,
            pj == pju as u32,
            bytes@.subrange(0, 4) == u32_le(pc),
            bytes@.subrange(4, 8) == u32_le(pj),
            bytes@[8] == weapon_fx_texture_byte(fx),
            players@.len() == pcu,
            player_entries_bytes(players@) == bytes@.subrange(9, 9 + 31 * (pcu as int)),
            projectiles@.len() == j,
            projectile_entries_bytes(projectiles@) == bytes@.subrange(
                base as int,
                base + 25 * (j as int),
            ),
        decreases pju - j,
    {
        let off = base + PROJECTILE_ENTRY_LEN * j;
        let e = match decode_projectile_entry(bytes, off) {
            Some(e) => e,
            None => {
                proof {
                    assert forall|m: NetworkedEntities| m.wf() implies bytes@ != snapshot_bytes(
                        m,
                    ) by {
                        if bytes@ == snapshot_bytes(m) {
                            lemma_snapshot_bytes_facts(m);
                            lemma_u32_le_inverse(pc);
                            lemma_u32_le_inverse(pj);
                            assert(pcu == m.players@.len());
                            assert(pju == m.projectiles@.len());
                            lemma_projectile_entries_bytes_index(m.projectiles@, j as int);
                            assert(bytes@.subrange(base as int, bytes@.len() as int).subrange(
                                25 * (j as int),
                                25 * (j as int) + 25,
                            ) =~= bytes@.subrange(off as int, off + 25));
                        }
                    }
                }
                return Err(DecodeError::Malformed);
            },
        };
        let ghost prev = projectiles@;
        projectiles.push(e);
        proof {
            assert(projectiles@.drop_last() == prev);
            assert(projectiles@.last() == e);
            assert(projectile_entries_bytes(projectiles@) == projectile_entries_bytes(prev)
                + projectile_entry_bytes(e));
            assert(bytes@.subrange(base as int, base + 25 * (j + 1)) =~= bytes@.subrange(
                base as int,
                base + 25 * (j as int),
            ) + bytes@.subrange(off as int, off + 25));
        }
        j += 1;
    }
    let m = NetworkedEntities { players, projectiles, weapon_fx_texture_type: fx };
    proof {
        lemma_snapshot_bytes_facts(m);
        assert(m.players@.len() as u32 == pc);
        assert(m.projectiles@.len() as u32 == pj);
        assert forall|i: int| 0 <= i < bytes@.len() implies bytes@[i] == snapshot_bytes(m)[i] by {
            if i < 4 {
                assert(snapshot_bytes(m).subrange(0, 4)[i] == snapshot_bytes(m)[i]);
                assert(bytes@.subrange(0, 4)[i] == bytes@[i]);
            } else if i < 8 {
                assert(snapshot_bytes(m).subrange(4, 8)[i - 4] == snapshot_bytes(m)[i]);
                assert(bytes@.subrange(4, 8)[i - 4] == bytes@[i]);
            } else if i == 8 {
            } else if i < 9 + 31 * (pcu as int) {
                assert(snapshot_bytes(m).subrange(9, 9 + 31 * (pcu as int))[i - 9]
                    == snapshot_bytes(m)[i]);
                assert(bytes@.subrange(9, 9 + 31 * (pcu as int))[i - 9] == bytes@[i]);
            } else {
                assert(snapshot_bytes(m).subrange(9 + 31 * (pcu as int), snapshot_bytes(
                    m,
                ).len() as int)[i - 9 - 31 * (pcu as int)] == snapshot_bytes(m)[i]);
                assert(bytes@.subrange(base as int, bytes@.len() as int)[i - 9 - 31 * (
                pcu as int)] == bytes@[i]);
            }
        }
        assert(bytes@ =~= snapshot_bytes(m));
    }
    Ok(m)
}

} // verus!

//! The grounded / jump state machine and per-tick movement decisions.
//!
//! This state is private to the server; only its effects (positions over
//! time) cross the wire. A collision-sensor start on the player's foot
//! sensor grounds the player and refills the jump allowance; a sensor stop
//! lifts the grounded flag with the allowance unchanged; a jump request
//! consumes one jump whenever any is left — grounded or airborne, which is
//! what allows the double jump — and is silently ignored otherwise.

use vstd::prelude::*;

use crate::messages::PlayerTextureType;

verus! {

/// Whether the player's foot sensor currently touches ground.
#[derive(Clone, Copy, PartialEq, Eq, Structural, Debug, Default)]
pub struct Grounded(pub bool);

/// The jump allowance: how many jumps remain and the refill value.
#[derive(Clone, Copy, PartialEq, Eq, Structural, Debug)]
pub struct JumpCounter {
    pub jumps_left: u8,
    pub max_jumps: u8,
}

impl JumpCounter {
    /// Refills the allowance to its maximum.
    pub fn reset(&mut self)
        ensures
            final(self).jumps_left == old(self).max_jumps,
            final(self).max_jumps == old(self).max_jumps,
    {
        self.jumps_left = self.max_jumps;
    }

    /// Consumes one jump when any is left; the result says whether an
    /// upward impulse is due. With no jump left the request is silently
    /// ignored.
    pub fn use_jump(&mut self) -> (r: bool)
        ensures
            r == (old(self).jumps_left > 0),
            final(self).max_jumps == old(self).max_jumps,
            final(self).jumps_left == (if old(self).jumps_left > 0 {
                (old(self).jumps_left - 1) as u8
            } else {
                0u8
            }),
    {
        if self.jumps_left > 0 {
            self.jumps_left -= 1;
            true
        } else {
            false
        }
    }
}

/// A collision-sensor start on the foot sensor: any state becomes grounded
/// and the jump allowance refills.
pub fn apply_sensor_start(grounded: &mut Grounded, jump_counter: &mut JumpCounter)
    ensures
        final(grounded).0,
        final(jump_counter).jumps_left == old(jump_counter).max_jumps,
        final(jump_counter).max_jumps == old(jump_counter).max_jumps,
{
    grounded.0 = true;
    jump_counter.reset();
}

/// A collision-sensor stop: the player is airborne, the allowance unchanged.
pub fn apply_sensor_stop(grounded: &mut Grounded)
    ensures
        !final(grounded).0,
{
    grounded.0 = false;
}

/// Decides the tick's jump impulse from the input's jump flag: a request
/// consumes one jump when any is left, whether grounded or airborne.
pub fn apply_jump_input(jump_requested: bool, jump_counter: &mut JumpCounter) -> (impulse: bool)
    ensures
        impulse == (jump_requested && old(jump_counter).jumps_left > 0),
        final(jump_counter).max_jumps == old(jump_counter).max_jumps,
        final(jump_counter).jumps_left == (if jump_requested && old(jump_counter).jumps_left
            > 0 {
            (old(jump_counter).jumps_left - 1) as u8
        } else {
            old(jump_counter).jumps_left
        }),
{
    if jump_requested {
        jump_counter.use_jump()
    } else {
        false
    }
}

/// The horizontal movement axis from the input flags: `-1` for left, `1`
/// for right, `0` when both or neither is held.
pub fn movement_axis(left: bool, right: bool) -> (r: i8)
    ensures
        r == (if right {
            1int
        } else {
            0int
        }) - (if left {
            1int
        } else {
            0int
        }),
{
    let l: i8 = if left {
        1
    } else {
        0
    };
    let rr: i8 = if right {
        1
    } else {
        0
    };
    rr - l
}

/// Relies on `fastrand::bool`: a coin flip from the thread-local generator.
/// Nothing is promised of the result.
#[verifier::external_body]
fn random_bool() -> bool {
    fastrand::bool()
}

/// Chooses the body texture of a newly connected player at random; the
/// result is always one of the two player sprite sheets.
pub fn rand_player_texture_entity_type() -> (r: PlayerTextureType)
    ensures
        r == PlayerTextureType::Rick1 || r == PlayerTextureType::Rick2,
{
    if random_bool() {
        PlayerTextureType::Rick1
    } else {
        PlayerTextureType::Rick2
    }
}

} // verus!

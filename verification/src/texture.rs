//! Texture-atlas geometry, as plain pixel arithmetic.
//!
//! Each sprite family (player bodies, held weapons, weapon effects) lives on
//! one sheet; an entity here records the sheet's size, the frame rectangles
//! of its animation, and the asset path the presentation layer loads. The
//! frame rectangles are computed, never measured: a row of equally sized
//! frames starting at a fixed origin, separated by a fixed padding.

use vstd::prelude::*;

use crate::animation::AnimationIndices;
use crate::messages::{PlayerTextureType, WeaponFxTextureEntityType, WeaponTextureType};

verus! {

/// Asset path of the first player sheet.
pub const RICK_1: &'static str = "textures/players/rick1.png";

/// Asset path of the second player sheet.
pub const RICK_2: &'static str = "textures/players/rick2.png";

/// Asset path of the weapon sheet.
pub const WEAPONS: &'static str = "textures/weapons/weapons.png";

/// Asset path of the weapon effect sheet.
pub const WEAPONS_FX: &'static str = "textures/weapons/weapons_fx.png";

/// A pixel position or extent on a sheet.
#[derive(Clone, Copy, PartialEq, Eq, Structural, Debug)]
pub struct Uv2 {
    pub x: u32,
    pub y: u32,
}

/// One frame's rectangle: inclusive minimum corner, exclusive maximum.
#[derive(Clone, Copy, PartialEq, Eq, Structural, Debug)]
pub struct FrameRect {
    pub min: Uv2,
    pub max: Uv2,
}

/// The rectangle of frame `i` in a row of frames of size `frame_size`
/// starting at `start_min`, `padding` pixels apart.
pub open spec fn frame_at(start_min: Uv2, frame_size: Uv2, padding: u32, i: int) -> FrameRect {
    let off = i * (frame_size.x + padding);
    FrameRect {
        min: Uv2 { x: (start_min.x + off) as u32, y: start_min.y },
        max: Uv2 {
            x: (start_min.x + off + frame_size.x) as u32,
            y: (start_min.y + frame_size.y) as u32,
        },
    }
}

/// Computes the frame rectangles of one animation row.
pub fn generate_frames(start_min: Uv2, frame_count: u32, frame_size: Uv2, padding: u32) -> (r:
    Vec<FrameRect>)
    requires
        start_min.x + frame_count * (frame_size.x + padding) + frame_size.x <= u32::MAX,
        start_min.y + frame_size.y <= u32::MAX,
    ensures
        r@.len() == frame_count,
        forall|i: int| 0 <= i < frame_count ==> r@[i] == frame_at(start_min, frame_size, padding, i),
{
    let mut frames: Vec<FrameRect> = Vec::new();
    if frame_count == 0 {
        return frames;
    }
    proof {
        assert(1int * (frame_size.x + padding) <= (frame_count as int) * (frame_size.x
            + padding)) by (nonlinear_arith)
            requires
                1int <= frame_count as int,
                frame_size.x + padding >= 0,
        ;
    }
    let step: u32 = frame_size.x + padding;
    let mut i: u32 = 0;
    let mut offset: u32 = 0;
    while i < frame_count
        invariant
            i <= frame_count,
            step == frame_size.x + padding,
            offset == i as int * (frame_size.x + padding),
            start_min.x + frame_count as int * (frame_size.x + padding) + frame_size.x
                <= u32::MAX,
            start_min.y + frame_size.y <= u32::MAX,
            frames@.len() == i,
            forall|t: int|
                0 <= t < i ==> frames@[t] == frame_at(start_min, frame_size, padding, t),
        decreases frame_count - i,
    {
        proof {
            assert((i as int) * (frame_size.x + padding) <= (frame_count as int) * (frame_size.x
                + padding)) by (nonlinear_arith)
                requires
                    i as int <= frame_count as int,
                    frame_size.x + padding >= 0,
            ;
        }
        let min_x = start_min.x + offset;
        let max_x = min_x + frame_size.x;
        let max_y = start_min.y + frame_size.y;
        frames.push(
            FrameRect { min: Uv2 { x: min_x, y: start_min.y }, max: Uv2 { x: max_x, y: max_y } },
        );
        proof {
            assert((i as int) * (frame_size.x + padding) >= 0) by (nonlinear_arith)
                requires
                    i as int >= 0,
                    frame_size.x + padding >= 0,
            ;
            assert(frames@[i as int] == frame_at(start_min, frame_size, padding, i as int));
            assert(((i + 1) as int) * (frame_size.x + padding) == (i as int) * (frame_size.x
                + padding) + (frame_size.x + padding)) by (nonlinear_arith);
            assert(((i + 1) as int) * (frame_size.x + padding) <= (frame_count as int) * (
            frame_size.x + padding)) by (nonlinear_arith)
                requires
                    i as int + 1 <= frame_count as int,
                    frame_size.x + padding >= 0,
            ;
        }
        offset = offset + step;
        i += 1;
    }
    frames
}

/// The atlas geometry of one player sheet: four walk frames of 117 by 160
/// pixels, 14 pixels apart.
pub struct PlayerTextureEntity {
    pub layout_size: Uv2,
    pub frames: Vec<FrameRect>,
    pub animation_indices: AnimationIndices,
    pub texture_path: &'static str,
    pub player_texture_type: PlayerTextureType,
}

impl PlayerTextureEntity {
    /// Builds the geometry of the given player sheet.
    pub fn new(player_texture: &PlayerTextureType) -> (r: Self)
        ensures
            r.player_texture_type == *player_texture,
            r.animation_indices == (AnimationIndices { first: 0, last: 3 }),
            r.frames@.len() == 4,
            (match *player_texture {
                PlayerTextureType::Rick1 => {
                    &&& r.layout_size == (Uv2 { x: 1036, y: 740 })
                    &&& r.texture_path@ == RICK_1@
                    &&& forall|i: int|
                        0 <= i < 4 ==> r.frames@[i] == frame_at(
                            (Uv2 { x: 519, y: 173 }),
                            (Uv2 { x: 117, y: 160 }),
                            14,
                            i,
                        )
                },
                PlayerTextureType::Rick2 => {
                    &&& r.layout_size == (Uv2 { x: 816, y: 1241 })
                    &&& r.texture_path@ == RICK_2@
                    &&& forall|i: int|
                        0 <= i < 4 ==> r.frames@[i] == frame_at(
                            (Uv2 { x: 5, y: 908 }),
                            (Uv2 { x: 117, y: 160 }),
                            14,
                            i,
                        )
                },
            }),
    {
        match player_texture {
            PlayerTextureType::Rick1 => PlayerTextureEntity {
                layout_size: Uv2 { x: 1036, y: 740 },
                frames: generate_frames(Uv2 { x: 519, y: 173 }, 4, Uv2 { x: 117, y: 160 }, 14),
                animation_indices: AnimationIndices { first: 0, last: 3 },
                texture_path: RICK_1,
                player_texture_type: PlayerTextureType::Rick1,
            },
            PlayerTextureType::Rick2 => PlayerTextureEntity {
                layout_size: Uv2 { x: 816, y: 1241 },
                frames: generate_frames(Uv2 { x: 5, y: 908 }, 4, Uv2 { x: 117, y: 160 }, 14),
                animation_indices: AnimationIndices { first: 0, last: 3 },
                texture_path: RICK_2,
                player_texture_type: PlayerTextureType::Rick2,
            },
        }
    }

    /// Every player sheet with its asset path.
    pub fn all() -> (r: Vec<(PlayerTextureType, &'static str)>)
        ensures
            r@.len() == 2,
            r@[0].0 == PlayerTextureType::Rick1,
            r@[0].1@ == RICK_1@,
            r@[1].0 == PlayerTextureType::Rick2,
            r@[1].1@ == RICK_2@,
    {
        let mut r: Vec<(PlayerTextureType, &'static str)> = Vec::new();
        r.push((PlayerTextureType::Rick1, RICK_1));
        r.push((PlayerTextureType::Rick2, RICK_2));
        r
    }
}

/// The atlas geometry of a held weapon: one frame per weapon on the shared
/// weapon sheet.
pub struct WeaponTextureEntity {
    pub layout_size: Uv2,
    pub frames: Vec<FrameRect>,
    pub animation_indices: AnimationIndices,
    pub texture_path: &'static str,
    pub weapon_texture_type: WeaponTextureType,
}

impl WeaponTextureEntity {
    /// Builds the geometry of the given weapon's sprite: a single 51 by 23
    /// pixel frame.
    pub fn new(weapon_texture: &WeaponTextureType) -> (r: Self)
        ensures
            r.weapon_texture_type == *weapon_texture,
            r.animation_indices == (AnimationIndices { first: 0, last: 0 }),
            r.layout_size == (Uv2 { x: 502, y: 448 }),
            r.texture_path@ == WEAPONS@,
            r.frames@.len() == 1,
            r.frames@[0] == frame_at((Uv2 { x: 358, y: 200 }), (Uv2 { x: 51, y: 23 }), 0, 0),
    {
        WeaponTextureEntity {
            layout_size: Uv2 { x: 502, y: 448 },
            frames: generate_frames(Uv2 { x: 358, y: 200 }, 1, Uv2 { x: 51, y: 23 }, 0),
            animation_indices: AnimationIndices { first: 0, last: 0 },
            texture_path: WEAPONS,
            weapon_texture_type: *weapon_texture,
        }
    }

    /// Every weapon with its asset path; all weapons share one sheet.
    pub fn all() -> (r: Vec<(WeaponTextureType, &'static str)>)
        ensures
            r@.len() == 4,
            r@[0].0 == WeaponTextureType::Pistol,
            r@[1].0 == WeaponTextureType::Shotgun,
            r@[2].0 == WeaponTextureType::Rifle,
            r@[3].0 == WeaponTextureType::GrenadeLauncher,
            forall|i: int| 0 <= i < 4 ==> (#[trigger] r@[i]).1@ == WEAPONS@,
    {
        let mut r: Vec<(WeaponTextureType, &'static str)> = Vec::new();
        r.push((WeaponTextureType::Pistol, WEAPONS));
        r.push((WeaponTextureType::Shotgun, WEAPONS));
        r.push((WeaponTextureType::Rifle, WEAPONS));
        r.push((WeaponTextureType::GrenadeLauncher, WEAPONS));
        r
    }
}

/// The atlas geometry of a weapon effect: one frame on the shared effect
/// sheet, the same sprite for every weapon family.
pub struct WeaponFxTextureEntity {
    pub layout_size: Uv2,
    pub frames: Vec<FrameRect>,
    pub animation_indices: AnimationIndices,
    pub texture_path: &'static str,
    pub weapon_fx_texture_type: WeaponFxTextureEntityType,
}

impl WeaponFxTextureEntity {
    /// Builds the geometry of the given effect's sprite: a single 31 by 15
    /// pixel frame.
    pub fn new(weapon_texture: &WeaponFxTextureEntityType) -> (r: Self)
        ensures
            r.weapon_fx_texture_type == *weapon_texture,
            r.animation_indices == (AnimationIndices { first: 0, last: 0 }),
            r.layout_size == (Uv2 { x: 1300, y: 3175 }),
            r.texture_path@ == WEAPONS_FX@,
            r.frames@.len() == 1,
            r.frames@[0] == frame_at((Uv2 { x: 3, y: 2431 }), (Uv2 { x: 31, y: 15 }), 0, 0),
    {
        WeaponFxTextureEntity {
            layout_size: Uv2 { x: 1300, y: 3175 },
            frames: generate_frames(Uv2 { x: 3, y: 2431 }, 1, Uv2 { x: 31, y: 15 }, 0),
            animation_indices: AnimationIndices { first: 0, last: 0 },
            texture_path: WEAPONS_FX,
            weapon_fx_texture_type: *weapon_texture,
        }
    }

    /// Every effect with its asset path; all effects share one sheet.
    pub fn all() -> (r: Vec<(WeaponFxTextureEntityType, &'static str)>)
        ensures
            r@.len() == 4,
            r@[0].0 == WeaponFxTextureEntityType::Pistol,
            r@[1].0 == WeaponFxTextureEntityType::Shotgun,
            r@[2].0 == WeaponFxTextureEntityType::Rifle,
            r@[3].0 == WeaponFxTextureEntityType::GrenadeLauncher,
            forall|i: int| 0 <= i < 4 ==> (#[trigger] r@[i]).1@ == WEAPONS_FX@,
    {
        let mut r: Vec<(WeaponFxTextureEntityType, &'static str)> = Vec::new();
        r.push((WeaponFxTextureEntityType::Pistol, WEAPONS_FX));
        r.push((WeaponFxTextureEntityType::Shotgun, WEAPONS_FX));
        r.push((WeaponFxTextureEntityType::Rifle, WEAPONS_FX));
        r.push((WeaponFxTextureEntityType::GrenadeLauncher, WEAPONS_FX));
        r
    }
}

} // verus!

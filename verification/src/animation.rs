//! Sprite animation frame selection.

use vstd::prelude::*;

verus! {

/// The frame range of one animation inside a texture atlas.
#[derive(Clone, Copy, PartialEq, Eq, Structural, Debug)]
pub struct AnimationIndices {
    pub first: u32,
    pub last: u32,
}

/// The frame after `current_index`: a facing-right animation walks forward
/// and wraps from the last frame to the first; a facing-left animation walks
/// backward and wraps from frame zero to the last.
pub fn next_animation_index(current_index: usize, face_right: bool, indices: &AnimationIndices)
    -> (r: usize)
    ensures
        r as int == (if current_index >= indices.last as usize {
            indices.first as int
        } else if face_right {
            current_index + 1
        } else if current_index == 0 {
            indices.last as int
        } else {
            current_index - 1
        }),
{
    if current_index >= indices.last as usize {
        indices.first as usize
    } else if face_right {
        current_index + 1
    } else if current_index == 0 {
        indices.last as usize
    } else {
        current_index - 1
    }
}

} // verus!

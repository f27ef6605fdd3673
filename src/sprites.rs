//! Stepping through a sprite sheet's animation frames.

use vstd::prelude::*;

verus! {

/// The frames of one animation: `first` through `last`.
#[derive(Clone, Copy, Debug, PartialEq, Eq, Structural)]
pub struct AnimationIndices {
    pub first: usize,
    pub last: usize,
}

/// The frame after `index`: back to `first` after `last`.
pub open spec fn following_frame(indices: AnimationIndices, index: usize) -> usize {
    if index == indices.last {
        indices.first
    } else {
        (index + 1) as usize
    }
}

/// Advances an animation by one frame when its timer has run out.
pub fn animate_sprite(indices: &AnimationIndices, index: usize, timer_finished: bool) -> (r: usize)
    requires
        index < usize::MAX || index == indices.last,
    ensures
        r == (if timer_finished { following_frame(*indices, index) } else { index }),
{
    if !timer_finished {
        index
    } else if index == indices.last {
        indices.first
    } else {
        index + 1
    }
}

} // verus!

//! Built-in layouts.
use vstd::prelude::*;

pub mod messages;
pub mod tiling;
pub mod transformers;

verus! {

/// Where the secondary stack of a main-and-stack layout is placed.
#[derive(Debug, Clone, Copy, PartialEq, Eq, Structural)]
pub enum StackPosition {
    /// To the side of the main area
    Side,
    /// Below the main area
    Bottom,
}

impl StackPosition {
    /// Swap between the side and the bottom.
    pub fn rotate(&self) -> (r: Self)
        ensures
            r != *self,
    {
        match self {
            StackPosition::Side => StackPosition::Bottom,
            StackPosition::Bottom => StackPosition::Side,
        }
    }
}

/// Rotating the stack position twice gives back where it started.
pub proof fn lemma_rotate_twice(p: StackPosition, q: StackPosition, r: StackPosition)
    requires
        q != p,
        r != q,
    ensures
        r == p,
{
}

} // verus!

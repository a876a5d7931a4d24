//! Common data types shared across the crate.
use vstd::prelude::*;

pub mod geometry;

verus! {

/// An X resource ID
pub type Xid = u32;

/// A relative position along the horizontal and vertical axes
#[derive(Copy, Clone, Debug, Eq, PartialEq, Structural)]
pub enum RelativePosition {
    /// Left of the current position
    Left,
    /// Right of the current position
    Right,
    /// Above the current position
    Above,
    /// Below the current position
    Below,
}

/// Increment / decrement a value
#[derive(Debug, Copy, Clone, PartialEq, Eq, Hash, Structural)]
pub enum Change {
    /// increase the value
    More,
    /// decrease the value, possibly clamping
    Less,
}

/// X window border kind
#[derive(Debug, Clone, Copy, PartialEq, Eq, Hash, Structural)]
pub enum Border {
    /// window is urgent
    Urgent,
    /// window currently has focus
    Focused,
    /// window does not have focus
    Unfocused,
}

} // verus!

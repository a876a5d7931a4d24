//! Data exchanged with the X server.
use vstd::prelude::*;

pub mod event;
pub mod property;

use crate::wm::data_types::Region;

verus! {

/// An X resource ID
pub type Xid = u32;

/// On screen configuration options for X clients.
#[derive(Clone, Copy, Debug, PartialEq, Eq, Hash)]
pub enum ClientConfig {
    /// The border width in pixels
    BorderPx(u32),
    /// Absolute size and position on the screen
    Position(Region),
    /// Mark this window as stacking on top of its peers
    StackAbove,
}

/// Attributes for an X11 client window.
#[derive(Clone, Copy, Debug, PartialEq, Eq, Hash)]
pub enum ClientAttr {
    /// Border color as an argb hex value
    BorderColor(u32),
    /// Set the pre-defined client event mask
    ClientEventMask,
    /// Set the pre-defined root event mask
    RootEventMask,
}

} // verus!

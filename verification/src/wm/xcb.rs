//! Values that the window manager writes to the X server, in the form the X
//! protocol takes them.
use vstd::prelude::*;

use crate::wm::data_types::Region;
use crate::wm::xconnection::Xid;

verus! {

/// The value of a window property.
pub enum PropVal<'a> {
    /// A list of atoms
    Atom(&'a [u32]),
    /// A list of cardinal numbers
    Cardinal(&'a [u32]),
    /// A string
    Str(&'a str),
    /// A list of window ids
    Window(&'a [Xid]),
}

/// A change to the geometry or stacking of a window.
#[derive(Debug, Clone, Copy, PartialEq, Eq)]
pub enum WinConfig {
    /// The border width in pixels
    BorderPx(u32),
    /// Absolute size and position on the screen
    Position(Region),
    /// Stack the window above its siblings
    StackAbove,
}

/// A window attribute to set.
#[derive(Debug, Clone, Copy, PartialEq, Eq)]
pub enum WinAttr {
    /// Border color as an argb hex value
    BorderColor(u32),
    /// The events the window manager listens for on a client window
    ClientEventMask,
    /// The events the window manager listens for on the root window
    RootEventMask,
}

/// Bit of the value mask of a ConfigureWindow request: x.
pub const CONFIG_WINDOW_X: u16 = 1;
/// Bit of the value mask of a ConfigureWindow request: y.
pub const CONFIG_WINDOW_Y: u16 = 2;
/// Bit of the value mask of a ConfigureWindow request: width.
pub const CONFIG_WINDOW_WIDTH: u16 = 4;
/// Bit of the value mask of a ConfigureWindow request: height.
pub const CONFIG_WINDOW_HEIGHT: u16 = 8;
/// Bit of the value mask of a ConfigureWindow request: border width.
pub const CONFIG_WINDOW_BORDER_WIDTH: u16 = 16;
/// Bit of the value mask of a ConfigureWindow request: stack mode.
pub const CONFIG_WINDOW_STACK_MODE: u16 = 64;
/// The stack mode `Above`.
pub const STACK_MODE_ABOVE: u32 = 0;
/// Bit of the value mask of a ChangeWindowAttributes request: border pixel.
pub const CW_BORDER_PIXEL: u32 = 8;
/// Bit of the value mask of a ChangeWindowAttributes request: event mask.
pub const CW_EVENT_MASK: u32 = 2048;
/// Event mask bit: pointer entered the window.
pub const EVENT_MASK_ENTER_WINDOW: u32 = 16;
/// Event mask bit: pointer left the window.
pub const EVENT_MASK_LEAVE_WINDOW: u32 = 32;
/// Event mask bit: pointer moved with a button held.
pub const EVENT_MASK_BUTTON_MOTION: u32 = 8192;
/// Event mask bit: the window's structure changed.
pub const EVENT_MASK_STRUCTURE_NOTIFY: u32 = 131072;
/// Event mask bit: the structure of the window's children changed.
pub const EVENT_MASK_SUBSTRUCTURE_NOTIFY: u32 = 524288;
/// Event mask bit: redirect structure requests of the window's children.
pub const EVENT_MASK_SUBSTRUCTURE_REDIRECT: u32 = 1048576;
/// Event mask bit: a property of the window changed.
pub const EVENT_MASK_PROPERTY_CHANGE: u32 = 4194304;

/// The events listened for on client windows.
pub open spec fn client_event_mask() -> u32 {
    EVENT_MASK_ENTER_WINDOW | EVENT_MASK_LEAVE_WINDOW | EVENT_MASK_PROPERTY_CHANGE
        | EVENT_MASK_STRUCTURE_NOTIFY
}

/// The events listened for on the root window.
pub open spec fn root_event_mask() -> u32 {
    EVENT_MASK_PROPERTY_CHANGE | EVENT_MASK_SUBSTRUCTURE_REDIRECT | EVENT_MASK_SUBSTRUCTURE_NOTIFY
        | EVENT_MASK_BUTTON_MOTION
}

impl WinConfig {
    /// The (mask bit, value) pairs of a ConfigureWindow request that makes this change.
    pub fn as_data(&self) -> (r: Vec<(u16, u32)>)
        ensures
            r@ == match *self {
                WinConfig::BorderPx(px) => seq![(CONFIG_WINDOW_BORDER_WIDTH, px)],
                WinConfig::Position(reg) => seq![
                    (CONFIG_WINDOW_X, reg.x),
                    (CONFIG_WINDOW_Y, reg.y),
                    (CONFIG_WINDOW_WIDTH, reg.w),
                    (CONFIG_WINDOW_HEIGHT, reg.h),
                ],
                WinConfig::StackAbove => seq![(CONFIG_WINDOW_STACK_MODE, STACK_MODE_ABOVE)],
            },
    {
        match self {
            WinConfig::BorderPx(px) => vec![(CONFIG_WINDOW_BORDER_WIDTH, *px)],
            WinConfig::Position(region) => {
                let (x, y, w, h) = region.values();
                vec![
                    (CONFIG_WINDOW_X, x),
                    (CONFIG_WINDOW_Y, y),
                    (CONFIG_WINDOW_WIDTH, w),
                    (CONFIG_WINDOW_HEIGHT, h),
                ]
            },
            WinConfig::StackAbove => vec![(CONFIG_WINDOW_STACK_MODE, STACK_MODE_ABOVE)],
        }
    }
}

impl WinAttr {
    /// The (mask bit, value) pairs of a ChangeWindowAttributes request that sets this
    /// attribute.
    pub fn as_data(&self) -> (r: Vec<(u32, u32)>)
        ensures
            r@ == match *self {
                WinAttr::BorderColor(c) => seq![(CW_BORDER_PIXEL, c)],
                WinAttr::ClientEventMask => seq![(CW_EVENT_MASK, client_event_mask())],
                WinAttr::RootEventMask => seq![(CW_EVENT_MASK, root_event_mask())],
            },
    {
        let client_mask = EVENT_MASK_ENTER_WINDOW | EVENT_MASK_LEAVE_WINDOW | EVENT_MASK_PROPERTY_CHANGE
            | EVENT_MASK_STRUCTURE_NOTIFY;
        let root_mask = EVENT_MASK_PROPERTY_CHANGE | EVENT_MASK_SUBSTRUCTURE_REDIRECT
            | EVENT_MASK_SUBSTRUCTURE_NOTIFY | EVENT_MASK_BUTTON_MOTION;
        match self {
            WinAttr::BorderColor(c) => vec![(CW_BORDER_PIXEL, *c)],
            WinAttr::ClientEventMask => vec![(CW_EVENT_MASK, client_mask)],
            WinAttr::RootEventMask => vec![(CW_EVENT_MASK, root_mask)],
        }
    }
}

} // verus!

//! Data types for working with X events.
use vstd::prelude::*;

use crate::wm::bindings::{KeyCode, MouseEvent};
use crate::wm::data_types::{Point, Region};
use crate::wm::xconnection::Xid;

verus! {

/// A pointer movement into or out of a window.
#[derive(Debug, Clone, Copy, PartialEq, Eq)]
pub struct PointerChange {
    /// The window that was entered or left
    pub id: Xid,
    /// Absolute coordinate of the event
    pub abs: Point,
    /// Coordinate of the event relative to the top-left of the window itself
    pub relative: Point,
}

/// A change (or a request for a change) in the configuration of a window.
#[derive(Debug, Clone, Copy, PartialEq, Eq)]
pub struct ConfigureEvent {
    /// The window concerned
    pub id: Xid,
    /// The window's region
    pub r: Region,
    /// Whether this window is the root window
    pub is_root: bool,
}

/// A window property has changed.
#[derive(Debug, Clone, PartialEq, Eq)]
pub struct PropertyEvent {
    /// The window that had a property changed
    pub id: Xid,
    /// The name of the property that changed
    pub atom: String,
    /// Whether this window is the root window
    pub is_root: bool,
}

/// A region of a window needs to be redrawn.
#[derive(Debug, Clone, Copy, PartialEq, Eq)]
pub struct ExposeEvent {
    /// The window concerned
    pub id: Xid,
    /// The region to redraw
    pub r: Region,
    /// The number of expose events that follow this one
    pub count: usize,
}

/// A message sent to a window.
#[derive(Debug, Clone, PartialEq, Eq)]
pub struct ClientMessage {
    /// The window the message is about
    pub id: Xid,
    /// The name of the message type
    pub dtype: String,
    /// The data words of the message
    pub data: Vec<u32>,
}

/// An event received from the X server.
#[derive(Debug, Clone)]
pub enum XEvent {
    /// A message was sent to a window
    ClientMessage(ClientMessage),
    /// The configuration of a window has changed
    ConfigureNotify(ConfigureEvent),
    /// A window is asking for a new configuration
    ConfigureRequest(ConfigureEvent),
    /// The pointer has entered a window
    Enter(PointerChange),
    /// A part of a window needs to be redrawn
    Expose(ExposeEvent),
    /// A window has gained focus
    FocusIn(Xid),
    /// A window has been destroyed
    Destroy(Xid),
    /// A grabbed key combination has been entered
    KeyPress(KeyCode),
    /// The pointer has left a window
    Leave(PointerChange),
    /// A window asks to be mapped: (id, whether override redirect is set)
    MapRequest(Xid, bool),
    /// The mouse has moved or a mouse button has been pressed
    MouseEvent(MouseEvent),
    /// A window property has changed
    PropertyNotify(PropertyEvent),
    /// The outputs or their configuration have changed
    RandrNotify,
    /// Focus has moved to a different screen
    ScreenChange,
    /// A window is being unmapped
    UnmapNotify(Xid),
}

} // verus!

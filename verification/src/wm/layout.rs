//! What a workspace knows of each of its layouts.
//!
//! A layout is named by its symbol and carries the settings the window manager
//! reads: how it treats clients and how many go in its main area. The layout
//! function itself, and the share of the screen its main area takes, are kept by
//! the caller under the same symbol.
use vstd::prelude::*;

use crate::wm::data_types::Change;

verus! {

/// When and how a layout function should be applied.
#[derive(Debug, Clone, Copy, PartialEq, Eq, Hash, Structural)]
pub struct LayoutConf {
    /// Clients are left where they are rather than being positioned
    pub floating: bool,
    /// No gaps are left between clients
    pub gapless: bool,
    /// Focus follows the mouse
    pub follow_focus: bool,
    /// Cycling and dragging wrap around the ends of the client stack
    pub allow_wrapping: bool,
}

impl Default for LayoutConf {
    fn default() -> (r: Self)
        ensures
            r == (LayoutConf { floating: false, gapless: false, follow_focus: false, allow_wrapping: true }),
    {
        LayoutConf { floating: false, gapless: false, follow_focus: false, allow_wrapping: true }
    }
}

/// Sent to every layout when the window manager is shutting down or restarting.
#[derive(Debug, Clone, Copy, PartialEq, Eq)]
pub struct ShutDown;

/// A layout of a workspace.
#[derive(Debug, Clone, PartialEq, Eq)]
pub struct Layout {
    /// How the layout is applied
    pub conf: LayoutConf,
    /// The symbol that names the layout
    pub symbol: String,
    /// The number of clients in the main area
    pub max_main: u32,
}

impl Layout {
    /// A layout named `symbol`.
    pub fn new(symbol: String, conf: LayoutConf, max_main: u32) -> (r: Layout)
        ensures
            r == (Layout { conf, symbol, max_main }),
    {
        Layout { conf, symbol, max_main }
    }

    /// One more client in the main area, or one fewer (never fewer than none).
    pub fn update_max_main(&mut self, change: Change)
        requires
            change == Change::More ==> old(self).max_main < u32::MAX,
        ensures
            *final(self) == (Layout {
                max_main: match change {
                    Change::More => (old(self).max_main + 1) as u32,
                    Change::Less => if old(self).max_main > 0 {
                        (old(self).max_main - 1) as u32
                    } else {
                        0
                    },
                },
                ..*old(self)
            }),
    {
        match change {
            Change::More => {
                self.max_main = self.max_main + 1;
            },
            Change::Less => {
                if self.max_main > 0 {
                    self.max_main = self.max_main - 1;
                }
            },
        }
    }
}

} // verus!

//! Names of the points in the window manager's life cycle where user hooks run.
use vstd::prelude::*;

use crate::wm::ring::Xid;

verus! {

/// The hook points that the window manager triggers.
#[derive(Debug, Clone, PartialEq, Eq, Hash)]
pub enum HookName {
    /// The window manager has started
    Startup,
    /// A new client has been mapped
    NewClient(Xid),
    /// A client has been removed
    RemoveClient(Xid),
    /// A client has been added to a workspace: (id, workspace index)
    ClientAddedToWorkspace(Xid, usize),
    /// A client has changed its name: (id, new name, is the root window)
    ClientNameUpdated(Xid, String, bool),
    /// The layout of a workspace has been applied: (workspace index)
    LayoutChange(usize),
    /// The focused workspace has changed: (previous index, new index)
    WorkspaceChange(usize, usize),
    /// The set of workspaces has been updated: (names, active index)
    WorkspacesUpdated(Vec<String>, usize),
    /// The focused screen has changed
    ScreenChange,
    /// The set of connected screens has been updated
    ScreenUpdated,
    /// A randr notification was received
    RanderNotify,
    /// The focused client has changed: (newly focused window)
    FocusChange(Xid),
    /// An event has been handled
    EventHandled,
}

} // verus!

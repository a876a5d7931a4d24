//! Metadata around X clients: the first, minimal form of a tracked client.
use vstd::prelude::*;

use crate::data_types::WinId;

verus! {

/**
 * Meta-data around a client window that we are handling.
 * Primarily state flags and information used when determining which clients
 * to show for a given monitor and how they are tiled.
 */
#[derive(Debug, PartialEq, Clone)]
pub struct Client {
    id: WinId,
    wm_class: String,
    workspace: usize,
    // state flags
    floating: bool,
    fullscreen: bool,
}

impl Client {
    /// The X window ID of this client.
    pub closed spec fn spec_id(&self) -> WinId {
        self.id
    }

    /// The WM_CLASS of this client.
    pub closed spec fn spec_class(&self) -> Seq<char> {
        self.wm_class@
    }

    /// The workspace this client is on.
    pub closed spec fn spec_workspace(&self) -> usize {
        self.workspace
    }

    /// Whether this client floats.
    pub closed spec fn spec_floating(&self) -> bool {
        self.floating
    }

    /// Whether this client is fullscreen.
    pub closed spec fn spec_fullscreen(&self) -> bool {
        self.fullscreen
    }

    /// Track a new client window on a specific workspace
    pub fn new(id: WinId, wm_class: String, workspace: usize, floating: bool) -> (r: Client)
        ensures
            r.spec_id() == id,
            r.spec_class() == wm_class@,
            r.spec_workspace() == workspace,
            r.spec_floating() == floating,
            !r.spec_fullscreen(),
    {
        Client { id, wm_class, workspace, floating: floating, fullscreen: false }
    }

    /// The X window ID of this client
    pub fn id(&self) -> (r: WinId)
        ensures
            r == self.spec_id(),
    {
        self.id
    }

    /// The current workspace index that this client is showing on
    pub fn workspace(&self) -> (r: usize)
        ensures
            r == self.spec_workspace(),
    {
        self.workspace
    }

    /// Mark this window as being on a new workspace
    pub fn set_workspace(&mut self, workspace: usize)
        ensures
            final(self).spec_workspace() == workspace,
            final(self).spec_id() == old(self).spec_id(),
            final(self).spec_class() == old(self).spec_class(),
            final(self).spec_floating() == old(self).spec_floating(),
            final(self).spec_fullscreen() == old(self).spec_fullscreen(),
    {
        self.workspace = workspace
    }

    /// The WM_CLASS of this client
    pub fn class(&self) -> (r: &str)
        ensures
            r@ == self.spec_class(),
    {
        self.wm_class.as_str()
    }
}

} // verus!

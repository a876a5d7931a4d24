//! A scratchpad that holds a single client, shown above the current layout or hidden.
//!
//! The scratchpad spawns its program when it is toggled without a client, claims the
//! next new client while it waits for one, and then shows or hides that client each
//! time it is toggled. Where the client goes on the screen is a fraction of the screen
//! and is worked out by the caller.
use vstd::prelude::*;

use crate::wm::xconnection::Xid;

verus! {

/// What the scratchpad knows of its client.
#[derive(Debug, Clone, Copy, PartialEq, Eq, Structural)]
pub struct ScratchpadState {
    /// The client held, if any
    pub client: Option<Xid>,
    /// Whether the program was spawned and its client is awaited
    pub pending: bool,
    /// Whether the client is shown
    pub visible: bool,
}

/// What toggling the scratchpad asks for.
#[derive(Debug, Clone, Copy, PartialEq, Eq, Structural)]
pub enum ScratchpadStep {
    /// Run the scratchpad's program: its client will be claimed when it appears
    Spawn,
    /// Hide the client
    Hide(Xid),
    /// Show the client on the active screen: lay that screen out (which places the
    /// client above the others) and give the client the focus if the cursor is not on it
    Show(Xid),
}

impl ScratchpadState {
    /// A scratchpad that holds no client yet.
    pub fn new() -> (r: Self)
        ensures
            r == (ScratchpadState { client: None, pending: false, visible: false }),
    {
        ScratchpadState { client: None, pending: false, visible: false }
    }

    /// Show or hide the client, or spawn the program when there is no client.
    pub fn toggle(&mut self) -> (r: ScratchpadStep)
        ensures
            match old(self).client {
                None => r == ScratchpadStep::Spawn && *final(self) == (ScratchpadState {
                    client: None,
                    pending: true,
                    visible: false,
                }),
                Some(id) => if old(self).visible {
                    r == ScratchpadStep::Hide(id) && *final(self) == (ScratchpadState {
                        visible: false,
                        ..*old(self)
                    })
                } else {
                    r == ScratchpadStep::Show(id) && *final(self) == (ScratchpadState {
                        visible: true,
                        ..*old(self)
                    })
                },
            },
    {
        match self.client {
            None => {
                self.pending = true;
                self.visible = false;
                ScratchpadStep::Spawn
            },
            Some(id) => {
                if self.visible {
                    self.visible = false;
                    ScratchpadStep::Hide(id)
                } else {
                    self.visible = true;
                    ScratchpadStep::Show(id)
                }
            },
        }
    }

    /// A new client `id` appeared: the scratchpad claims it when it is waiting for
    /// one and holds none, and then toggles it (which shows it, as a scratchpad without
    /// a client is hidden). Returns what to do, if the client was claimed (the caller
    /// then leaves its placement to the scratchpad).
    pub fn new_client(&mut self, id: Xid) -> (r: Option<ScratchpadStep>)
        ensures
            if old(self).pending && old(self).client is None {
                &&& r == Some(
                    if old(self).visible {
                        ScratchpadStep::Hide(id)
                    } else {
                        ScratchpadStep::Show(id)
                    },
                )
                &&& *final(self) == (ScratchpadState {
                    client: Some(id),
                    pending: false,
                    visible: !old(self).visible,
                })
            } else {
                r is None && *final(self) == *old(self)
            },
    {
        if self.pending && self.client.is_none() {
            self.pending = false;
            self.client = Some(id);
            Some(self.toggle())
        } else {
            None
        }
    }

    /// The client `id` is gone: if it is the scratchpad's, the scratchpad holds none.
    pub fn remove_client(&mut self, id: Xid)
        ensures
            *final(self) == (if old(self).client == Some(id) {
                ScratchpadState { client: None, visible: false, ..*old(self) }
            } else {
                *old(self)
            }),
    {
        if self.client == Some(id) {
            self.client = None;
            self.visible = false;
        }
    }

    /// The client to place above the others and show after a screen is laid out: the
    /// scratchpad's client while it is shown.
    pub fn shown_client(&self) -> (r: Option<Xid>)
        ensures
            r == (if self.visible {
                self.client
            } else {
                None
            }),
    {
        if self.visible {
            self.client
        } else {
            None
        }
    }
}

/// Toggling a scratchpad that holds a client twice leaves it as it was.
pub proof fn lemma_toggle_twice(s0: ScratchpadState, s1: ScratchpadState, s2: ScratchpadState)
    requires
        s0.client is Some,
        s1 == (ScratchpadState { visible: !s0.visible, ..s0 }),
        s2 == (ScratchpadState { visible: !s1.visible, ..s1 }),
    ensures
        s2 == s0,
{
}

} // verus!

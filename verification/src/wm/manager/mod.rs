//! The state held by the window manager and the decisions taken on it.
use vstd::prelude::*;

pub mod clients;
pub mod event;
pub mod screens;
pub mod state;
pub mod util;
pub mod workspaces;

verus! {
} // verus!

//! Extensions that run other programs.
use vstd::prelude::*;

pub mod dmenu;
pub mod notify_send;
pub mod scratchpad;

verus! {
} // verus!

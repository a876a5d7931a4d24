//! Additional layouts built on the core data types.
use vstd::prelude::*;

pub mod actions;
pub mod extensions;
pub mod hooks;
pub mod layouts;

verus! {
} // verus!

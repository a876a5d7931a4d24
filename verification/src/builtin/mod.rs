//! Built-in layouts, layout transformers and hooks.
use vstd::prelude::*;

pub mod hooks;
pub mod layout;

verus! {
} // verus!

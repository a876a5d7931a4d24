//! Pure geometry types shared by the layout transformers and the input bindings.
use vstd::prelude::*;

pub mod geometry;

verus! {
} // verus!

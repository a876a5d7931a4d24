//! Utility functions for use in other parts of penrose
use vstd::prelude::*;

use crate::wm::ring::Selector;

verus! {

/// Create a Vec of index selectors for the given input slice
pub fn index_selectors<'a, T>(len: usize) -> (r: Vec<Selector<'a, T>>)
    ensures
        r@.len() == len,
        forall|i: int| 0 <= i < len ==> (#[trigger] r@[i] matches Selector::Index(j) && j == i),
{
    let mut out: Vec<Selector<'a, T>> = Vec::new();
    let mut i: usize = 0;
    while i < len
        invariant
            i <= len,
            out@.len() == i,
            forall|k: int| 0 <= k < i ==> (#[trigger] out@[k] matches Selector::Index(j) && j == k),
        decreases len - i,
    {
        out.push(Selector::Index(i));
        i += 1;
    }
    out
}

} // verus!

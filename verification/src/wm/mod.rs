//! Core data structures and logic of the window manager.
use vstd::prelude::*;

pub mod bindings;
pub mod client;
pub mod data_types;
pub mod helpers;
pub mod hooks;
pub mod key_bindings;
pub mod key_text;
pub mod layout;
pub mod manager;
pub mod ring;
pub mod screen;
pub mod workspace;
pub mod xcb;
pub mod xconnection;

use std::cmp::Ordering;

use crate::pure::geometry::Rect;

verus! {

/// How the pair (a0, a1) compares with the pair (b0, b1): by the first items, and
/// by the second ones when the first are equal.
pub open spec fn pair_order(a0: u32, a1: u32, b0: u32, b1: u32) -> Ordering {
    if a0 < b0 {
        Ordering::Less
    } else if a0 > b0 {
        Ordering::Greater
    } else if a1 < b1 {
        Ordering::Less
    } else if a1 > b1 {
        Ordering::Greater
    } else {
        Ordering::Equal
    }
}

/// How the pair (a0, a1) compares with the pair (b0, b1).
fn compare_pairs(a0: u32, a1: u32, b0: u32, b1: u32) -> (r: Ordering)
    ensures
        r == pair_order(a0, a1, b0, b1),
{
    if a0 < b0 {
        Ordering::Less
    } else if a0 > b0 {
        Ordering::Greater
    } else if a1 < b1 {
        Ordering::Less
    } else if a1 > b1 {
        Ordering::Greater
    } else {
        Ordering::Equal
    }
}

/// Screen 0 is the leftmost, ties broken top to bottom.
pub fn left_to_right(a: &Rect, b: &Rect) -> (r: Ordering)
    ensures
        r == pair_order(a.x, a.y, b.x, b.y),
{
    compare_pairs(a.x, a.y, b.x, b.y)
}

/// Screen 0 is the topmost, ties broken left to right.
pub fn top_to_bottom(a: &Rect, b: &Rect) -> (r: Ordering)
    ensures
        r == pair_order(a.y, a.x, b.y, b.x),
{
    compare_pairs(a.y, a.x, b.y, b.x)
}

} // verus!

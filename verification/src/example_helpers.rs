//! Values for examples and tests.
use vstd::prelude::*;

use crate::wm::data_types::Region;
use crate::wm::screen::Screen;

verus! {

/// `n` screens of 1080x800, all placed at (1080 * n, 800 * n), with screen `i`
/// showing workspace `i`.
pub fn example_screens(n: u32) -> (r: Vec<Screen>)
    requires
        1080 * n <= u32::MAX,
    ensures
        r@.len() == n,
        forall|i: int|
            0 <= i < n ==> #[trigger] r@[i].true_region() == (Region { x: (1080 * n) as u32, y: (800 * n) as u32, w: 1080, h: 800 })
                && r@[i].effective_region() == r@[i].true_region() && r@[i].wix == i,
{
    let mut out: Vec<Screen> = Vec::new();
    let mut i: u32 = 0;
    while i < n
        invariant
            1080 * n <= u32::MAX,
            i <= n,
            out@.len() == i,
            forall|j: int|
                0 <= j < i ==> #[trigger] out@[j].true_region() == (Region { x: (1080 * n) as u32, y: (800 * n) as u32, w: 1080, h: 800 })
                    && out@[j].effective_region() == out@[j].true_region() && out@[j].wix == j,
        decreases n - i,
    {
        out.push(Screen::new(Region { x: 1080 * n, y: 800 * n, w: 1080, h: 800 }, i as usize));
        i = i + 1;
    }
    out
}

} // verus!

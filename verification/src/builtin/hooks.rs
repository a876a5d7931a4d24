//! Built-in hooks
use vstd::prelude::*;

use crate::pure::geometry::Rect;
use crate::Xid;

verus! {

/// Simple gaps around the window placement of the enclosed layout.
///
/// `outer_px` controls the width of the gap around the edge of the screen and `inner_px`
/// controls the gap around each individual window. Set both equal to one another to have
/// a consistant gap size in all places.
#[derive(Debug, Clone, Default)]
pub struct SpacingHook {
    /// The desired outer gap size in pixels
    pub outer_px: u32,
    /// The desired inner gap size in pixels
    pub inner_px: u32,
    /// The number of pixels to reserve at the top of the screen
    pub top_px: u32,
    /// The number of pixels to reserve at the bottom of the screen
    pub bottom_px: u32,
}

/// `r` shrunk by `px` on every side; empty rects are left alone.
pub open spec fn shrunk(r: Rect, px: u32) -> Rect {
    if r.w == 0 || r.h == 0 {
        r
    } else {
        Rect {
            x: (r.x + px) as u32,
            y: (r.y + px) as u32,
            w: (r.w - 2 * px) as u32,
            h: (r.h - 2 * px) as u32,
        }
    }
}

/// Shrinking `r` by `px` on every side stays within `u32`.
pub open spec fn shrink_fits(r: Rect, px: u32) -> bool {
    (r.w != 0 && r.h != 0) ==> (r.x + px <= u32::MAX && r.y + px <= u32::MAX && 2 * px <= r.w && 2
        * px <= r.h)
}

/// The screen region after reserving the top and bottom space, before the outer gap.
pub open spec fn reserved(r: Rect, top_px: u32, bottom_px: u32) -> Rect {
    Rect { x: r.x, y: (r.y + top_px) as u32, w: r.w, h: (r.h - top_px - bottom_px) as u32 }
}

impl SpacingHook {
    /// The region left for the layout: `r` with the top and bottom space reserved and
    /// then shrunk by the outer gap. Empty regions are left alone.
    pub fn transform_initial(&self, r: Rect) -> (out: Rect)
        requires
            (r.w != 0 && r.h != 0) ==> (r.y + self.top_px <= u32::MAX && self.top_px
                + self.bottom_px <= r.h && shrink_fits(
                reserved(r, self.top_px, self.bottom_px),
                self.outer_px,
            )),
        ensures
            out == if r.w == 0 || r.h == 0 {
                r
            } else {
                shrunk(reserved(r, self.top_px, self.bottom_px), self.outer_px)
            },
    {
        if r.w == 0 || r.h == 0 {
            return r;
        }
        let mut r = r;
        r.y = r.y + self.top_px;
        r.h = r.h - self.top_px - self.bottom_px;

        shrink(r, self.outer_px)
    }

    /// The window positions chosen by the layout, each shrunk by the inner gap.
    pub fn transform_positions(&self, positions: Vec<(Xid, Rect)>) -> (out: Vec<(Xid, Rect)>)
        requires
            forall|i: int|
                0 <= i < positions@.len() ==> shrink_fits(#[trigger] positions@[i].1, self.inner_px),
        ensures
            out@.len() == positions@.len(),
            forall|i: int|
                0 <= i < out@.len() ==> #[trigger] out@[i] == (
                    positions@[i].0,
                    shrunk(positions@[i].1, self.inner_px),
                ),
    {
        let mut out: Vec<(Xid, Rect)> = Vec::new();
        let mut i: usize = 0;
        while i < positions.len()
            invariant
                i <= positions@.len(),
                forall|j: int|
                    0 <= j < positions@.len() ==> shrink_fits(#[trigger] positions@[j].1, self.inner_px),
                out@.len() == i,
                forall|j: int|
                    0 <= j < i ==> #[trigger] out@[j] == (
                        positions@[j].0,
                        shrunk(positions@[j].1, self.inner_px),
                    ),
            decreases positions@.len() - i,
        {
            let (id, r) = positions[i];
            out.push((id, shrink(r, self.inner_px)));
            i += 1;
        }
        out
    }
}

/// Shrink `r` by `px` pixels on every side.
pub fn shrink(r: Rect, px: u32) -> (out: Rect)
    requires
        shrink_fits(r, px),
    ensures
        out == shrunk(r, px),
{
    if r.w == 0 || r.h == 0 {
        return r;
    }
    Rect { x: r.x + px, y: r.y + px, w: r.w - 2 * px, h: r.h - 2 * px }
}

/// A shrunk rect lies inside the rect it was shrunk from.
pub proof fn lemma_shrunk_is_inside(r: Rect, px: u32)
    requires
        shrink_fits(r, px),
    ensures
        r.x <= shrunk(r, px).x,
        r.y <= shrunk(r, px).y,
        shrunk(r, px).x + shrunk(r, px).w <= r.x + r.w,
        shrunk(r, px).y + shrunk(r, px).h <= r.y + r.h,
{
}

} // verus!

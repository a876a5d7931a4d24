//! Built-in layout transformers: reflecting and shrinking window positions.
use vstd::prelude::*;

use crate::pure::geometry::Rect;
use crate::Xid;

verus! {

/// The horizontal midpoint of `r`.
pub open spec fn mid_x(r: Rect) -> int {
    r.x + r.w / 2
}

/// The vertical midpoint of `r`.
pub open spec fn mid_y(r: Rect) -> int {
    r.y + r.h / 2
}

/// The coordinate that a window at `pos` of extent `len` is moved to when reflected
/// about `mid`: the distance from its far edge to the midpoint becomes the distance
/// from the midpoint to its near edge.
pub open spec fn reflected(mid: int, pos: int, len: int) -> int {
    2 * mid - pos - len
}

/// Reflecting a window at `pos` of extent `len` about `mid` stays within `u32`.
pub open spec fn reflect_fits(mid: int, pos: int, len: int) -> bool {
    2 * mid <= u32::MAX && pos + len <= 2 * mid
}

/// Wrap an existing layout and reflect its window positions horizontally.
pub fn reflect_horizontal(r: Rect, positions: Vec<(Xid, Rect)>) -> (out: Vec<(Xid, Rect)>)
    requires
        r.x + r.w / 2 <= u32::MAX,
        forall|i: int|
            0 <= i < positions@.len() ==> reflect_fits(
                mid_x(r),
                #[trigger] positions@[i].1.x as int,
                positions@[i].1.w as int,
            ),
    ensures
        out@.len() == positions@.len(),
        forall|i: int|
            0 <= i < out@.len() ==> #[trigger] out@[i] == (
                positions@[i].0,
                Rect {
                    x: reflected(mid_x(r), positions@[i].1.x as int, positions@[i].1.w as int) as u32,
                    ..positions@[i].1
                },
            ),
{
    let mid = r.x + r.w / 2;
    let mut out: Vec<(Xid, Rect)> = Vec::new();
    let mut i: usize = 0;
    while i < positions.len()
        invariant
            i <= positions@.len(),
            mid == mid_x(r),
            forall|j: int|
                0 <= j < positions@.len() ==> reflect_fits(
                    mid_x(r),
                    #[trigger] positions@[j].1.x as int,
                    positions@[j].1.w as int,
                ),
            out@.len() == i,
            forall|j: int|
                0 <= j < i ==> #[trigger] out@[j] == (
                    positions@[j].0,
                    Rect {
                        x: reflected(mid_x(r), positions@[j].1.x as int, positions@[j].1.w as int) as u32,
                        ..positions@[j].1
                    },
                ),
        decreases positions@.len() - i,
    {
        let (id, p) = positions[i];
        assert(reflect_fits(mid_x(r), positions@[i as int].1.x as int, positions@[i as int].1.w as int));
        let x = 2 * mid - p.x - p.w;
        out.push((id, Rect { x, y: p.y, w: p.w, h: p.h }));
        i += 1;
    }
    out
}

/// Wrap an existing layout and reflect its window positions vertically.
pub fn reflect_vertical(r: Rect, positions: Vec<(Xid, Rect)>) -> (out: Vec<(Xid, Rect)>)
    requires
        r.y + r.h / 2 <= u32::MAX,
        forall|i: int|
            0 <= i < positions@.len() ==> reflect_fits(
                mid_y(r),
                #[trigger] positions@[i].1.y as int,
                positions@[i].1.h as int,
            ),
    ensures
        out@.len() == positions@.len(),
        forall|i: int|
            0 <= i < out@.len() ==> #[trigger] out@[i] == (
                positions@[i].0,
                Rect {
                    y: reflected(mid_y(r), positions@[i].1.y as int, positions@[i].1.h as int) as u32,
                    ..positions@[i].1
                },
            ),
{
    let mid = r.y + r.h / 2;
    let mut out: Vec<(Xid, Rect)> = Vec::new();
    let mut i: usize = 0;
    while i < positions.len()
        invariant
            i <= positions@.len(),
            mid == mid_y(r),
            forall|j: int|
                0 <= j < positions@.len() ==> reflect_fits(
                    mid_y(r),
                    #[trigger] positions@[j].1.y as int,
                    positions@[j].1.h as int,
                ),
            out@.len() == i,
            forall|j: int|
                0 <= j < i ==> #[trigger] out@[j] == (
                    positions@[j].0,
                    Rect {
                        y: reflected(mid_y(r), positions@[j].1.y as int, positions@[j].1.h as int) as u32,
                        ..positions@[j].1
                    },
                ),
        decreases positions@.len() - i,
    {
        let (id, p) = positions[i];
        assert(reflect_fits(mid_y(r), positions@[i as int].1.y as int, positions@[i as int].1.h as int));
        let y = 2 * mid - p.y - p.h;
        out.push((id, Rect { x: p.x, y, w: p.w, h: p.h }));
        i += 1;
    }
    out
}

/// `r` shrunk by `px` on every side; empty rects are left alone.
pub open spec fn shrunk(r: Rect, px: u32) -> Rect {
    if r.w == 0 || r.h == 0 {
        r
    } else {
        Rect {
            x: (r.x + px) as u32,
            y: (r.y + px) as u32,
            w: (r.w - 2 * px) as u32,
            h: (r.h - 2 * px) as u32,
        }
    }
}

/// Shrinking `r` by `px` on every side stays within `u32`.
pub open spec fn shrink_fits(r: Rect, px: u32) -> bool {
    (r.w != 0 && r.h != 0) ==> (r.x + px <= u32::MAX && r.y + px <= u32::MAX && 2 * px <= r.w && 2
        * px <= r.h)
}

/// Shrink `r` by `px` pixels on every side.
pub fn shrink(r: Rect, px: u32) -> (out: Rect)
    requires
        shrink_fits(r, px),
    ensures
        out == shrunk(r, px),
{
    if r.w == 0 || r.h == 0 {
        return r;
    }
    Rect { x: r.x + px, y: r.y + px, w: r.w - 2 * px, h: r.h - 2 * px }
}

/// Reflecting a position about a midpoint twice gives back the position it started from.
pub proof fn lemma_reflect_involution(mid: int, pos: int, len: int)
    requires
        reflect_fits(mid, pos, len),
        pos >= 0,
        len >= 0,
    ensures
        reflect_fits(mid, reflected(mid, pos, len), len),
        reflected(mid, reflected(mid, pos, len), len) == pos,
{
}

/// A window inside the region being laid out stays inside it when reflected.
pub proof fn lemma_reflect_stays_inside(r: Rect, p: Rect)
    requires
        r.w % 2 == 0,
        2 * r.x + r.w <= u32::MAX,
        r.x <= p.x,
        p.x + p.w <= r.x + r.w,
    ensures
        reflect_fits(mid_x(r), p.x as int, p.w as int),
        r.x <= reflected(mid_x(r), p.x as int, p.w as int),
        reflected(mid_x(r), p.x as int, p.w as int) + p.w <= r.x + r.w,
{
}

} // verus!

//! The window positions of the main-and-stack and centered-main layouts.
//!
//! The share of the screen that the main area takes is a fraction: the caller works
//! out the width (or height) at which the screen is split, and whether the fraction
//! is 0 or 1 (then every window goes in a single stack).
use vstd::prelude::*;

use crate::pure::geometry::{rect_columns, rect_rows, Rect};
use crate::Xid;

verus! {

/// The windows `ids` paired in order with the regions `rs`, as far as both go.
pub open spec fn paired(ids: Seq<Xid>, rs: Seq<Rect>) -> Seq<(Xid, Rect)> {
    Seq::new(
        if ids.len() < rs.len() {
            ids.len()
        } else {
            rs.len()
        },
        |i: int| (ids[i], rs[i]),
    )
}

/// The part of `r` left of the width `w`.
pub open spec fn left_part(r: Rect, w: u32) -> Rect {
    Rect { w, ..r }
}

/// The part of `r` right of the width `w`.
pub open spec fn right_part(r: Rect, w: u32) -> Rect {
    Rect { x: (r.x + w) as u32, w: (r.w - w) as u32, ..r }
}

/// The part of `r` above the height `h`.
pub open spec fn top_part(r: Rect, h: u32) -> Rect {
    Rect { h, ..r }
}

/// The part of `r` below the height `h`.
pub open spec fn bottom_part(r: Rect, h: u32) -> Rect {
    Rect { y: (r.y + h) as u32, h: (r.h - h) as u32, ..r }
}

/// `a - b`, or 0 when `b` is the larger.
pub open spec fn sat_sub(a: u32, b: u32) -> u32 {
    if a > b {
        (a - b) as u32
    } else {
        0
    }
}

/// Every window of a main-and-stack layout goes in a single stack: there are no more
/// than fit in the main area, the main area holds none, or the main area takes all or
/// none of the screen (`extreme`).
pub open spec fn single_stack(n: u32, max_main: u32, extreme: bool) -> bool {
    n <= max_main || max_main == 0 || extreme
}

/// The main-and-stack layout with the stack at the side: `max_main` windows in rows
/// on the main area, the first `split` pixels of the width (the other side when
/// `mirrored`), and the rest in rows beside it.
pub open spec fn main_and_stack_side(
    ids: Seq<Xid>,
    r: Rect,
    max_main: u32,
    extreme: bool,
    split: u32,
    mirrored: bool,
) -> Seq<(Xid, Rect)> {
    let n = ids.len() as u32;
    if single_stack(n, max_main, extreme) {
        paired(ids, rect_rows(r, n))
    } else {
        let (main, stack) = if mirrored {
            (right_part(r, split), left_part(r, split))
        } else {
            (left_part(r, split), right_part(r, split))
        };
        paired(ids, rect_rows(main, max_main) + rect_rows(stack, sat_sub(n, max_main)))
    }
}

/// The main-and-stack layout with the stack at the bottom: `max_main` windows in
/// columns on the main area, the first `split` pixels of the height (the other end when
/// `mirrored`), and the rest in columns below it.
pub open spec fn main_and_stack_bottom(
    ids: Seq<Xid>,
    r: Rect,
    max_main: u32,
    extreme: bool,
    split: u32,
    mirrored: bool,
) -> Seq<(Xid, Rect)> {
    let n = ids.len() as u32;
    if single_stack(n, max_main, extreme) {
        paired(ids, rect_columns(r, n))
    } else {
        let (main, stack) = if mirrored {
            (bottom_part(r, split), top_part(r, split))
        } else {
            (top_part(r, split), bottom_part(r, split))
        };
        paired(ids, rect_columns(main, max_main) + rect_columns(stack, sat_sub(n, max_main)))
    }
}

/// The centered-main layout with stacks to the left and right: `max_main` windows in
/// rows in the middle, then half of the others (rounded up) in rows on the left and
/// the rest in rows on the right. The left and middle together take the first `outer`
/// pixels of the width, and the left is as wide as the right. (`split` divides the
/// screen in two when nothing goes on the left.)
pub open spec fn centered_main_vertical(
    ids: Seq<Xid>,
    r: Rect,
    max_main: u32,
    extreme: bool,
    split: u32,
    outer: u32,
) -> Seq<(Xid, Rect)> {
    let n = ids.len() as u32;
    if n <= max_main || extreme {
        paired(ids, rect_rows(r, n))
    } else {
        let n_right = sat_sub(n, max_main) / 2;
        let n_left = sat_sub(sat_sub(n, n_right), max_main);
        if n_left == 0 {
            paired(ids, rect_rows(left_part(r, split), max_main) + rect_rows(right_part(r, split), n_right))
        } else {
            let left_and_main = left_part(r, outer);
            let right = right_part(r, outer);
            paired(
                ids,
                rect_rows(right_part(left_and_main, right.w), max_main) + rect_rows(
                    left_part(left_and_main, right.w),
                    n_left,
                ) + rect_rows(right, n_right),
            )
        }
    }
}

/// The centered-main layout with stacks above and below: `max_main` windows in
/// columns in the middle, then half of the others (rounded down) in columns on top and
/// the rest in columns below. The top and middle together take the first `outer` pixels
/// of the height, and the top is as tall as the bottom. (`split` divides the screen in
/// two when nothing goes below.)
pub open spec fn centered_main_horizontal(
    ids: Seq<Xid>,
    r: Rect,
    max_main: u32,
    extreme: bool,
    split: u32,
    outer: u32,
) -> Seq<(Xid, Rect)> {
    let n = ids.len() as u32;
    if n <= max_main || extreme {
        paired(ids, rect_columns(r, n))
    } else {
        let n_top = sat_sub(n, max_main) / 2;
        let n_bottom = sat_sub(sat_sub(n, n_top), max_main);
        if n_bottom == 0 {
            paired(
                ids,
                rect_columns(top_part(r, split), max_main) + rect_columns(bottom_part(r, split), n_bottom),
            )
        } else {
            let top_and_main = top_part(r, outer);
            let bottom = bottom_part(r, outer);
            paired(
                ids,
                rect_columns(bottom_part(top_and_main, bottom.h), max_main) + rect_columns(
                    top_part(top_and_main, bottom.h),
                    n_top,
                ) + rect_columns(bottom, n_bottom),
            )
        }
    }
}

/// Pair each window with the region at its position, as far as both go.
fn pair_up(ids: &[Xid], rs: Vec<Rect>) -> (r: Vec<(Xid, Rect)>)
    ensures
        r@ == paired(ids@, rs@),
{
    let n = if ids.len() < rs.len() {
        ids.len()
    } else {
        rs.len()
    };
    let mut out: Vec<(Xid, Rect)> = Vec::new();
    let mut i: usize = 0;
    while i < n
        invariant
            n <= ids@.len(),
            n <= rs@.len(),
            n == (if ids@.len() < rs@.len() {
                ids@.len()
            } else {
                rs@.len()
            }),
            i <= n,
            out@ =~= paired(ids@, rs@).take(i as int),
        decreases n - i,
    {
        out.push((ids[i], rs[i]));
        i = i + 1;
    }
    out
}

/// `a - b`, or 0 when `b` is the larger.
fn saturating_sub(a: u32, b: u32) -> (r: u32)
    ensures
        r == sat_sub(a, b),
{
    if a > b {
        a - b
    } else {
        0
    }
}

/// Lay out `ids` with the main-and-stack layout, stack at the side; see
/// [main_and_stack_side]. `split` is the width of the first part when the screen is
/// split into main area and stack.
pub fn layout_side(ids: &[Xid], r: Rect, max_main: u32, extreme: bool, split: u32, mirrored: bool) -> (out: Vec<
    (Xid, Rect),
>)
    requires
        ids@.len() <= u32::MAX,
        r.x + r.w <= u32::MAX,
        r.y + r.h <= u32::MAX,
        !single_stack(ids@.len() as u32, max_main, extreme) ==> split < r.w,
    ensures
        out@ == main_and_stack_side(ids@, r, max_main, extreme, split, mirrored),
{
    let n = ids.len() as u32;
    if n <= max_main || max_main == 0 || extreme {
        return pair_up(ids, r.as_rows(n));
    }
    let first = Rect::new(r.x, r.y, split, r.h);
    let second = Rect::new(r.x + split, r.y, r.w - split, r.h);
    let (main, stack) = if mirrored {
        (second, first)
    } else {
        (first, second)
    };
    let mut rs = main.as_rows(max_main);
    let mut rest = stack.as_rows(saturating_sub(n, max_main));
    rs.append(&mut rest);
    pair_up(ids, rs)
}

/// Lay out `ids` with the main-and-stack layout, stack at the bottom; see
/// [main_and_stack_bottom]. `split` is the height of the first part when the screen is
/// split into main area and stack.
pub fn layout_bottom(ids: &[Xid], r: Rect, max_main: u32, extreme: bool, split: u32, mirrored: bool) -> (out: Vec<
    (Xid, Rect),
>)
    requires
        ids@.len() <= u32::MAX,
        r.x + r.w <= u32::MAX,
        r.y + r.h <= u32::MAX,
        !single_stack(ids@.len() as u32, max_main, extreme) ==> split < r.h,
    ensures
        out@ == main_and_stack_bottom(ids@, r, max_main, extreme, split, mirrored),
{
    let n = ids.len() as u32;
    if n <= max_main || max_main == 0 || extreme {
        return pair_up(ids, r.as_columns(n));
    }
    let first = Rect::new(r.x, r.y, r.w, split);
    let second = Rect::new(r.x, r.y + split, r.w, r.h - split);
    let (main, stack) = if mirrored {
        (second, first)
    } else {
        (first, second)
    };
    let mut rs = main.as_columns(max_main);
    let mut rest = stack.as_columns(saturating_sub(n, max_main));
    rs.append(&mut rest);
    pair_up(ids, rs)
}

/// Lay out `ids` with the centered-main layout, stacks to the left and right; see
/// [centered_main_vertical].
pub fn layout_vertical(ids: &[Xid], r: Rect, max_main: u32, extreme: bool, split: u32, outer: u32) -> (out: Vec<
    (Xid, Rect),
>)
    requires
        ids@.len() <= u32::MAX,
        r.x + r.w <= u32::MAX,
        r.y + r.h <= u32::MAX,
        !(ids@.len() as u32 <= max_main || extreme) ==> outer < r.w && r.w - outer < outer,
        !(ids@.len() as u32 <= max_main || extreme) && sat_sub(
            sat_sub(ids@.len() as u32, sat_sub(ids@.len() as u32, max_main) / 2),
            max_main,
        ) == 0 ==> split < r.w,
    ensures
        out@ == centered_main_vertical(ids@, r, max_main, extreme, split, outer),
{
    let n = ids.len() as u32;
    if n <= max_main || extreme {
        return pair_up(ids, r.as_rows(n));
    }
    let n_right = saturating_sub(n, max_main) / 2;
    let n_left = saturating_sub(saturating_sub(n, n_right), max_main);
    if n_left == 0 {
        let main = Rect::new(r.x, r.y, split, r.h);
        let stack = Rect::new(r.x + split, r.y, r.w - split, r.h);
        let mut rs = main.as_rows(max_main);
        let mut rest = stack.as_rows(n_right);
        rs.append(&mut rest);
        return pair_up(ids, rs);
    }
    let right = Rect::new(r.x + outer, r.y, r.w - outer, r.h);
    let left = Rect::new(r.x, r.y, right.w, r.h);
    let main = Rect::new(r.x + right.w, r.y, outer - right.w, r.h);
    let mut rs = main.as_rows(max_main);
    let mut lefts = left.as_rows(n_left);
    let mut rights = right.as_rows(n_right);
    rs.append(&mut lefts);
    rs.append(&mut rights);
    pair_up(ids, rs)
}

/// Lay out `ids` with the centered-main layout, stacks above and below; see
/// [centered_main_horizontal].
pub fn layout_horizontal(ids: &[Xid], r: Rect, max_main: u32, extreme: bool, split: u32, outer: u32) -> (out: Vec<
    (Xid, Rect),
>)
    requires
        ids@.len() <= u32::MAX,
        r.x + r.w <= u32::MAX,
        r.y + r.h <= u32::MAX,
        !(ids@.len() as u32 <= max_main || extreme) ==> outer < r.h && r.h - outer < outer,
        !(ids@.len() as u32 <= max_main || extreme) && sat_sub(
            sat_sub(ids@.len() as u32, sat_sub(ids@.len() as u32, max_main) / 2),
            max_main,
        ) == 0 ==> split < r.h,
    ensures
        out@ == centered_main_horizontal(ids@, r, max_main, extreme, split, outer),
{
    let n = ids.len() as u32;
    if n <= max_main || extreme {
        return pair_up(ids, r.as_columns(n));
    }
    let n_top = saturating_sub(n, max_main) / 2;
    let n_bottom = saturating_sub(saturating_sub(n, n_top), max_main);
    if n_bottom == 0 {
        let main = Rect::new(r.x, r.y, r.w, split);
        let stack = Rect::new(r.x, r.y + split, r.w, r.h - split);
        let mut rs = main.as_columns(max_main);
        let mut rest = stack.as_columns(n_bottom);
        rs.append(&mut rest);
        return pair_up(ids, rs);
    }
    let bottom = Rect::new(r.x, r.y + outer, r.w, r.h - outer);
    let top = Rect::new(r.x, r.y, r.w, bottom.h);
    let main = Rect::new(r.x, r.y + bottom.h, r.w, outer - bottom.h);
    let mut rs = main.as_columns(max_main);
    let mut tops = top.as_columns(n_top);
    let mut bottoms = bottom.as_columns(n_bottom);
    rs.append(&mut tops);
    rs.append(&mut bottoms);
    pair_up(ids, rs)
}

/// The smallest number of columns from `i` on whose square holds `n` windows.
pub open spec fn grid_cols_from(n: nat, i: nat) -> nat
    decreases n - i,
{
    if i * i >= n || i >= n {
        i
    } else {
        grid_cols_from(n, i + 1)
    }
}

/// The number of columns of the grid layout of `n` windows: the smallest positive
/// number whose square is at least `n`.
pub open spec fn grid_cols(n: nat) -> nat {
    grid_cols_from(n, 1)
}

/// The number of rows of the grid layout of `n` windows in `cols` columns: one fewer
/// than the columns when that still holds them all.
pub open spec fn grid_rows(n: nat, cols: nat) -> nat {
    if cols * (cols - 1) >= n {
        (cols - 1) as nat
    } else {
        cols
    }
}

/// Each of `rows` divided into `cols` columns, in order.
pub open spec fn cells(rows: Seq<Rect>, cols: u32) -> Seq<Rect>
    decreases rows.len(),
{
    if rows.len() == 0 {
        seq![]
    } else {
        cells(rows.drop_last(), cols) + rect_columns(rows.last(), cols)
    }
}

/// The grid layout: the screen divided into rows of equal cells, filled in order.
pub open spec fn grid(ids: Seq<Xid>, r: Rect) -> Seq<(Xid, Rect)> {
    let cols = grid_cols(ids.len());
    let rows = grid_rows(ids.len(), cols);
    paired(ids, cells(rect_rows(r, rows as u32), cols as u32))
}

/// The columns found from `i` on are at least `i`, and hold the windows.
proof fn lemma_grid_cols_from(n: nat, i: nat)
    requires
        i >= 1,
    ensures
        grid_cols_from(n, i) >= i,
        grid_cols_from(n, i) * grid_cols_from(n, i) >= n,
        grid_cols_from(n, i) <= if n > i { n } else { i },
    decreases n - i,
{
    if i * i >= n || i >= n {
        if i >= n {
            assert(i * i >= i) by (nonlinear_arith)
                requires
                    i >= 1,
            ;
        }
    } else {
        lemma_grid_cols_from(n, i + 1);
    }
}

/// Lay out `ids` in a grid over `r`; see [grid].
pub fn layout_grid(ids: &[Xid], r: Rect) -> (out: Vec<(Xid, Rect)>)
    requires
        ids@.len() <= u32::MAX,
        r.x + r.w <= u32::MAX,
        r.y + r.h <= u32::MAX,
    ensures
        out@ == grid(ids@, r),
{
    let n = ids.len() as u64;
    let mut cols: u64 = 1;
    proof {
        lemma_grid_cols_from(n as nat, 1);
    }
    while cols < n && cols * cols < n
        invariant
            n == ids@.len(),
            n <= u32::MAX,
            1 <= cols <= u32::MAX,
            cols <= n || cols == 1,
            cols * cols <= u32::MAX * u32::MAX,
            grid_cols_from(n as nat, cols as nat) == grid_cols(n as nat),
        decreases n - cols,
    {
        cols = cols + 1;
        assert(cols * cols <= u32::MAX * u32::MAX) by (nonlinear_arith)
            requires
                cols <= u32::MAX,
        ;
    }
    assert(cols * (cols - 1) <= cols * cols) by (nonlinear_arith)
        requires
            cols >= 1,
    ;
    let rows = if cols * (cols - 1) >= n {
        cols - 1
    } else {
        cols
    };
    let row_rects = r.as_rows(rows as u32);
    let mut rects: Vec<Rect> = Vec::new();
    let mut k: usize = 0;
    while k < row_rects.len()
        invariant
            k <= row_rects@.len(),
            forall|q: int| 0 <= q < row_rects@.len() ==> #[trigger] row_rects@[q].x == r.x && row_rects@[q].w == r.w,
            r.x + r.w <= u32::MAX,
            rects@ == cells(row_rects@.take(k as int), cols as u32),
        decreases row_rects@.len() - k,
    {
        let row = row_rects[k];
        let mut more = row.as_columns(cols as u32);
        proof {
            assert(row_rects@.take(k + 1).drop_last() =~= row_rects@.take(k as int));
            assert(row_rects@.take(k + 1).last() == row);
        }
        rects.append(&mut more);
        k = k + 1;
    }
    assert(row_rects@.take(k as int) =~= row_rects@);
    pair_up(ids, rects)
}

} // verus!

verus! {

/// A layout that gives the whole screen to the focused client.
#[derive(Debug, Clone, Copy)]
pub struct Monocle;

impl Monocle {
    /// The symbol that names this layout.
    pub fn name(&self) -> (r: String)
        ensures
            r@ == "Mono"@,
    {
        "Mono".to_owned()
    }

    /// The focused client takes all of `r`; no other client is positioned.
    pub fn layout(&self, focus: Xid, r: Rect) -> (out: Vec<(Xid, Rect)>)
        ensures
            out@ == seq![(focus, r)],
    {
        vec![(focus, r)]
    }
}

/// A layout that places clients in the smallest square grid that holds them all,
/// dropping the last row where that row would be empty; see [grid].
#[derive(Debug, Default, Clone, Copy)]
pub struct Grid;

impl Grid {
    /// The symbol that names this layout.
    pub fn name(&self) -> (r: String)
        ensures
            r@ == "Grid"@,
    {
        "Grid".to_owned()
    }

    /// Lay out `ids` in a grid over `r`.
    pub fn layout(&self, ids: &[Xid], r: Rect) -> (out: Vec<(Xid, Rect)>)
        requires
            ids@.len() <= u32::MAX,
            r.x + r.w <= u32::MAX,
            r.y + r.h <= u32::MAX,
        ensures
            out@ == grid(ids@, r),
    {
        layout_grid(ids, r)
    }
}

} // verus!

verus! {

/// In the main-and-stack layout with the stack at the bottom (when the windows do not
/// all go in one stack), the first `max_main` windows fill the main area and the others
/// the stack: the main area is the part above the split line and the stack the part
/// below it, and mirroring exchanges the two, so that the main area is at the bottom.
/// Every window keeps its place in the order.
pub proof fn lemma_bottom_parts(
    ids: Seq<Xid>,
    r: Rect,
    max_main: u32,
    extreme: bool,
    split: u32,
    mirrored: bool,
    i: int,
)
    requires
        ids.len() <= u32::MAX,
        r.y + r.h <= u32::MAX,
        split < r.h,
        !single_stack(ids.len() as u32, max_main, extreme),
        0 <= i < ids.len(),
    ensures
        main_and_stack_bottom(ids, r, max_main, extreme, split, mirrored).len() == ids.len(),
        main_and_stack_bottom(ids, r, max_main, extreme, split, mirrored)[i].0 == ids[i],
        ((i < max_main) != mirrored) ==> {
            let c = main_and_stack_bottom(ids, r, max_main, extreme, split, mirrored)[i].1;
            c.y == r.y && c.y + c.h == r.y + split
        },
        ((i < max_main) == mirrored) ==> {
            let c = main_and_stack_bottom(ids, r, max_main, extreme, split, mirrored)[i].1;
            c.y == r.y + split && c.y + c.h == r.y + r.h
        },
{
    let n = ids.len() as u32;
    let (main, stack) = if mirrored {
        (bottom_part(r, split), top_part(r, split))
    } else {
        (top_part(r, split), bottom_part(r, split))
    };
    let m = rect_columns(main, max_main);
    let s = rect_columns(stack, sat_sub(n, max_main));
    assert(m.len() == max_main);
    assert(s.len() == n - max_main);
    let all = m + s;
    if i < max_main {
        assert(all[i] == m[i]);
        assert(m[i].y == main.y && m[i].h == main.h);
    } else {
        assert(all[i] == s[i - max_main]);
        assert(s[i - max_main].y == stack.y && s[i - max_main].h == stack.h);
    }
}

/// In the main-and-stack layout with the stack at the side (when the windows do not
/// all go in one stack), the first `max_main` windows fill the main area and the others
/// the stack: the main area is the part left of the split line and the stack the part
/// right of it, and mirroring exchanges the two. Every window keeps its place in the
/// order.
pub proof fn lemma_side_parts(
    ids: Seq<Xid>,
    r: Rect,
    max_main: u32,
    extreme: bool,
    split: u32,
    mirrored: bool,
    i: int,
)
    requires
        ids.len() <= u32::MAX,
        r.x + r.w <= u32::MAX,
        split < r.w,
        !single_stack(ids.len() as u32, max_main, extreme),
        0 <= i < ids.len(),
    ensures
        main_and_stack_side(ids, r, max_main, extreme, split, mirrored).len() == ids.len(),
        main_and_stack_side(ids, r, max_main, extreme, split, mirrored)[i].0 == ids[i],
        ((i < max_main) != mirrored) ==> {
            let c = main_and_stack_side(ids, r, max_main, extreme, split, mirrored)[i].1;
            c.x == r.x && c.x + c.w == r.x + split
        },
        ((i < max_main) == mirrored) ==> {
            let c = main_and_stack_side(ids, r, max_main, extreme, split, mirrored)[i].1;
            c.x == r.x + split && c.x + c.w == r.x + r.w
        },
{
    let n = ids.len() as u32;
    let (main, stack) = if mirrored {
        (right_part(r, split), left_part(r, split))
    } else {
        (left_part(r, split), right_part(r, split))
    };
    let m = rect_rows(main, max_main);
    let s = rect_rows(stack, sat_sub(n, max_main));
    assert(m.len() == max_main);
    assert(s.len() == n - max_main);
    let all = m + s;
    if i < max_main {
        assert(all[i] == m[i]);
        assert(m[i].x == main.x && m[i].w == main.w);
    } else {
        assert(all[i] == s[i - max_main]);
        assert(s[i - max_main].x == stack.x && s[i - max_main].w == stack.w);
    }
}

} // verus!

verus! {

/// In the centered-main layout with stacks to the left and right (when there are
/// windows for both stacks), the first `max_main` windows fill the middle column, the
/// next ones the left stack and the rest the right stack; the left and right stacks
/// are equally wide and the middle lies between them. Every window keeps its place in
/// the order.
pub proof fn lemma_centered_vertical_parts(
    ids: Seq<Xid>,
    r: Rect,
    max_main: u32,
    split: u32,
    outer: u32,
    i: int,
)
    requires
        ids.len() <= u32::MAX,
        r.x + r.w <= u32::MAX,
        outer < r.w,
        r.w - outer < outer,
        1 <= max_main < ids.len(),
        sat_sub(sat_sub(ids.len() as u32, sat_sub(ids.len() as u32, max_main) / 2), max_main) > 0,
        0 <= i < ids.len(),
    ensures
        ({
            let n = ids.len() as u32;
            let n_left = sat_sub(sat_sub(n, sat_sub(n, max_main) / 2), max_main);
            let l = centered_main_vertical(ids, r, max_main, false, split, outer);
            let c = l[i].1;
            &&& l.len() == ids.len()
            &&& l[i].0 == ids[i]
            &&& i < max_main ==> c.x == r.x + (r.w - outer) && c.x + c.w == r.x + outer
            &&& max_main <= i < max_main + n_left ==> c.x == r.x && c.x + c.w == r.x + (r.w - outer)
            &&& max_main + n_left <= i ==> c.x == r.x + outer && c.x + c.w == r.x + r.w
        }),
{
    let n = ids.len() as u32;
    let n_right = sat_sub(n, max_main) / 2;
    let n_left = sat_sub(sat_sub(n, n_right), max_main);
    let left_and_main = left_part(r, outer);
    let right = right_part(r, outer);
    let m = rect_rows(right_part(left_and_main, right.w), max_main);
    let a = rect_rows(left_part(left_and_main, right.w), n_left);
    let b = rect_rows(right, n_right);
    assert(m.len() == max_main);
    assert(a.len() == n_left);
    assert(b.len() >= n_right);
    let all = m + a + b;
    if i < max_main {
        assert(all[i] == m[i]);
    } else if i < max_main + n_left {
        assert(all[i] == a[i - max_main]);
    } else {
        assert(all[i] == b[i - max_main - n_left]);
    }
}

/// In the centered-main layout with stacks above and below (when there are windows
/// for both stacks, at least one above and one below), the first `max_main` windows fill the middle band, the next ones
/// the top stack and the rest the bottom stack; the top and bottom stacks are equally
/// tall and the middle lies between them. Every window keeps its place in the order.
pub proof fn lemma_centered_horizontal_parts(
    ids: Seq<Xid>,
    r: Rect,
    max_main: u32,
    split: u32,
    outer: u32,
    i: int,
)
    requires
        ids.len() <= u32::MAX,
        r.y + r.h <= u32::MAX,
        outer < r.h,
        r.h - outer < outer,
        1 <= max_main < ids.len(),
        sat_sub(sat_sub(ids.len() as u32, sat_sub(ids.len() as u32, max_main) / 2), max_main) > 0,
        sat_sub(ids.len() as u32, max_main) / 2 >= 1,
        0 <= i < ids.len(),
    ensures
        ({
            let n = ids.len() as u32;
            let n_top = sat_sub(n, max_main) / 2;
            let l = centered_main_horizontal(ids, r, max_main, false, split, outer);
            let c = l[i].1;
            &&& l.len() == ids.len()
            &&& l[i].0 == ids[i]
            &&& i < max_main ==> c.y == r.y + (r.h - outer) && c.y + c.h == r.y + outer
            &&& max_main <= i < max_main + n_top ==> c.y == r.y && c.y + c.h == r.y + (r.h - outer)
            &&& max_main + n_top <= i ==> c.y == r.y + outer && c.y + c.h == r.y + r.h
        }),
{
    let n = ids.len() as u32;
    let n_top = sat_sub(n, max_main) / 2;
    let n_bottom = sat_sub(sat_sub(n, n_top), max_main);
    let top_and_main = top_part(r, outer);
    let bottom = bottom_part(r, outer);
    let m = rect_columns(bottom_part(top_and_main, bottom.h), max_main);
    let a = rect_columns(top_part(top_and_main, bottom.h), n_top);
    let b = rect_columns(bottom, n_bottom);
    assert(m.len() == max_main);
    assert(n_top >= 1 ==> a.len() == n_top);
    assert(b.len() == n_bottom);
    let all = m + a + b;
    if i < max_main {
        assert(all[i] == m[i]);
    } else if i < max_main + n_top {
        assert(all[i] == a[i - max_main]);
    } else {
        assert(all[i] == b[i - max_main - n_top]);
    }
}

} // verus!

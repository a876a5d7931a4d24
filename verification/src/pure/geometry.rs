//! Points and rectangles in root window coordinates.
use vstd::prelude::*;

verus! {

/// An x,y coordinate pair, possibly negative (pointers can leave the root window).
#[derive(Debug, Default, Copy, Clone, PartialEq, Eq, Hash, Structural)]
pub struct Point {
    /// An absolute x coordinate relative to the root window
    pub x: i32,
    /// An absolute y coordinate relative to the root window
    pub y: i32,
}

impl Point {
    /// Create a new Point.
    pub fn new(x: i32, y: i32) -> (r: Point)
        ensures
            r.x == x,
            r.y == y,
    {
        Point { x, y }
    }
}

/// A rectangle: the position of its top left corner and its extent.
#[derive(Debug, Default, Copy, Clone, PartialEq, Eq, Hash, Structural)]
pub struct Rect {
    /// The x-coordinate of the top left corner
    pub x: u32,
    /// The y-coordinate of the top left corner
    pub y: u32,
    /// The width
    pub w: u32,
    /// The height
    pub h: u32,
}

/// The `n` rows of equal height that `r` divides into (all of `r` for one row or none).
pub open spec fn rect_rows(r: Rect, n: u32) -> Seq<Rect> {
    if n <= 1 {
        seq![r]
    } else {
        Seq::new(n as nat, |i: int| Rect { x: r.x, y: (r.y + i * (r.h / n)) as u32, w: r.w, h: r.h / n })
    }
}

/// The `n` columns of equal width that `r` divides into (all of `r` for one column or
/// none).
pub open spec fn rect_columns(r: Rect, n: u32) -> Seq<Rect> {
    if n <= 1 {
        seq![r]
    } else {
        Seq::new(n as nat, |i: int| Rect { x: (r.x + i * (r.w / n)) as u32, y: r.y, w: r.w / n, h: r.h })
    }
}

impl Rect {
    /// Create a new Rect.
    pub fn new(x: u32, y: u32, w: u32, h: u32) -> (r: Rect)
        ensures
            r == (Rect { x, y, w, h }),
    {
        Rect { x, y, w, h }
    }

    /// Divide this rectangle into `n_rows` rows of equal height.
    pub fn as_rows(&self, n_rows: u32) -> (r: Vec<Rect>)
        requires
            self.y + self.h <= u32::MAX,
        ensures
            r@ == rect_rows(*self, n_rows),
    {
        if n_rows <= 1 {
            return vec![*self];
        }
        let h = self.h / n_rows;
        let mut out: Vec<Rect> = Vec::new();
        let mut n: u32 = 0;
        while n < n_rows
            invariant
                1 < n_rows,
                n <= n_rows,
                h == self.h / n_rows,
                self.y + self.h <= u32::MAX,
                out@ =~= rect_rows(*self, n_rows).take(n as int),
            decreases n_rows - n,
        {
            assert(n * h <= self.h) by (nonlinear_arith)
                requires
                    n < n_rows,
                    h == self.h / n_rows,
                    n_rows > 1,
            ;
            out.push(Rect::new(self.x, self.y + n * h, self.w, h));
            n += 1;
        }
        out
    }

    /// Divide this rectangle into `n_columns` columns of equal width.
    pub fn as_columns(&self, n_columns: u32) -> (r: Vec<Rect>)
        requires
            self.x + self.w <= u32::MAX,
        ensures
            r@ == rect_columns(*self, n_columns),
    {
        if n_columns <= 1 {
            return vec![*self];
        }
        let w = self.w / n_columns;
        let mut out: Vec<Rect> = Vec::new();
        let mut n: u32 = 0;
        while n < n_columns
            invariant
                1 < n_columns,
                n <= n_columns,
                w == self.w / n_columns,
                self.x + self.w <= u32::MAX,
                out@ =~= rect_columns(*self, n_columns).take(n as int),
            decreases n_columns - n,
        {
            assert(n * w <= self.w) by (nonlinear_arith)
                requires
                    n < n_columns,
                    w == self.w / n_columns,
                    n_columns > 1,
            ;
            out.push(Rect::new(self.x + n * w, self.y, w, self.h));
            n += 1;
        }
        out
    }
}

} // verus!

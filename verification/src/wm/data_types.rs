//! Simple data types and enums used by the window manager core.
use vstd::prelude::*;

use crate::wm::ring::Xid;
use vstd::string::StringExecFns;

use crate::{decimal_string, decimal_text, PenroseError};

verus! {

/// An X window ID
pub type WinId = u32;

/// A relative position along the horizontal and vertical axes
#[derive(Copy, Clone, Debug, Eq, PartialEq, Structural)]
pub enum RelativePosition {
    /// Left of the current position
    Left,
    /// Right of the current position
    Right,
    /// Above the current position
    Above,
    /// Below the current position
    Below,
}

/// Increment / decrement a value
#[derive(Debug, Copy, Clone, PartialEq, Eq, Hash, Structural)]
pub enum Change {
    /// increase the value
    More,
    /// decrease the value, possibly clamping
    Less,
}

/// X window border kind
#[derive(Debug, Clone, Copy, PartialEq, Eq, Hash, Structural)]
pub enum Border {
    /// window is urgent
    Urgent,
    /// window currently has focus
    Focused,
    /// window does not have focus
    Unfocused,
}

/// An x,y coordinate pair
#[derive(Debug, Copy, Clone, PartialEq, Eq, Hash, Structural)]
pub struct Point {
    /// An absolute x coordinate relative to the root window
    pub x: u32,
    /// An absolute y coordinate relative to the root window
    pub y: u32,
}

impl Default for Point {
    fn default() -> (r: Self)
        ensures
            r.x == 0 && r.y == 0,
    {
        Point { x: 0, y: 0 }
    }
}

impl Point {
    /// Create a new Point.
    pub fn new(x: u32, y: u32) -> (r: Self)
        ensures
            r.x == x,
            r.y == y,
    {
        Self { x, y }
    }
}

/// A window along with the region it should be placed in, if it should be shown.
pub type ResizeAction = (Xid, Option<Region>);

/// An X window / screen position: top left corner + extent
#[derive(Debug, PartialEq, Eq, Clone, Copy, Hash, Structural)]
pub struct Region {
    /// The x-coordinate of the top left corner of this region
    pub x: u32,
    /// The y-coordinate of the top left corner of this region
    pub y: u32,
    /// The width of this region
    pub w: u32,
    /// The height of this region
    pub h: u32,
}

impl Default for Region {
    fn default() -> (r: Self)
        ensures
            r == (Region { x: 0, y: 0, w: 0, h: 0 }),
    {
        Region { x: 0, y: 0, w: 0, h: 0 }
    }
}

/// `inner` lies within `outer` (edges may touch).
pub open spec fn region_contains(outer: Region, inner: Region) -> bool {
    &&& outer.x <= inner.x
    &&& inner.x + inner.w <= outer.x + outer.w
    &&& outer.y <= inner.y
    &&& inner.y + inner.h <= outer.y + outer.h
}

/// `p` lies within `r`; the right and bottom edges are outside.
pub open spec fn region_contains_point(r: Region, p: Point) -> bool {
    r.x <= p.x < r.x + r.w && r.y <= p.y < r.y + r.h
}

/// The sums that `contains` computes fit in a `u32` on the path it takes.
pub open spec fn contains_fits(outer: Region, inner: Region) -> bool {
    &&& inner.x >= outer.x ==> inner.x + inner.w <= u32::MAX && outer.x + outer.w <= u32::MAX
    &&& (inner.x >= outer.x && inner.x + inner.w <= outer.x + outer.w && inner.y >= outer.y) ==> (
    inner.y + inner.h <= u32::MAX && outer.y + outer.h <= u32::MAX)
}

/// The `i`th of `n` evenly sized rows of `r`, each of height `h`.
pub open spec fn row(r: Region, h: u32, i: int) -> Region {
    Region { x: r.x, y: (r.y + i * h) as u32, w: r.w, h }
}

/// The `i`th of `n` evenly sized columns of `r`, each of width `w`.
pub open spec fn column(r: Region, w: u32, i: int) -> Region {
    Region { x: (r.x + i * w) as u32, y: r.y, w, h: r.h }
}

/// How a region is written out in messages: `Region { x: .., y: .., w: .., h: .. }`.
pub open spec fn region_text(r: Region) -> Seq<char> {
    "Region { x: "@ + decimal_text(r.x as nat) + ", y: "@ + decimal_text(r.y as nat) + ", w: "@
        + decimal_text(r.w as nat) + ", h: "@ + decimal_text(r.h as nat) + " }"@
}

/// Why centering `inner` inside `enclosing` is refused.
pub open spec fn uncontained_text(enclosing: Region, inner: Region) -> Seq<char> {
    "enclosing does not conatain self: "@ + region_text(enclosing) + " "@ + region_text(inner)
}

fn region_string(r: &Region) -> (s: String)
    ensures
        s@ == region_text(*r),
{
    "Region { x: ".to_owned().concat(decimal_string(r.x as usize).as_str()).concat(", y: ").concat(
        decimal_string(r.y as usize).as_str(),
    ).concat(", w: ").concat(decimal_string(r.w as usize).as_str()).concat(", h: ").concat(
        decimal_string(r.h as usize).as_str(),
    ).concat(" }")
}

fn uncontained_message(enclosing: &Region, inner: &Region) -> (s: String)
    ensures
        s@ == uncontained_text(*enclosing, *inner),
{
    let e = region_string(enclosing);
    let i = region_string(inner);
    "enclosing does not conatain self: ".to_owned().concat(e.as_str()).concat(" ").concat(i.as_str())
}

/// Why a split at `requested` of a side `available` long is refused.
pub open spec fn split_text(requested: u32, available: u32) -> Seq<char> {
    "Region split is out of range: "@ + decimal_text(requested as nat) + " >= "@ + decimal_text(
        available as nat,
    )
}

fn split_message(requested: u32, available: u32) -> (r: String)
    ensures
        r@ == split_text(requested, available),
{
    "Region split is out of range: ".to_owned().concat(decimal_string(requested as usize).as_str()).concat(
        " >= ",
    ).concat(decimal_string(available as usize).as_str())
}

impl Region {
    /// Create a new Region.
    pub fn new(x: u32, y: u32, w: u32, h: u32) -> (r: Region)
        ensures
            r == (Region { x, y, w, h }),
    {
        Region { x, y, w, h }
    }

    /// Destructure this Region into its component values (x, y, w, h).
    pub fn values(&self) -> (r: (u32, u32, u32, u32))
        ensures
            r == (self.x, self.y, self.w, self.h),
    {
        (self.x, self.y, self.w, self.h)
    }

    /// Check whether this Region contains `other` as a sub-Region
    pub fn contains(&self, other: &Region) -> (r: bool)
        requires
            contains_fits(*self, *other),
        ensures
            r == region_contains(*self, *other),
    {
        if other.x < self.x {
            false
        } else if (other.x + other.w) > (self.x + self.w) {
            false
        } else if other.y < self.y {
            false
        } else if (other.y + other.h) > (self.y + self.h) {
            false
        } else {
            true
        }
    }

    /// Check whether this Region contains `p`; the right and bottom edges are outside.
    pub fn contains_point(&self, p: &Point) -> (r: bool)
        requires
            self.x + self.w <= u32::MAX,
            (self.x <= p.x < self.x + self.w) ==> self.y + self.h <= u32::MAX,
        ensures
            r == region_contains_point(*self, *p),
    {
        let x_end = self.x + self.w;
        if self.x <= p.x && p.x < x_end {
            let y_end = self.y + self.h;
            self.y <= p.y && p.y < y_end
        } else {
            false
        }
    }

    /// Center this region inside of `enclosing`.
    ///
    /// # Errors
    /// Fails if this Region can not fit inside of `enclosing`
    pub fn centered_in(&self, enclosing: &Region) -> (r: Result<Self, PenroseError>)
        requires
            contains_fits(*enclosing, *self),
        ensures
            !region_contains(*enclosing, *self) <==> r is Err,
            r matches Err(e) ==> e matches PenroseError::Raw(m) && m@ == uncontained_text(*enclosing, *self),
            r matches Ok(c) ==> c == (Region {
                x: (enclosing.x + (enclosing.w - self.w) / 2) as u32,
                y: (enclosing.y + (enclosing.h - self.h) / 2) as u32,
                w: self.w,
                h: self.h,
            }),
    {
        if !enclosing.contains(self) {
            return Err(PenroseError::Raw(uncontained_message(enclosing, self)));
        }
        Ok(Self {
            x: enclosing.x + ((enclosing.w - self.w) / 2),
            y: enclosing.y + ((enclosing.h - self.h) / 2),
            w: self.w,
            h: self.h,
        })
    }

    /// Split this `Region` into evenly sized rows.
    pub fn as_rows(&self, n_rows: u32) -> (r: Vec<Region>)
        requires
            n_rows > 1 ==> self.y + (n_rows - 1) * (self.h / n_rows) <= u32::MAX,
        ensures
            n_rows <= 1 ==> r@ == seq![*self],
            n_rows > 1 ==> r@.len() == n_rows && forall|i: int|
                0 <= i < n_rows ==> #[trigger] r@[i] == row(*self, self.h / n_rows, i),
    {
        if n_rows <= 1 {
            return vec![*self];
        }
        let h = self.h / n_rows;
        let mut out: Vec<Region> = Vec::new();
        let mut n: u32 = 0;
        while n < n_rows
            invariant
                1 < n_rows,
                n <= n_rows,
                h == self.h / n_rows,
                self.y + (n_rows - 1) * h <= u32::MAX,
                out@.len() == n,
                forall|i: int| 0 <= i < n ==> #[trigger] out@[i] == row(*self, h, i),
            decreases n_rows - n,
        {
            assert(n * h <= (n_rows - 1) * h) by (nonlinear_arith)
                requires
                    n < n_rows,
            ;
            assert((n_rows - 1) * h <= self.h) by (nonlinear_arith)
                requires
                    h == self.h / n_rows,
                    n_rows > 1,
            ;
            out.push(Region::new(self.x, self.y + n * h, self.w, h));
            n += 1;
        }
        out
    }

    /// Split this `Region` into evenly sized columns.
    pub fn as_columns(&self, n_columns: u32) -> (r: Vec<Region>)
        requires
            n_columns > 1 ==> self.x + (n_columns - 1) * (self.w / n_columns) <= u32::MAX,
        ensures
            n_columns <= 1 ==> r@ == seq![*self],
            n_columns > 1 ==> r@.len() == n_columns && forall|i: int|
                0 <= i < n_columns ==> #[trigger] r@[i] == column(*self, self.w / n_columns, i),
    {
        if n_columns <= 1 {
            return vec![*self];
        }
        let w = self.w / n_columns;
        let mut out: Vec<Region> = Vec::new();
        let mut n: u32 = 0;
        while n < n_columns
            invariant
                1 < n_columns,
                n <= n_columns,
                w == self.w / n_columns,
                self.x + (n_columns - 1) * w <= u32::MAX,
                out@.len() == n,
                forall|i: int| 0 <= i < n ==> #[trigger] out@[i] == column(*self, w, i),
            decreases n_columns - n,
        {
            assert(n * w <= (n_columns - 1) * w) by (nonlinear_arith)
                requires
                    n < n_columns,
            ;
            assert((n_columns - 1) * w <= self.w) by (nonlinear_arith)
                requires
                    w == self.w / n_columns,
                    n_columns > 1,
            ;
            out.push(Region::new(self.x + n * w, self.y, w, self.h));
            n += 1;
        }
        out
    }

    /// Divides this region into two columns where the first has the given width.
    ///
    /// # Errors
    /// Fails if the requested split point is not contained within `self`
    pub fn split_at_width(&self, new_width: u32) -> (r: Result<(Self, Self), PenroseError>)
        requires
            new_width <= self.w ==> self.x + new_width <= u32::MAX,
        ensures
            new_width > self.w <==> r is Err,
            r matches Err(e) ==> e matches PenroseError::Raw(m) && m@ == split_text(new_width, self.w),
            r matches Ok((a, b)) ==> a == (Region { w: new_width, ..*self }) && b == (Region {
                x: (self.x + new_width) as u32,
                w: (self.w - new_width) as u32,
                ..*self
            }),
    {
        if new_width > self.w {
            Err(PenroseError::Raw(split_message(new_width, self.w)))
        } else {
            Ok(
                (
                    Self { x: self.x, y: self.y, w: new_width, h: self.h },
                    Self { x: self.x + new_width, y: self.y, w: self.w - new_width, h: self.h },
                ),
            )
        }
    }

    /// Divides this region into two rows where the first has the given height.
    ///
    /// # Errors
    /// Fails if the requested split point is not contained within `self`
    pub fn split_at_height(&self, new_height: u32) -> (r: Result<(Self, Self), PenroseError>)
        requires
            new_height <= self.h ==> self.y + new_height <= u32::MAX,
        ensures
            new_height > self.h <==> r is Err,
            r matches Err(e) ==> e matches PenroseError::Raw(m) && m@ == split_text(new_height, self.h),
            r matches Ok((a, b)) ==> a == (Region { h: new_height, ..*self }) && b == (Region {
                y: (self.y + new_height) as u32,
                h: (self.h - new_height) as u32,
                ..*self
            }),
    {
        if new_height > self.h {
            Err(PenroseError::Raw(split_message(new_height, self.h)))
        } else {
            Ok(
                (
                    Self { x: self.x, y: self.y, w: self.w, h: new_height },
                    Self { x: self.x, y: self.y + new_height, w: self.w, h: self.h - new_height },
                ),
            )
        }
    }
}

/// Splitting a region at a width gives two side by side regions that together
/// cover exactly the region that was split.
pub proof fn lemma_split_at_width_covers(r: Region, new_width: u32)
    requires
        new_width <= r.w,
        r.x + new_width <= u32::MAX,
    ensures
        ({
            let a = Region { w: new_width, ..r };
            let b = Region { x: (r.x + new_width) as u32, w: (r.w - new_width) as u32, ..r };
            &&& region_contains(r, a)
            &&& region_contains(r, b)
            &&& a.x + a.w == b.x
            &&& a.w + b.w == r.w
        }),
{
}

/// Splitting a region at a height gives two stacked regions that together
/// cover exactly the region that was split.
pub proof fn lemma_split_at_height_covers(r: Region, new_height: u32)
    requires
        new_height <= r.h,
        r.y + new_height <= u32::MAX,
    ensures
        ({
            let a = Region { h: new_height, ..r };
            let b = Region { y: (r.y + new_height) as u32, h: (r.h - new_height) as u32, ..r };
            &&& region_contains(r, a)
            &&& region_contains(r, b)
            &&& a.y + a.h == b.y
            &&& a.h + b.h == r.h
        }),
{
}

/// A region that is centered inside an enclosing region that contains it stays contained by it.
pub proof fn lemma_centered_is_contained(inner: Region, enclosing: Region)
    requires
        region_contains(enclosing, inner),
        enclosing.x + enclosing.w <= u32::MAX,
        enclosing.y + enclosing.h <= u32::MAX,
    ensures
        region_contains(
            enclosing,
            Region {
                x: (enclosing.x + (enclosing.w - inner.w) / 2) as u32,
                y: (enclosing.y + (enclosing.h - inner.h) / 2) as u32,
                w: inner.w,
                h: inner.h,
            },
        ),
{
}

/// Containment of regions is reflexive and transitive.
pub proof fn lemma_contains_preorder(a: Region, b: Region, c: Region)
    ensures
        region_contains(a, a),
        region_contains(a, b) && region_contains(b, c) ==> region_contains(a, c),
{
}

/// Every row of a split region lies inside the region, and the rows are stacked
/// one directly on top of the next.
pub proof fn lemma_rows_tile(r: Region, n: u32, i: int)
    requires
        n > 1,
        0 <= i < n,
        r.y + (n - 1) * (r.h / n) <= u32::MAX,
    ensures
        region_contains(r, row(r, r.h / n, i)),
        i + 1 < n ==> row(r, r.h / n, i).y + row(r, r.h / n, i).h == row(r, r.h / n, i + 1).y,
{
    let h = r.h / n;
    assert(i * h <= (n - 1) * h) by (nonlinear_arith)
        requires
            i < n,
            h >= 0,
    ;
    assert((n - 1) * h + h <= r.h) by (nonlinear_arith)
        requires
            h == r.h / n,
            n > 1,
    ;
    assert(i * h + h == (i + 1) * h) by (nonlinear_arith);
    if i + 1 < n {
        assert((i + 1) * h <= (n - 1) * h) by (nonlinear_arith)
            requires
                i + 1 < n,
                h >= 0,
        ;
    }
}

} // verus!

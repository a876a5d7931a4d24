//! Simple data types and enums, and the first form of the focusable ring.
use vstd::prelude::*;

use crate::wm::ring::{dragged, lookup, next_index, reversed, rotated};

verus! {

/// An X window ID
pub type WinId = u32;

/// An x,y coordinate pair
#[derive(Debug, Copy, Clone)]
pub struct Point {
    /// The x coordinate
    pub x: u32,
    /// The y coordinate
    pub y: u32,
}

impl Point {
    /// Create a new Point.
    pub fn new(x: u32, y: u32) -> (r: Point)
        ensures
            r.x == x,
            r.y == y,
    {
        Point { x, y }
    }
}

/// A direction to permute a Ring
#[derive(Debug, Copy, Clone, PartialEq, Eq, Structural)]
pub enum Direction {
    /// increase the index, wrapping if needed
    Forward,
    /// decrease the index, wrapping if needed
    Backward,
}

/// The same direction in the form the ring specifications use.
pub open spec fn as_ring_direction(d: Direction) -> crate::wm::ring::Direction {
    match d {
        Direction::Forward => crate::wm::ring::Direction::Forward,
        Direction::Backward => crate::wm::ring::Direction::Backward,
    }
}

impl Direction {
    /// Invert this Direction
    pub fn reverse(&self) -> (r: Direction)
        ensures
            as_ring_direction(r) == reversed(as_ring_direction(*self)),
            r != *self,
    {
        match self {
            Direction::Forward => Direction::Backward,
            Direction::Backward => Direction::Forward,
        }
    }
}

/// Increment / decrement a value
#[derive(Debug, Copy, Clone)]
pub enum Change {
    /// increase the value
    More,
    /// decrease the value, possibly clamping
    Less,
}

/// X window border kind
#[derive(Debug)]
pub enum Border {
    /// window is urgent
    Urgent,
    /// window currently has focus
    Focused,
    /// window does not have focus
    Unfocused,
}

/// An X window / screen position: top left corner + extent
#[derive(Debug, PartialEq, Clone, Copy, Structural)]
pub struct Region {
    x: u32,
    y: u32,
    w: u32,
    h: u32,
}

impl Region {
    /// The components of this region as (x, y, w, h).
    pub closed spec fn spec_values(&self) -> (u32, u32, u32, u32) {
        (self.x, self.y, self.w, self.h)
    }

    /// Create a new Region.
    pub fn new(x: u32, y: u32, w: u32, h: u32) -> (r: Region)
        ensures
            r.spec_values() == (x, y, w, h),
    {
        Region { x, y, w, h }
    }

    /// The width of this region.
    pub fn width(&self) -> (r: u32)
        ensures
            r == self.spec_values().2,
    {
        self.w
    }

    /// The height of this region.
    pub fn height(&self) -> (r: u32)
        ensures
            r == self.spec_values().3,
    {
        self.h
    }

    /// Destructure this Region into its component values (x, y, w, h).
    pub fn values(&self) -> (r: (u32, u32, u32, u32))
        ensures
            r == self.spec_values(),
    {
        (self.x, self.y, self.w, self.h)
    }
}

/// A set of named color codes
#[derive(Debug, Clone, Copy)]
pub struct ColorScheme {
    /// Background color
    pub bg: u32,
    /// First foreground color
    pub fg_1: u32,
    /// Second foreground color
    pub fg_2: u32,
    /// Third foreground color
    pub fg_3: u32,
    /// Highlight color
    pub highlight: u32,
    /// Color for urgent windows
    pub urgent: u32,
}

/// An X key-code along with a modifier mask
#[derive(Debug, PartialEq, Eq, Hash, Clone, Copy, Structural)]
pub struct KeyCode {
    /// The held modifier mask
    pub mask: u16,
    /// The key code
    pub code: u8,
}

/**
 * A Collection<T> that has both an order for its elements and a focused element
 * at some index.
 *
 * Supports rotating the position of the elements and rotating which element
 * is focused independently of one another.
 */
#[derive(Debug)]
pub struct Ring<T> {
    /// The elements in order.
    pub elements: Vec<T>,
    /// The index of the focused element.
    pub focused: usize,
}

/// The focus index after `remove_by` takes out an element of a ring of `len`
/// elements: the focus only moves when it was on the last element.
pub open spec fn focus_after_remove_by(focused: int, len: int) -> int {
    if focused > 0 && focused == len - 1 {
        focused - 1
    } else {
        focused
    }
}

/// `i` is the first index of `s` for which `cond` answers true.
pub open spec fn first_satisfying<T, F: Fn(&T) -> bool>(cond: F, s: Seq<T>, i: int) -> bool {
    &&& 0 <= i < s.len()
    &&& call_ensures(cond, (&s[i],), true)
    &&& forall|j: int| 0 <= j < i ==> call_ensures(cond, (&#[trigger] s[j],), false)
}

/// `cond` answers false for every element of `s`.
pub open spec fn none_satisfying<T, F: Fn(&T) -> bool>(cond: F, s: Seq<T>) -> bool {
    forall|j: int| 0 <= j < s.len() ==> call_ensures(cond, (&#[trigger] s[j],), false)
}

impl<T> Ring<T> {
    /// Create a new ring focused on its first element.
    pub fn new(elements: Vec<T>) -> (r: Ring<T>)
        ensures
            r.elements@ == elements@,
            r.focused == 0,
    {
        Ring { elements, focused: 0 }
    }

    /// Whether moving the focus in direction `dir` would wrap around the ends of the ring.
    pub fn would_wrap(&self, dir: Direction) -> (r: bool)
        requires
            self.elements@.len() > 0,
        ensures
            r == ((self.focused == 0 && dir == Direction::Backward) || (self.focused
                == self.elements@.len() - 1 && dir == Direction::Forward)),
    {
        let wrap_back = self.focused == 0 && dir == Direction::Backward;
        let wrap_forward = self.focused == self.elements.len() - 1 && dir == Direction::Forward;

        wrap_back || wrap_forward
    }

    /// The index of the focused element.
    pub fn focused_index(&mut self) -> (r: usize)
        ensures
            r == old(self).focused,
            *final(self) == *old(self),
    {
        self.focused
    }

    /// The focused element, or `None` if the focus is out of range.
    pub fn focused(&self) -> (r: Option<&T>)
        ensures
            match lookup(self.elements@, self.focused as int) {
                Some(e) => r == Some(&e),
                None => r is None,
            },
    {
        if self.focused < self.elements.len() {
            Some(&self.elements[self.focused])
        } else {
            None
        }
    }

    /// A mutable reference to the focused element, or `None` if the focus is out of range.
    pub fn focused_mut(&mut self) -> (r: Option<&mut T>)
        ensures
            final(self).focused == old(self).focused,
            old(self).focused < old(self).elements@.len() ==> (r matches Some(e) && *e
                == old(self).elements@[old(self).focused as int] && final(self).elements@
                == old(self).elements@.update(old(self).focused as int, *final(e))),
            old(self).focused >= old(self).elements@.len() ==> (r is None && final(self).elements@
                == old(self).elements@),
    {
        if self.focused < self.elements.len() {
            let f = self.focused;
            Some(&mut self.elements[f])
        } else {
            None
        }
    }

    /// Rotate the order of the elements one place, leaving the focus index where it is.
    pub fn rotate(&mut self, direction: Direction)
        ensures
            final(self).elements@ == rotated(old(self).elements@, as_ring_direction(direction)),
            final(self).elements@.to_multiset() == old(self).elements@.to_multiset(),
            final(self).focused == old(self).focused,
    {
        broadcast use vstd::seq_lib::group_to_multiset_ensures, vstd::multiset::group_multiset_axioms;

        if self.elements.len() == 0 {
            return ;
        }
        let ghost s = self.elements@;
        match direction {
            Direction::Forward => {
                let last = self.elements.pop().unwrap();
                assert(s.drop_last() =~= s.remove(s.len() - 1));
                self.elements.insert(0, last);
                assert(self.elements@ =~= seq![s.last()] + s.drop_last());
                assert(s.to_multiset().remove(s.last()).insert(s.last()) =~= s.to_multiset());
            },
            Direction::Backward => {
                let first = self.elements.remove(0);
                self.elements.push(first);
                assert(self.elements@ =~= s.drop_first().push(s[0]));
                assert(s.to_multiset().remove(s[0]).insert(s[0]) =~= s.to_multiset());
            },
        }
    }

    fn next_index(&self, direction: Direction) -> (r: usize)
        requires
            self.elements@.len() > 0,
            direction == Direction::Forward && self.focused >= self.elements@.len() ==> self.focused < usize::MAX,
        ensures
            r == next_index(
                self.focused as int,
                self.elements@.len() as int,
                as_ring_direction(direction),
            ),
            self.focused < self.elements@.len() ==> r < self.elements@.len(),
    {
        let max = self.elements.len() - 1;
        match direction {
            Direction::Forward => {
                if self.focused == max {
                    0
                } else {
                    self.focused + 1
                }
            },
            Direction::Backward => {
                if self.focused == 0 {
                    max
                } else {
                    self.focused - 1
                }
            },
        }
    }

    /// Focus the element at index `n`, returning it if it exists.
    pub fn focus_nth(&mut self, n: usize) -> (r: Option<&T>)
        ensures
            final(self).elements@ == old(self).elements@,
            final(self).focused == n,
            match lookup(old(self).elements@, n as int) {
                Some(e) => r == Some(&e),
                None => r is None,
            },
    {
        self.focused = n;
        self.focused()
    }

    /// Move the focus one step in `direction`, wrapping around the ends, and return the
    /// newly focused element.
    pub fn cycle_focus(&mut self, direction: Direction) -> (r: Option<&T>)
        requires
            old(self).elements@.len() > 0,
            direction == Direction::Forward && old(self).focused >= old(self).elements@.len() ==> old(self).focused
                < usize::MAX,
        ensures
            final(self).elements@ == old(self).elements@,
            final(self).focused == next_index(
                old(self).focused as int,
                old(self).elements@.len() as int,
                as_ring_direction(direction),
            ),
            final(self).focused < final(self).elements@.len() ==> r == Some(
                &final(self).elements@[final(self).focused as int],
            ),
            final(self).focused >= final(self).elements@.len() ==> r is None,
    {
        self.focused = self.next_index(direction);
        self.focused()
    }

    /// Move the focused element one step in `direction`, keeping it focused.
    pub fn drag_focused(&mut self, direction: Direction) -> (r: Option<&T>)
        requires
            old(self).elements@.len() > 0,
            old(self).focused < old(self).elements@.len(),
        ensures
            final(self).elements@ == dragged(
                old(self).elements@,
                old(self).focused as int,
                as_ring_direction(direction),
            ),
            final(self).focused == next_index(
                old(self).focused as int,
                old(self).elements@.len() as int,
                as_ring_direction(direction),
            ),
            r == Some(&old(self).elements@[old(self).focused as int]),
            final(self).elements@.to_multiset() == old(self).elements@.to_multiset(),
    {
        let ghost s = self.elements@;
        let ghost f = self.focused as int;
        let other = self.next_index(direction);
        let focused = self.focused;
        proof {
            crate::wm::ring::lemma_drag_moves_focused_element(s, f, as_ring_direction(direction));
        }
        if (focused == 0 && direction == Direction::Backward) || (other == 0 && direction
            == Direction::Forward) {
            self.rotate(direction);
        } else {
            let (lo, hi) = if focused < other {
                (focused, other)
            } else {
                (other, focused)
            };
            let x = self.elements.remove(hi);
            self.elements.insert(lo, x);
            assert(self.elements@ =~= dragged(s, f, as_ring_direction(direction)));
            proof {
                broadcast use vstd::seq_lib::group_to_multiset_ensures, vstd::multiset::group_multiset_axioms;
                assert(s.to_multiset().remove(s[hi as int]).insert(s[hi as int]) =~= s.to_multiset());
            }
        }
        self.cycle_focus(direction)
    }

    /// Focus the first element satisfying `cond`, returning it.
    pub fn focus_by<F: Fn(&T) -> bool>(&mut self, cond: F) -> (r: Option<&T>)
        requires
            forall|i: int| 0 <= i < old(self).elements@.len() ==> call_requires(cond, (&#[trigger] old(self).elements@[i],)),
        ensures
            final(self).elements@ == old(self).elements@,
            match r {
                Some(e) => first_satisfying(cond, old(self).elements@, final(self).focused as int)
                    && *e == old(self).elements@[final(self).focused as int],
                None => none_satisfying(cond, old(self).elements@) && final(self).focused == old(self).focused,
            },
    {
        match self.position(&cond) {
            Some(i) => {
                self.focused = i;
                Some(&self.elements[self.focused])
            },
            None => None,
        }
    }

    /// The index of the first element satisfying `cond`.
    fn position<F: Fn(&T) -> bool>(&self, cond: &F) -> (r: Option<usize>)
        requires
            forall|i: int| 0 <= i < self.elements@.len() ==> call_requires(*cond, (&#[trigger] self.elements@[i],)),
        ensures
            match r {
                Some(i) => first_satisfying(*cond, self.elements@, i as int),
                None => none_satisfying(*cond, self.elements@),
            },
    {
        let mut i: usize = 0;
        while i < self.elements.len()
            invariant
                i <= self.elements@.len(),
                forall|j: int| 0 <= j < self.elements@.len() ==> call_requires(*cond, (&#[trigger] self.elements@[j],)),
                forall|j: int| 0 <= j < i ==> call_ensures(*cond, (&#[trigger] self.elements@[j],), false),
            decreases self.elements@.len() - i,
        {
            if cond(&self.elements[i]) {
                return Some(i);
            }
            i += 1;
        }
        None
    }

    /// The number of elements.
    pub fn len(&self) -> (r: usize)
        ensures
            r == self.elements@.len(),
    {
        self.elements.len()
    }

    /// Insert `element` at `index`.
    pub fn insert(&mut self, index: usize, element: T)
        requires
            index <= old(self).elements@.len(),
        ensures
            final(self).elements@ == old(self).elements@.insert(index as int, element),
            final(self).focused == old(self).focused,
    {
        self.elements.insert(index, element);
    }

    /// Remove the first element satisfying `cond`.
    ///
    /// The focus index moves back one place only when it was on the last element.
    pub fn remove_by<F: Fn(&T) -> bool>(&mut self, cond: F) -> (r: Option<T>)
        requires
            forall|i: int| 0 <= i < old(self).elements@.len() ==> call_requires(cond, (&#[trigger] old(self).elements@[i],)),
        ensures
            match r {
                Some(e) => exists|i: int|
                    first_satisfying(cond, old(self).elements@, i) && e == old(self).elements@[i]
                        && final(self).elements@ == old(self).elements@.remove(i) && final(self).focused
                        == focus_after_remove_by(old(self).focused as int, old(self).elements@.len() as int),
                None => none_satisfying(cond, old(self).elements@) && final(self).elements@ == old(
                    self,
                ).elements@ && final(self).focused == old(self).focused,
            },
    {
        match self.position(&cond) {
            Some(i) => {
                if self.focused > 0 && self.focused == self.elements.len() - 1 {
                    self.focused -= 1;
                }
                Some(self.elements.remove(i))
            },
            None => None,
        }
    }

    /// Remove the focused element, pulling the focus back inside the ring.
    pub fn remove_focused(&mut self) -> (r: Option<T>)
        ensures
            old(self).focused < old(self).elements@.len() ==> r == Some(
                old(self).elements@[old(self).focused as int],
            ) && final(self).elements@ == old(self).elements@.remove(old(self).focused as int)
                && final(self).focused == crate::wm::ring::clamped(
                old(self).focused as int,
                old(self).elements@.len() - 1,
            ),
            old(self).focused >= old(self).elements@.len() ==> r is None && final(self).elements@
                == old(self).elements@ && final(self).focused == if old(self).elements@.len()
                == 0 {
                old(self).focused as int
            } else {
                crate::wm::ring::clamped(
                    old(self).focused as int,
                    old(self).elements@.len() as int,
                )
            },
    {
        if self.elements.len() == 0 {
            return None;
        }
        let f = self.focused;
        let c = if f < self.elements.len() {
            Some(self.elements.remove(f))
        } else {
            None
        };
        if self.focused > 0 && self.focused >= self.elements.len() - 1 {
            self.focused -= 1;
        }
        c
    }

    /// Iterate over the elements in order.
    pub fn iter(&self) -> (r: std::slice::Iter<'_, T>)
        ensures
            vstd::std_specs::slice::into_iter_elts(r) == self.elements@,
    {
        proof {
            broadcast use vstd::std_specs::slice::axiom_spec_slice_iter;
        }
        self.elements.iter()
    }
}

impl<T: Clone> Ring<T> {
    /// A copy of the elements in order.
    pub fn as_vec(&self) -> (r: Vec<T>)
        ensures
            r@.len() == self.elements@.len(),
            forall|i: int| 0 <= i < r@.len() ==> cloned(#[trigger] self.elements@[i], r@[i]),
    {
        let mut out: Vec<T> = Vec::new();
        let mut i: usize = 0;
        while i < self.elements.len()
            invariant
                i <= self.elements@.len(),
                out@.len() == i,
                forall|j: int| 0 <= j < i ==> cloned(#[trigger] self.elements@[j], out@[j]),
            decreases self.elements@.len() - i,
        {
            out.push(self.elements[i].clone());
            i += 1;
        }
        out
    }
}

} // verus!

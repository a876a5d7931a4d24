//! An ordered collection with a focused element, and the selectors used to pick
//! elements out of it.
//!
//! A [Ring] is a sequence of elements together with a focus index. The order of
//! the elements and the position of the focus can be permuted independently of
//! one another. The focus index is not kept in bounds by every operation (for
//! example focusing an out of range index stores that index), so each operation
//! states what it does for every focus value that it accepts.
use vstd::prelude::*;
use vstd::std_specs::cmp::PartialEqSpec;

verus! {

/// An X resource ID.
pub type Xid = u32;

/// A direction to permute a Ring
#[derive(Debug, Copy, Clone, PartialEq, Eq, Hash, Structural)]
pub enum Direction {
    /// increase the index, wrapping if needed
    Forward,
    /// decrease the index, wrapping if needed
    Backward,
}

/// The opposite of a direction.
pub open spec fn reversed(d: Direction) -> Direction {
    match d {
        Direction::Forward => Direction::Backward,
        Direction::Backward => Direction::Forward,
    }
}

impl Direction {
    /// Invert this Direction
    pub fn reverse(&self) -> (r: Direction)
        ensures
            r == reversed(*self),
    {
        match self {
            Direction::Forward => Direction::Backward,
            Direction::Backward => Direction::Forward,
        }
    }
}

/// Where a given element should be inserted into a Ring
#[derive(Debug, Copy, Clone, PartialEq, Eq, Hash, Structural)]
pub enum InsertPoint {
    /// At the specified index (last if out of bounds)
    Index(usize),
    /// In place of the current focused element (pushing focused and later down in the stack)
    Focused,
    /// After the current focused element (pushing later elements down in the stack)
    AfterFocused,
    /// As the first element in the stack
    First,
    /// As the last element in the stack
    Last,
}

/// A condition used to select elements of a [Ring].
///
/// Any `Fn(&T) -> bool` closure is a condition. `pre` is what the condition
/// needs of an element to be called on it, and `post` relates an element to the
/// answer the condition gives for it.
pub trait SelectorCondition<T> {
    /// Whether the condition can be evaluated on `t`.
    spec fn pre(&self, t: T) -> bool;

    /// Whether `r` is an answer the condition can give for `t`.
    spec fn post(&self, t: T, r: bool) -> bool;

    /// Evaluate the condition on `t`.
    fn holds(&self, t: &T) -> (r: bool)
        requires
            self.pre(*t),
        ensures
            self.post(*t, r),
    ;
}

impl<T, F: Fn(&T) -> bool> SelectorCondition<T> for F {
    open spec fn pre(&self, t: T) -> bool {
        call_requires(*self, (&t,))
    }

    open spec fn post(&self, t: T, r: bool) -> bool {
        call_ensures(*self, (&t,), r)
    }

    fn holds(&self, t: &T) -> (r: bool) {
        self(t)
    }
}

/// Used with WindowManager helper functions to select an element from the
/// known workspaces or clients.
#[verifier::reject_recursive_types(T)]
pub enum Selector<'a, T> {
    /// Any element in the target collection.
    ///
    /// For functions returning a single elemt this is equivalent to `Focused`, for functions
    /// returning multiple elements this will return the entire collection.
    Any,
    /// The focused element of the target collection.
    Focused,
    /// The element at this index.
    Index(usize),
    /// The element with/containing this client ID.
    WinId(Xid),
    /// The first element satisfying this condition.
    Condition(&'a dyn SelectorCondition<T>),
}

/// The condition of `s` can be evaluated on every element of `elems`.
pub open spec fn selector_callable<T>(s: &Selector<T>, elems: Seq<T>) -> bool {
    match s {
        Selector::Condition(f) => forall|i: int| 0 <= i < elems.len() ==> f.pre(#[trigger] elems[i]),
        _ => true,
    }
}

/// `i` is the first index of `elems` whose element the condition accepts.
pub open spec fn first_match<T>(f: &dyn SelectorCondition<T>, elems: Seq<T>, i: int) -> bool {
    &&& 0 <= i < elems.len()
    &&& f.post(elems[i], true)
    &&& forall|j: int| 0 <= j < i ==> f.post(#[trigger] elems[j], false)
}

/// The condition rejects every element of `elems`.
pub open spec fn no_match<T>(f: &dyn SelectorCondition<T>, elems: Seq<T>) -> bool {
    forall|j: int| 0 <= j < elems.len() ==> f.post(#[trigger] elems[j], false)
}

/// The index picked out by a selector that is not a condition.
pub open spec fn plain_index<T>(s: &Selector<T>, focused: int, len: int) -> Option<int> {
    match s {
        Selector::Focused | Selector::Any => Some(focused),
        Selector::Index(i) => if i < len { Some(i as int) } else { None },
        _ => None,
    }
}

/// `r` is the index that `s` selects in `elems` with focus `focused`.
pub open spec fn index_result<T>(s: &Selector<T>, elems: Seq<T>, focused: int, r: Option<usize>) -> bool {
    match s {
        Selector::Condition(f) => match r {
            Some(i) => first_match(*f, elems, i as int),
            None => no_match(*f, elems),
        },
        _ => match r {
            Some(i) => plain_index(s, focused, elems.len() as int) == Some(i as int),
            None => plain_index(s, focused, elems.len() as int) is None,
        },
    }
}

/// The element at `i`, if `i` is in range.
pub open spec fn lookup<T>(elems: Seq<T>, i: int) -> Option<T> {
    if 0 <= i < elems.len() {
        Some(elems[i])
    } else {
        None
    }
}

/// `r` is the single element that `s` selects in `elems` with focus `focused`.
pub open spec fn element_result<T>(s: &Selector<T>, elems: Seq<T>, focused: int, r: Option<T>) -> bool {
    match s {
        Selector::Condition(f) => match r {
            Some(e) => exists|i: int| first_match(*f, elems, i) && e == elems[i],
            None => no_match(*f, elems),
        },
        _ => r == match plain_index(s, focused, elems.len() as int) {
            Some(i) => lookup(elems, i),
            None => None,
        },
    }
}

/// The elements of `s` whose flag in `keep` is set, in order.
pub open spec fn select_by<T>(s: Seq<T>, keep: Seq<bool>) -> Seq<T>
    decreases s.len(),
{
    if s.len() == 0 {
        Seq::empty()
    } else {
        let rest = select_by(s.drop_last(), keep.drop_last());
        if keep.last() {
            rest.push(s.last())
        } else {
            rest
        }
    }
}

/// `keep` records an answer of the condition for every element of `elems`.
pub open spec fn answers<T>(f: &dyn SelectorCondition<T>, elems: Seq<T>, keep: Seq<bool>) -> bool {
    &&& keep.len() == elems.len()
    &&& forall|i: int| 0 <= i < elems.len() ==> f.post(#[trigger] elems[i], keep[i])
}

/// The focus index after moving one step in direction `d` around a ring of `len` elements.
pub open spec fn next_index(focused: int, len: int, d: Direction) -> int {
    match d {
        Direction::Forward => if focused == len - 1 {
            0
        } else {
            focused + 1
        },
        Direction::Backward => if focused == 0 {
            len - 1
        } else {
            focused - 1
        },
    }
}

/// The order of `s` after rotating it one place in direction `d`.
///
/// Forward moves the last element to the front, Backward moves the first to the back.
pub open spec fn rotated<T>(s: Seq<T>, d: Direction) -> Seq<T> {
    if s.len() == 0 {
        s
    } else {
        match d {
            Direction::Forward => seq![s.last()] + s.drop_last(),
            Direction::Backward => s.drop_first().push(s[0]),
        }
    }
}

/// `s` with the elements at `i` and `j` exchanged.
pub open spec fn swapped<T>(s: Seq<T>, i: int, j: int) -> Seq<T> {
    s.update(i, s[j]).update(j, s[i])
}

/// The order after dragging the focused element one step in direction `d`.
pub open spec fn dragged<T>(s: Seq<T>, focused: int, d: Direction) -> Seq<T> {
    let other = next_index(focused, s.len() as int, d);
    if (focused == 0 && d == Direction::Backward) || (other == 0 && d == Direction::Forward) {
        rotated(s, d)
    } else {
        swapped(s, focused, other)
    }
}

/// The focus index after removing an element from a ring, given the number
/// of elements that remain.
pub open spec fn clamped(focused: int, remaining: int) -> int {
    if focused > 0 && focused >= remaining - 1 {
        focused - 1
    } else {
        focused
    }
}

/// The elements after inserting `e` at `ip`, given the current focus.
pub open spec fn inserted<T>(s: Seq<T>, focused: int, ip: InsertPoint, e: T) -> Seq<T> {
    match ip {
        InsertPoint::Index(ix) => s.insert(ix as int, e),
        InsertPoint::Focused => s.insert(focused, e),
        InsertPoint::First => s.insert(0, e),
        InsertPoint::Last => s.push(e),
        InsertPoint::AfterFocused => if focused + 1 > s.len() {
            s.push(e)
        } else {
            s.insert(focused + 1, e)
        },
    }
}

/// Whether inserting at `ip` is defined for a ring of `len` elements with focus `focused`.
pub open spec fn insert_point_ok(ip: InsertPoint, focused: int, len: int) -> bool {
    match ip {
        InsertPoint::Index(ix) => ix <= len,
        InsertPoint::Focused => focused <= len,
        InsertPoint::AfterFocused => focused < usize::MAX,
        _ => true,
    }
}

/**
 * A Collection<T> that has both an order for its elements and a focused element
 * at some index.
 *
 * Supports rotating the position of the elements and rotating which element
 * is focused independently of one another.
 */
#[derive(Debug, Clone, PartialEq)]
pub struct Ring<T> {
    /// The elements in order.
    pub elements: Vec<T>,
    /// The index of the focused element.
    pub focused: usize,
}

impl<T> Default for Ring<T> {
    fn default() -> (r: Self)
        ensures
            r.elements@.len() == 0,
            r.focused == 0,
    {
        Ring { elements: Vec::new(), focused: 0 }
    }
}

impl<T> Ring<T> {
    /// The elements of this ring as a sequence.
    pub open spec fn elems(&self) -> Seq<T> {
        self.elements@
    }

    /// The focused element, if the focus is in range.
    pub open spec fn spec_focused(&self) -> Option<T> {
        lookup(self.elements@, self.focused as int)
    }

    /// Create a new ring focused on its first element.
    pub fn new(elements: Vec<T>) -> (r: Ring<T>)
        ensures
            r.elements@ == elements@,
            r.focused == 0,
    {
        Ring { elements, focused: 0 }
    }

    /// Whether moving the focus in direction `dir` would wrap around the ends of the ring.
    pub fn would_wrap(&self, dir: Direction) -> (r: bool)
        requires
            self.elements@.len() > 0,
        ensures
            r == ((self.focused == 0 && dir == Direction::Backward) || (self.focused
                == self.elements@.len() - 1 && dir == Direction::Forward)),
    {
        let wrap_back = self.focused == 0 && dir == Direction::Backward;
        let wrap_forward = self.focused == self.elements.len() - 1 && dir == Direction::Forward;

        wrap_back || wrap_forward
    }

    /// The index of the focused element.
    pub fn focused_index(&self) -> (r: usize)
        ensures
            r == self.focused,
    {
        self.focused
    }

    /// The focused element, or `None` if the focus is out of range.
    pub fn focused(&self) -> (r: Option<&T>)
        ensures
            match self.spec_focused() {
                Some(e) => r == Some(&e),
                None => r is None,
            },
    {
        if self.focused < self.elements.len() {
            Some(&self.elements[self.focused])
        } else {
            None
        }
    }

    /// The focused element, which must exist.
    pub fn focused_unchecked(&self) -> (r: &T)
        requires
            self.focused < self.elements@.len(),
        ensures
            *r == self.elements@[self.focused as int],
    {
        &self.elements[self.focused]
    }

    /// A mutable reference to the focused element, or `None` if the focus is out of range.
    pub fn focused_mut(&mut self) -> (r: Option<&mut T>)
        ensures
            final(self).focused == old(self).focused,
            old(self).focused < old(self).elements@.len() ==> (r matches Some(e) && *e
                == old(self).elements@[old(self).focused as int] && final(self).elements@
                == old(self).elements@.update(old(self).focused as int, *final(e))),
            old(self).focused >= old(self).elements@.len() ==> (r is None && final(self).elements@
                == old(self).elements@),
    {
        if self.focused < self.elements.len() {
            let f = self.focused;
            Some(&mut self.elements[f])
        } else {
            None
        }
    }

    /// A mutable reference to the focused element, which must exist.
    pub fn focused_mut_unchecked(&mut self) -> (r: &mut T)
        requires
            old(self).focused < old(self).elements@.len(),
        ensures
            final(self).focused == old(self).focused,
            *r == old(self).elements@[old(self).focused as int],
            final(self).elements@ == old(self).elements@.update(
                old(self).focused as int,
                *final(r),
            ),
    {
        let f = self.focused;
        &mut self.elements[f]
    }

    /// Rotate the order of the elements one place, leaving the focus index where it is.
    pub fn rotate(&mut self, direction: Direction)
        ensures
            final(self).elements@ == rotated(old(self).elements@, direction),
            final(self).elements@.to_multiset() == old(self).elements@.to_multiset(),
            final(self).focused == old(self).focused,
    {
        broadcast use vstd::seq_lib::group_to_multiset_ensures, vstd::multiset::group_multiset_axioms;

        if self.elements.len() == 0 {
            return ;
        }
        let ghost s = self.elements@;
        match direction {
            Direction::Forward => {
                let last = self.elements.pop().unwrap();
                assert(s.drop_last() =~= s.remove(s.len() - 1));
                self.elements.insert(0, last);
                assert(self.elements@ =~= seq![s.last()] + s.drop_last());
                assert(s.to_multiset().remove(s.last()).insert(s.last()) =~= s.to_multiset());
            },
            Direction::Backward => {
                let first = self.elements.remove(0);
                self.elements.push(first);
                assert(self.elements@ =~= s.drop_first().push(s[0]));
                assert(s.to_multiset().remove(s[0]).insert(s[0]) =~= s.to_multiset());
            },
        }
    }

    fn next_index(&self, direction: Direction) -> (r: usize)
        requires
            self.elements@.len() > 0,
            direction == Direction::Forward && self.focused >= self.elements@.len() ==> self.focused < usize::MAX,
        ensures
            r == next_index(self.focused as int, self.elements@.len() as int, direction),
            self.focused < self.elements@.len() ==> r < self.elements@.len(),
    {
        let max = self.elements.len() - 1;
        match direction {
            Direction::Forward => {
                if self.focused == max {
                    0
                } else {
                    self.focused + 1
                }
            },
            Direction::Backward => {
                if self.focused == 0 {
                    max
                } else {
                    self.focused - 1
                }
            },
        }
    }

    /// Move the focus one step in `direction`, wrapping around the ends, and return the
    /// newly focused element.
    pub fn cycle_focus(&mut self, direction: Direction) -> (r: Option<&T>)
        requires
            old(self).elements@.len() > 0,
            direction == Direction::Forward && old(self).focused >= old(self).elements@.len() ==> old(self).focused
                < usize::MAX,
        ensures
            final(self).elements@ == old(self).elements@,
            final(self).focused == next_index(
                old(self).focused as int,
                old(self).elements@.len() as int,
                direction,
            ),
            final(self).focused < final(self).elements@.len() ==> r == Some(
                &final(self).elements@[final(self).focused as int],
            ),
            final(self).focused >= final(self).elements@.len() ==> r is None,
    {
        self.focused = self.next_index(direction);
        self.focused()
    }

    /// Move the focused element one step in `direction`, keeping it focused.
    ///
    /// At the ends of the ring the element wraps around by rotating the whole ring;
    /// otherwise it swaps places with its neighbour.
    pub fn drag_focused(&mut self, direction: Direction) -> (r: Option<&T>)
        requires
            old(self).elements@.len() > 0,
            old(self).focused < old(self).elements@.len(),
        ensures
            final(self).elements@ == dragged(
                old(self).elements@,
                old(self).focused as int,
                direction,
            ),
            final(self).focused == next_index(
                old(self).focused as int,
                old(self).elements@.len() as int,
                direction,
            ),
            final(self).focused < final(self).elements@.len(),
            r == Some(&old(self).elements@[old(self).focused as int]),
            final(self).elements@.to_multiset() == old(self).elements@.to_multiset(),
    {
        let ghost s = self.elements@;
        let ghost f = self.focused as int;
        let other = self.next_index(direction);
        let focused = self.focused;
        proof {
            lemma_dragged_keeps_focus(s, f, direction);
        }
        if (focused == 0 && direction == Direction::Backward) || (other == 0 && direction
            == Direction::Forward) {
            self.rotate(direction);
        } else {
            let (lo, hi) = if focused < other {
                (focused, other)
            } else {
                (other, focused)
            };
            let x = self.elements.remove(hi);
            self.elements.insert(lo, x);
            assert(self.elements@ =~= swapped(s, f, other as int));
            proof {
                broadcast use vstd::seq_lib::group_to_multiset_ensures, vstd::multiset::group_multiset_axioms;
                assert(s.to_multiset().remove(s[hi as int]).insert(s[hi as int]) =~= s.to_multiset());
            }
        }
        self.cycle_focus(direction)
    }

    /// The number of elements.
    pub fn len(&self) -> (r: usize)
        ensures
            r == self.elements@.len(),
    {
        self.elements.len()
    }

    /// Insert `element` at the position described by `insert_point`, leaving the focus
    /// index unchanged.
    pub fn insert_at(&mut self, insert_point: &InsertPoint, element: T)
        requires
            insert_point_ok(
                *insert_point,
                old(self).focused as int,
                old(self).elements@.len() as int,
            ),
        ensures
            final(self).elements@ == inserted(
                old(self).elements@,
                old(self).focused as int,
                *insert_point,
                element,
            ),
            final(self).focused == old(self).focused,
    {
        match insert_point {
            InsertPoint::Index(ix) => self.elements.insert(*ix, element),
            InsertPoint::Focused => {
                let f = self.focused_index();
                self.elements.insert(f, element)
            },
            InsertPoint::First => self.elements.insert(0, element),
            InsertPoint::Last => self.elements.push(element),
            InsertPoint::AfterFocused => {
                let ix = self.focused_index() + 1;
                if ix > self.elements.len() {
                    self.elements.push(element)
                } else {
                    self.elements.insert(ix, element)
                }
            },
        }
    }

    /// Insert `element` at `index`.
    pub fn insert(&mut self, index: usize, element: T)
        requires
            index <= old(self).elements@.len(),
        ensures
            final(self).elements@ == old(self).elements@.insert(index as int, element),
            final(self).focused == old(self).focused,
    {
        self.elements.insert(index, element);
    }

    /// Add `element` to the end of the ring.
    pub fn push(&mut self, element: T)
        ensures
            final(self).elements@ == old(self).elements@.push(element),
            final(self).focused == old(self).focused,
    {
        self.elements.push(element);
    }

    /// Iterate over the elements in order.
    pub fn iter(&self) -> (r: std::slice::Iter<'_, T>)
        ensures
            vstd::std_specs::slice::into_iter_elts(r) == self.elements@,
    {
        proof {
            broadcast use vstd::std_specs::slice::axiom_spec_slice_iter;
        }
        self.elements.iter()
    }

    /// The element at `index`, if there is one.
    pub fn get(&self, index: usize) -> (r: Option<&T>)
        ensures
            match lookup(self.elements@, index as int) {
                Some(e) => r == Some(&e),
                None => r is None,
            },
    {
        if index < self.elements.len() {
            Some(&self.elements[index])
        } else {
            None
        }
    }

    /// A mutable reference to the element at `index`, if there is one.
    pub fn get_mut(&mut self, index: usize) -> (r: Option<&mut T>)
        ensures
            final(self).focused == old(self).focused,
            index < old(self).elements@.len() ==> (r matches Some(e) && *e
                == old(self).elements@[index as int] && final(self).elements@
                == old(self).elements@.update(index as int, *final(e))),
            index >= old(self).elements@.len() ==> (r is None && final(self).elements@
                == old(self).elements@),
    {
        if index < self.elements.len() {
            Some(&mut self.elements[index])
        } else {
            None
        }
    }

    /// Map `f` over the elements in order.
    pub fn vec_map<F: Fn(&T) -> U, U>(&self, f: F) -> (r: Vec<U>)
        requires
            forall|i: int| 0 <= i < self.elements@.len() ==> call_requires(f, (&#[trigger] self.elements@[i],)),
        ensures
            r@.len() == self.elements@.len(),
            forall|i: int|
                0 <= i < self.elements@.len() ==> call_ensures(f, (&#[trigger] self.elements@[i],), r@[i]),
    {
        let mut out: Vec<U> = Vec::new();
        let mut i: usize = 0;
        while i < self.elements.len()
            invariant
                i <= self.elements@.len(),
                out@.len() == i,
                forall|j: int| 0 <= j < self.elements@.len() ==> call_requires(f, (&#[trigger] self.elements@[j],)),
                forall|j: int| 0 <= j < i ==> call_ensures(f, (&#[trigger] self.elements@[j],), out@[j]),
            decreases self.elements@.len() - i,
        {
            let u = f(&self.elements[i]);
            out.push(u);
            i += 1;
        }
        out
    }

    /// Apply `f` to the element chosen by `s`, if there is one.
    pub fn apply_to<F: FnOnce(&mut T)>(&mut self, s: &Selector<'_, T>, f: F)
        requires
            selector_callable(s, old(self).elements@),
            (s is Focused || s is Any) ==> old(self).focused < old(self).elements@.len(),
            forall|t: &mut T| call_requires(f, (t,)),
        ensures
            final(self).focused == old(self).focused,
            final(self).elements@.len() == old(self).elements@.len(),
            exists|idx: Option<usize>|
                {
                    &&& index_result(s, old(self).elements@, old(self).focused as int, idx)
                    &&& forall|j: int|
                        0 <= j < old(self).elements@.len() && idx != Some(j as usize)
                            ==> final(self).elements@[j] == old(self).elements@[j]
                    &&& (idx matches Some(i) ==> exists|t: &mut T|
                        #![trigger call_ensures(f, (t,), ())]
                        *t == old(self).elements@[i as int] && *final(t) == final(self).elements@[i as int]
                            && call_ensures(f, (t,), ()))
                },
    {
        let idx = self.index(s);
        match idx {
            Some(index) => {
                f(&mut self.elements[index]);
            },
            None => {},
        }
    }

    /// Pull the focus back inside the ring after an element has been removed.
    fn clamp_focus(&mut self)
        requires
            !(old(self).focused > 0 && old(self).elements@.len() == 0),
        ensures
            final(self).elements@ == old(self).elements@,
            final(self).focused == clamped(
                old(self).focused as int,
                old(self).elements@.len() as int,
            ),
    {
        if self.focused > 0 && self.focused >= self.elements.len() - 1 {
            self.focused -= 1;
        }
    }

    /// The first element satisfying `cond`, along with its index.
    fn element_by(&self, cond: &dyn SelectorCondition<T>) -> (r: Option<(usize, &T)>)
        requires
            forall|i: int| 0 <= i < self.elements@.len() ==> cond.pre(#[trigger] self.elements@[i]),
        ensures
            match r {
                Some((i, e)) => first_match(cond, self.elements@, i as int) && *e
                    == self.elements@[i as int],
                None => no_match(cond, self.elements@),
            },
    {
        let mut i: usize = 0;
        while i < self.elements.len()
            invariant
                i <= self.elements@.len(),
                forall|j: int| 0 <= j < self.elements@.len() ==> cond.pre(#[trigger] self.elements@[j]),
                forall|j: int| 0 <= j < i ==> cond.post(#[trigger] self.elements@[j], false),
            decreases self.elements@.len() - i,
        {
            if cond.holds(&self.elements[i]) {
                return Some((i, &self.elements[i]));
            }
            i += 1;
        }
        None
    }

    /// The index selected by `s`, if any.
    ///
    /// `Focused` and `Any` give the focus index whether or not it is in range;
    /// `WinId` selects nothing.
    pub fn index(&self, s: &Selector<'_, T>) -> (r: Option<usize>)
        requires
            selector_callable(s, self.elements@),
        ensures
            index_result(s, self.elements@, self.focused as int, r),
    {
        match s {
            Selector::WinId(_) => None,
            Selector::Focused | Selector::Any => Some(self.focused_index()),
            Selector::Index(i) => {
                if *i < self.len() {
                    Some(*i)
                } else {
                    None
                }
            },
            Selector::Condition(f) => match self.element_by(*f) {
                Some((i, _)) => Some(i),
                None => None,
            },
        }
    }

    /// The index and element selected by `s`, if any.
    pub fn indexed_element(&self, s: &Selector<'_, T>) -> (r: Option<(usize, &T)>)
        requires
            selector_callable(s, self.elements@),
            (s is Focused || s is Any) ==> self.focused < self.elements@.len(),
        ensures
            exists|idx: Option<usize>|
                {
                    &&& index_result(s, self.elements@, self.focused as int, idx)
                    &&& match idx {
                        Some(i) => r matches Some((j, e)) && j == i && *e == self.elements@[i as int],
                        None => r is None,
                    }
                },
    {
        match self.index(s) {
            Some(i) => Some((i, &self.elements[i])),
            None => None,
        }
    }

    /// The element selected by `s`, if any.
    pub fn element(&self, s: &Selector<'_, T>) -> (r: Option<&T>)
        requires
            selector_callable(s, self.elements@),
        ensures
            element_result(
                s,
                self.elements@,
                self.focused as int,
                match r {
                    Some(e) => Some(*e),
                    None => None,
                },
            ),
    {
        match s {
            Selector::Focused | Selector::Any => self.focused(),
            Selector::Index(i) => self.get(*i),
            Selector::WinId(_) => None,
            Selector::Condition(f) => match self.element_by(*f) {
                Some((_, e)) => Some(e),
                None => None,
            },
        }
    }

    /// A mutable reference to the element selected by `s`, if any.
    pub fn element_mut(&mut self, s: &Selector<'_, T>) -> (r: Option<&mut T>)
        requires
            selector_callable(s, old(self).elements@),
        ensures
            final(self).focused == old(self).focused,
            match r {
                Some(e) => exists|i: int|
                    {
                        &&& 0 <= i < old(self).elements@.len()
                        &&& index_result(
                            s,
                            old(self).elements@,
                            old(self).focused as int,
                            Some(i as usize),
                        )
                        &&& *e == old(self).elements@[i]
                        &&& final(self).elements@ == old(self).elements@.update(i, *final(e))
                    },
                None => final(self).elements@ == old(self).elements@ && element_result(
                    s,
                    old(self).elements@,
                    old(self).focused as int,
                    None,
                ),
            },
    {
        let idx = match s {
            Selector::Focused | Selector::Any => Some(self.focused),
            Selector::Index(i) => Some(*i),
            Selector::WinId(_) => None,
            Selector::Condition(f) => match self.element_by(*f) {
                Some((i, _)) => Some(i),
                None => None,
            },
        };
        match idx {
            Some(i) => self.get_mut(i),
            None => None,
        }
    }

    /// References to every element selected by `s`, in order.
    pub fn all_elements(&self, s: &Selector<'_, T>) -> (r: Vec<&T>)
        requires
            selector_callable(s, self.elements@),
        ensures
            match s {
                Selector::Any => r@.len() == self.elements@.len() && forall|i: int|
                    0 <= i < r@.len() ==> *r@[i] == self.elements@[i],
                Selector::Condition(f) => exists|keep: Seq<bool>|
                    answers(*f, self.elements@, keep) && r@.map_values(|e: &T| *e) == select_by(
                        self.elements@,
                        keep,
                    ),
                Selector::WinId(_) => r@.len() == 0,
                _ => match plain_index(s, self.focused as int, self.elements@.len() as int) {
                    Some(i) => match lookup(self.elements@, i) {
                        Some(e) => r@.len() == 1 && *r@[0] == e,
                        None => r@.len() == 0,
                    },
                    None => r@.len() == 0,
                },
            },
    {
        let mut out: Vec<&T> = Vec::new();
        match s {
            Selector::Any => {
                let mut i: usize = 0;
                while i < self.elements.len()
                    invariant
                        i <= self.elements@.len(),
                        out@.len() == i,
                        forall|j: int| 0 <= j < i ==> *out@[j] == self.elements@[j],
                    decreases self.elements@.len() - i,
                {
                    out.push(&self.elements[i]);
                    i += 1;
                }
            },
            Selector::Focused => {
                if let Some(e) = self.focused() {
                    out.push(e);
                }
            },
            Selector::Index(i) => {
                if let Some(e) = self.get(*i) {
                    out.push(e);
                }
            },
            Selector::WinId(_) => {},
            Selector::Condition(f) => {
                let ghost mut keep: Seq<bool> = Seq::empty();
                let mut i: usize = 0;
                while i < self.elements.len()
                    invariant
                        i <= self.elements@.len(),
                        keep.len() == i,
                        forall|j: int| 0 <= j < self.elements@.len() ==> f.pre(#[trigger] self.elements@[j]),
                        forall|j: int| 0 <= j < i ==> f.post(#[trigger] self.elements@[j], keep[j]),
                        out@.map_values(|e: &T| *e) == select_by(
                            self.elements@.take(i as int),
                            keep,
                        ),
                    decreases self.elements@.len() - i,
                {
                    let b = f.holds(&self.elements[i]);
                    let ghost old_keep = keep;
                    let ghost old_out = out@;
                    if b {
                        out.push(&self.elements[i]);
                    }
                    proof {
                        keep = keep.push(b);
                        let t = self.elements@.take(i + 1);
                        assert(t.drop_last() =~= self.elements@.take(i as int));
                        assert(keep.drop_last() =~= old_keep);
                        assert(out@.map_values(|e: &T| *e) =~= select_by(t, keep));
                    }
                    i += 1;
                }
                proof {
                    assert(self.elements@.take(i as int) =~= self.elements@);
                }
            },
        }
        out
    }

    /// Focus the element selected by `s`.
    ///
    /// Returns whether the focus moved along with the newly focused element, or
    /// `None` when nothing is focused afterwards. Focusing an index that is out of
    /// range stores that index as the focus and returns `None`.
    pub fn focus(&mut self, s: &Selector<'_, T>) -> (r: Option<(bool, &T)>)
        requires
            selector_callable(s, old(self).elements@),
            (s is Focused || s is Any) ==> old(self).focused < old(self).elements@.len(),
        ensures
            final(self).elements@ == old(self).elements@,
            refocused(s, old(self).elements@, old(self).focused as int, final(self).focused as int),
            (r matches Some((true, _))) <==> (final(self).focused != old(self).focused
                && final(self).focused < old(self).elements@.len()),
            match s {
                Selector::Focused | Selector::Any => r == Some(
                    (false, &old(self).elements@[old(self).focused as int]),
                ) && final(self).focused == old(self).focused,
                Selector::Index(i) => final(self).focused == i && if i < old(self).elements@.len() {
                    r == Some((i != old(self).focused, &old(self).elements@[i as int]))
                } else {
                    r is None
                },
                Selector::WinId(_) => r is None && final(self).focused == old(self).focused,
                Selector::Condition(f) => match r {
                    Some((changed, e)) => first_match(*f, old(self).elements@, final(self).focused as int)
                        && *e == old(self).elements@[final(self).focused as int]
                        && changed == (final(self).focused != old(self).focused),
                    None => no_match(*f, old(self).elements@) && final(self).focused == old(self).focused,
                },
            },
    {
        match s {
            Selector::Focused | Selector::Any => Some((false, &self.elements[self.focused])),
            Selector::Index(i) => {
                if *i < self.elements.len() && *i == self.focused {
                    return Some((false, &self.elements[self.focused]));
                }
                self.focused = *i;
                match self.focused() {
                    Some(t) => Some((true, t)),
                    None => None,
                }
            },
            Selector::WinId(_) => None,
            Selector::Condition(f) => match self.element_by(*f) {
                Some((i, _)) => {
                    if i == self.focused {
                        Some((false, &self.elements[self.focused]))
                    } else {
                        self.focused = i;
                        Some((true, &self.elements[self.focused]))
                    }
                },
                None => None,
            },
        }
    }

    /// Remove the element selected by `s`, pulling the focus back inside the ring.
    pub fn remove(&mut self, s: &Selector<'_, T>) -> (r: Option<T>)
        requires
            selector_callable(s, old(self).elements@),
            remove_ok(s, old(self).elements@, old(self).focused as int),
        ensures
            removed(s, old(self).elements@, old(self).focused as int, final(self).elements@, final(self).focused as int, r),
    {
        match s {
            Selector::Focused | Selector::Any => {
                let f = self.focused;
                let c = if f < self.elements.len() {
                    Some(self.elements.remove(f))
                } else {
                    None
                };
                self.clamp_focus();
                c
            },
            Selector::Index(i) => {
                let c = if *i < self.elements.len() {
                    Some(self.elements.remove(*i))
                } else {
                    None
                };
                self.clamp_focus();
                c
            },
            Selector::WinId(_) => None,
            Selector::Condition(f) => {
                match self.element_by(*f) {
                    Some((i, _)) => {
                        let c = self.elements.remove(i);
                        self.clamp_focus();
                        Some(c)
                    },
                    None => None,
                }
            },
        }
    }
}

/// What [Ring::equivalent_selectors] answers for `s` and `t` on the elements `elems`
/// with focus `focused`: true only when both select an element, and, for a type
/// whose `==` follows its specification, whether the two elements are equal.
pub open spec fn equivalent_result<T: PartialEq>(s: &Selector<T>, t: &Selector<T>, elems: Seq<T>, focused: int, r: bool) -> bool {
    exists|a: Option<T>, b: Option<T>|
        #![trigger element_result(s, elems, focused, a), element_result(t, elems, focused, b)]
        {
            &&& element_result(s, elems, focused, a)
            &&& element_result(t, elems, focused, b)
            &&& r ==> (a is Some && b is Some)
            &&& (T::obeys_eq_spec() && a is Some && b is Some) ==> r == a->0.eq_spec(&b->0)
        }
}

impl<T: PartialEq> Ring<T> {
    /// Whether `s` and `t` both select an element and the two elements are equal.
    pub fn equivalent_selectors(&self, s: &Selector<'_, T>, t: &Selector<'_, T>) -> (r: bool)
        requires
            selector_callable(s, self.elements@),
            selector_callable(t, self.elements@),
        ensures
            equivalent_result(s, t, self.elements@, self.focused as int, r),
    {
        let ea = self.element(s);
        let eb = self.element(t);
        let ghost a = match ea {
            Some(e) => Some(*e),
            None => None,
        };
        let ghost b = match eb {
            Some(e) => Some(*e),
            None => None,
        };
        let r = match (ea, eb) {
            (Some(e), Some(f)) => e.eq(f),
            _ => false,
        };
        assert(element_result(s, self.elements@, self.focused as int, a));
        assert(element_result(t, self.elements@, self.focused as int, b));
        assert(r ==> (a is Some && b is Some));
        assert((T::obeys_eq_spec() && a is Some && b is Some) ==> r == a->0.eq_spec(&b->0));
        assert(equivalent_result(s, t, self.elements@, self.focused as int, r));
        r
    }
}

impl<T: Clone> Ring<T> {
    /// A copy of the elements in order.
    pub fn as_vec(&self) -> (r: Vec<T>)
        ensures
            r@.len() == self.elements@.len(),
            forall|i: int| 0 <= i < r@.len() ==> cloned(#[trigger] self.elements@[i], r@[i]),
    {
        let mut out: Vec<T> = Vec::new();
        let mut i: usize = 0;
        while i < self.elements.len()
            invariant
                i <= self.elements@.len(),
                out@.len() == i,
                forall|j: int| 0 <= j < i ==> cloned(#[trigger] self.elements@[j], out@[j]),
            decreases self.elements@.len() - i,
        {
            out.push(self.elements[i].clone());
            i += 1;
        }
        out
    }
}

/// `focused2` is where `focus(s)` leaves the focus of a ring of `elems` focused at `focused`.
pub open spec fn refocused<T>(s: &Selector<T>, elems: Seq<T>, focused: int, focused2: int) -> bool {
    match s {
        Selector::Focused | Selector::Any => focused2 == focused,
        Selector::Index(i) => focused2 == i,
        Selector::WinId(_) => focused2 == focused,
        Selector::Condition(f) => first_match(*f, elems, focused2) || (no_match(*f, elems)
            && focused2 == focused),
    }
}

/// The number of elements left after removing what `s` selects, and whether
/// anything is removed; `None` when `s` removes nothing and leaves the focus alone.
pub open spec fn remove_ok<T>(s: &Selector<T>, elems: Seq<T>, focused: int) -> bool {
    match s {
        Selector::WinId(_) => true,
        Selector::Condition(f) => (focused > 0 && elems.len() == 1) ==> !f.post(elems[0], true),
        _ => {
            let hit = match plain_index(s, focused, elems.len() as int) {
                Some(i) => 0 <= i < elems.len(),
                None => false,
            };
            let remaining = if hit { elems.len() - 1 } else { elems.len() as int };
            !(focused > 0 && remaining == 0)
        },
    }
}

/// The state after `remove(s)` on elements `elems` with focus `focused` is
/// `(elems2, focused2)` and the removed element is `r`.
pub open spec fn removed<T>(
    s: &Selector<T>,
    elems: Seq<T>,
    focused: int,
    elems2: Seq<T>,
    focused2: int,
    r: Option<T>,
) -> bool {
    match s {
        Selector::WinId(_) => r is None && elems2 == elems && focused2 == focused,
        Selector::Condition(f) => match r {
            Some(e) => exists|i: int|
                first_match(*f, elems, i) && e == elems[i] && elems2 == elems.remove(i) && focused2
                    == clamped(focused, elems.len() - 1),
            None => no_match(*f, elems) && elems2 == elems && focused2 == focused,
        },
        _ => match plain_index(s, focused, elems.len() as int) {
            Some(i) => if 0 <= i < elems.len() {
                r == Some(elems[i]) && elems2 == elems.remove(i) && focused2 == clamped(
                    focused,
                    elems.len() - 1,
                )
            } else {
                r is None && elems2 == elems && focused2 == clamped(focused, elems.len() as int)
            },
            None => r is None && elems2 == elems && focused2 == clamped(focused, elems.len() as int),
        },
    }
}

/// Dragging keeps the focused element under the new focus index.
proof fn lemma_dragged_keeps_focus<T>(s: Seq<T>, f: int, d: Direction)
    requires
        0 <= f < s.len(),
    ensures
        dragged(s, f, d).len() == s.len(),
        dragged(s, f, d)[next_index(f, s.len() as int, d)] == s[f],
{
}

/// Rotating a ring one way and then the other gives back the order it started with.
pub proof fn lemma_rotate_round_trip<T>(s: Seq<T>, d: Direction)
    ensures
        rotated(rotated(s, d), reversed(d)) == s,
{
    if s.len() > 0 {
        match d {
            Direction::Forward => {
                assert(rotated(rotated(s, d), reversed(d)) =~= s);
            },
            Direction::Backward => {
                assert(rotated(rotated(s, d), reversed(d)) =~= s);
            },
        }
    }
}

/// Moving the focus one step and then one step back returns it to where it was.
pub proof fn lemma_cycle_focus_round_trip(focused: int, len: int, d: Direction)
    requires
        0 <= focused < len,
    ensures
        next_index(next_index(focused, len, d), len, reversed(d)) == focused,
        0 <= next_index(focused, len, d) < len,
{
}

/// Dragging the focused element takes it out of the ring and puts it back at
/// the position the focus moves to; the other elements keep their order.
pub proof fn lemma_drag_moves_focused_element<T>(s: Seq<T>, f: int, d: Direction)
    requires
        0 <= f < s.len(),
    ensures
        dragged(s, f, d) == s.remove(f).insert(next_index(f, s.len() as int, d), s[f]),
{
    let n = next_index(f, s.len() as int, d);
    assert(dragged(s, f, d) =~= s.remove(f).insert(n, s[f]));
}

/// Dragging the focused element one way and then back restores the order of the ring.
pub proof fn lemma_drag_round_trip<T>(s: Seq<T>, f: int, d: Direction)
    requires
        0 <= f < s.len(),
    ensures
        dragged(dragged(s, f, d), next_index(f, s.len() as int, d), reversed(d)) == s,
{
    let n = next_index(f, s.len() as int, d);
    lemma_drag_moves_focused_element(s, f, d);
    let t = dragged(s, f, d);
    lemma_dragged_keeps_focus(s, f, d);
    lemma_drag_moves_focused_element(t, n, reversed(d));
    assert(t.remove(n) =~= s.remove(f));
    assert(s.remove(f).insert(f, s[f]) =~= s);
}

/// Inserting an element at an index and then removing that index gives the
/// element back and restores the elements.
pub proof fn lemma_insert_remove_round_trip<T>(s: Seq<T>, i: int, e: T)
    requires
        0 <= i <= s.len(),
    ensures
        s.insert(i, e)[i] == e,
        s.insert(i, e).remove(i) == s,
{
    assert(s.insert(i, e).remove(i) =~= s);
}

/// The number of elements of a ring: inserting an element adds one, removing an
/// element that was found takes one away and removing none leaves the number, and
/// rotating or dragging the focused element leaves it. (Moving the focus, and applying
/// a function to an element, leave the elements' number as their contracts state.)
pub proof fn lemma_len_changes<T>(
    s: Seq<T>,
    focused: int,
    ip: InsertPoint,
    e: T,
    d: Direction,
    sel: &Selector<T>,
    s2: Seq<T>,
    focused2: int,
    r: Option<T>,
)
    requires
        insert_point_ok(ip, focused, s.len() as int),
        0 <= focused,
        removed(sel, s, focused, s2, focused2, r),
    ensures
        inserted(s, focused, ip, e).len() == s.len() + 1,
        rotated(s, d).len() == s.len(),
        focused < s.len() ==> dragged(s, focused, d).len() == s.len(),
        r is Some ==> s2.len() + 1 == s.len(),
        r is None ==> s2.len() == s.len(),
{
    if focused < s.len() {
        lemma_dragged_keeps_focus(s, focused, d);
    }
}

/// Whether two selectors pick equal elements does not depend on their order: for a
/// type whose `==` follows its specification and is symmetric, and selectors other
/// than conditions, the answer for `(s, t)` is the answer for `(t, s)`.
pub proof fn lemma_equivalent_selectors_symmetric<T: PartialEq>(
    s: &Selector<T>,
    t: &Selector<T>,
    elems: Seq<T>,
    focused: int,
    r1: bool,
    r2: bool,
)
    requires
        T::obeys_eq_spec(),
        forall|x: T, y: T| #[trigger] x.eq_spec(&y) == y.eq_spec(&x),
        !(s is Condition),
        !(t is Condition),
        equivalent_result(s, t, elems, focused, r1),
        equivalent_result(t, s, elems, focused, r2),
    ensures
        r1 == r2,
{
    let va = match plain_index(s, focused, elems.len() as int) {
        Some(i) => lookup(elems, i),
        None => None,
    };
    let vb = match plain_index(t, focused, elems.len() as int) {
        Some(i) => lookup(elems, i),
        None => None,
    };
    assert forall|x: Option<T>| #[trigger] element_result(s, elems, focused, x) implies x == va by {}
    assert forall|x: Option<T>| #[trigger] element_result(t, elems, focused, x) implies x == vb by {}
    if va is Some && vb is Some {
        assert(va->0.eq_spec(&vb->0) == vb->0.eq_spec(&va->0));
    }
}

} // verus!

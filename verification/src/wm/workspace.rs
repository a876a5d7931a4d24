//! A set of clients and accompanying layouts for display on a single screen.
//!
//! Clients are referenced by their window ID, and each ID is held at most once.
use vstd::prelude::*;
use vstd::string::StringExecFns;

use crate::wm::client::Client;
use crate::wm::data_types::{Change, ResizeAction};
use crate::wm::layout::{Layout, LayoutConf};
use crate::wm::manager::clients::Clients;
use crate::wm::ring::{
    dragged, first_match, inserted, insert_point_ok, next_index, no_match, rotated, Direction,
    InsertPoint, Ring, Selector, SelectorCondition,
};
use crate::wm::xconnection::Xid;
use crate::{decimal_string, decimal_text, PenroseError};

verus! {

/// What laying out a workspace gives: the region of each tiled client (none to hide
/// it), and the floating clients to stack above them.
#[derive(Debug, Clone, PartialEq, Eq)]
pub struct ArrangeActions {
    /// The region of each tiled client, or none to hide it
    pub actions: Vec<ResizeAction>,
    /// The floating clients, to stack above the tiled ones
    pub floating: Vec<Xid>,
}

/// The focus of a ring is on one of its elements, or at 0 when it is empty.
pub open spec fn focus_ok<T>(r: Ring<T>) -> bool {
    r.focused < r.elements@.len() || (r.elements@.len() == 0 && r.focused == 0)
}

/// The position of `id` in `ids`, if it is there.
pub open spec fn position(ids: Seq<Xid>, id: Xid) -> Option<int> {
    if ids.contains(id) {
        Some(choose|i: int| 0 <= i < ids.len() && ids[i] == id)
    } else {
        None
    }
}

/// A Workspace represents a named set of clients that are tiled according to a
/// specific layout. Layouts are tracked per workspace and clients are referenced by
/// ID.
#[derive(Debug, Clone, PartialEq)]
pub struct Workspace {
    /// The name of the workspace
    pub name: String,
    /// The IDs of the clients, in stack order, with the focused one
    pub clients: Ring<Xid>,
    /// The layouts, with the active one focused
    pub layouts: Ring<Layout>,
}

/// A closure that tests a client ID for being `id`.
fn is_id(id: Xid) -> (f: impl Fn(&Xid) -> bool)
    ensures
        forall|c: &Xid| #[trigger] call_requires(f, (c,)),
        forall|c: &Xid, b: bool| call_ensures(f, (c,), b) ==> b == (*c == id),
{
    move |c: &Xid| -> (b: bool)
        ensures
            b == (*c == id),
        { *c == id }
}

impl Workspace {
    /// The client IDs are distinct, the client focus is on a client (or at 0 when
    /// there are none), and there is a focused layout.
    pub open spec fn wf(&self) -> bool {
        &&& self.clients.elements@.no_duplicates()
        &&& focus_ok(self.clients)
        &&& self.layouts.elements@.len() > 0
        &&& self.layouts.focused < self.layouts.elements@.len()
    }

    /// The active layout.
    pub open spec fn active_layout(&self) -> Layout {
        self.layouts.elements@[self.layouts.focused as int]
    }

    /// Construct a new Workspace with the given name and choice of layouts, the first
    /// of them active.
    pub fn new(name: String, layouts: Vec<Layout>) -> (r: Self)
        requires
            layouts@.len() > 0,
        ensures
            r.wf(),
            r.name == name,
            r.clients.elements@.len() == 0,
            r.layouts.elements@ == layouts@,
            r.layouts.focused == 0,
    {
        Self { name, clients: Ring::new(Vec::new()), layouts: Ring::new(layouts) }
    }

    /// The name of this workspace
    pub fn name(&self) -> (r: &str)
        ensures
            r@ == self.name@,
    {
        self.name.as_str()
    }

    /// Rename this workspace.
    pub fn set_name(&mut self, name: String)
        ensures
            *final(self) == (Workspace { name, ..*old(self) }),
    {
        self.name = name;
    }

    /// The number of clients currently on this workspace
    pub fn len(&self) -> (r: usize)
        ensures
            r == self.clients.elements@.len(),
    {
        self.clients.len()
    }

    /// Is this Workspace currently empty?
    pub fn is_empty(&self) -> (r: bool)
        ensures
            r == (self.clients.elements@.len() == 0),
    {
        self.clients.len() == 0
    }

    /// Iterate over the clients on this workspace in position order
    pub fn iter(&self) -> (r: std::slice::Iter<'_, Xid>)
        ensures
            vstd::std_specs::slice::into_iter_elts(r) == self.clients.elements@,
    {
        self.clients.iter()
    }

    /// The ordered list of client IDs currently contained in this workspace
    pub fn client_ids(&self) -> (r: Vec<Xid>)
        ensures
            r@ == self.clients.elements@,
    {
        let v = self.clients.as_vec();
        assert(v@ =~= self.clients.elements@);
        v
    }

    /// The currently focused client if there is one
    pub fn focused_client(&self) -> (r: Option<Xid>)
        ensures
            r == self.clients.spec_focused(),
    {
        match self.clients.focused() {
            Some(c) => Some(*c),
            None => None,
        }
    }

    /// Add a new client to this workspace at `ip`, leaving the focus index where it
    /// is. A client that is already on the workspace is an error.
    pub fn add_client(&mut self, id: Xid, ip: &InsertPoint) -> (r: Result<(), PenroseError>)
        requires
            old(self).wf(),
            insert_point_ok(*ip, old(self).clients.focused as int, old(self).clients.elements@.len() as int),
        ensures
            final(self).wf(),
            final(self).name == old(self).name,
            final(self).layouts == old(self).layouts,
            final(self).clients.focused == old(self).clients.focused || old(self).clients.elements@.len() == 0,
            old(self).clients.elements@.contains(id) ==> (r matches Err(PenroseError::Raw(m)) && m@
                == decimal_text(id as nat) + " is already in this workspace"@ && *final(self) == *old(self)),
            !old(self).clients.elements@.contains(id) ==> (r is Ok && final(self).clients.elements@ == inserted(
                old(self).clients.elements@,
                old(self).clients.focused as int,
                *ip,
                id,
            )),
    {
        let cond = is_id(id);
        let existing = self.clients.element(&Selector::Condition(&cond));
        if existing.is_some() {
            proof {
                let e = existing->0;
                let i = choose|i: int| first_match(&cond, self.clients.elements@, i) && *e == self.clients.elements@[i];
                assert(self.clients.elements@[i] == id);
            }
            let m = decimal_string(id as usize).concat(" is already in this workspace");
            return Err(PenroseError::Raw(m));
        }
        proof {
            if self.clients.elements@.contains(id) {
                let i = choose|i: int| 0 <= i < self.clients.elements@.len() && self.clients.elements@[i] == id;
                assert(no_match(&cond, self.clients.elements@));
                assert(cond.post(self.clients.elements@[i], false));
            }
        }
        let ghost before = self.clients.elements@;
        self.clients.insert_at(ip, id);
        proof {
            let after = self.clients.elements@;
            assert(after.len() == before.len() + 1) by {
                match *ip {
                    InsertPoint::AfterFocused => {},
                    _ => {},
                }
            }
            assert(after.to_multiset() == before.to_multiset().insert(id)) by {
                broadcast use vstd::seq_lib::group_to_multiset_ensures;
                match *ip {
                    InsertPoint::Index(ix) => vstd::seq_lib::to_multiset_insert(before, ix as int, id),
                    InsertPoint::Focused => vstd::seq_lib::to_multiset_insert(before, old(self).clients.focused as int, id),
                    InsertPoint::First => vstd::seq_lib::to_multiset_insert(before, 0, id),
                    InsertPoint::Last => {},
                    InsertPoint::AfterFocused => {
                        if old(self).clients.focused + 1 <= before.len() {
                            vstd::seq_lib::to_multiset_insert(before, old(self).clients.focused + 1, id);
                        }
                    },
                }
            }
            lemma_insert_new_keeps_distinct(before, after, id);
        }
        Ok(())
    }

    /// Focus the client with the given id, returning the previously focused client if
    /// there was one. Focusing an ID that is not on the workspace leaves the focus.
    pub fn focus_client(&mut self, id: Xid) -> (r: Option<Xid>)
        requires
            old(self).wf(),
        ensures
            final(self).wf(),
            r == old(self).clients.spec_focused(),
            final(self).name == old(self).name,
            final(self).layouts == old(self).layouts,
            final(self).clients.elements@ == old(self).clients.elements@,
            match position(old(self).clients.elements@, id) {
                Some(i) => final(self).clients.focused == i,
                None => final(self).clients.focused == old(self).clients.focused,
            },
    {
        let prev = self.focused_client();
        let cond = is_id(id);
        let ghost elems = self.clients.elements@;
        let _ = self.clients.focus(&Selector::Condition(&cond));
        proof {
            lemma_position_of_distinct(elems, id);
            if elems.contains(id) {
                let i = choose|i: int| 0 <= i < elems.len() && elems[i] == id;
                assert(cond.post(elems[i], true));
                if no_match(&cond, elems) {
                    assert(cond.post(elems[i], false));
                }
                let f = self.clients.focused as int;
                assert(first_match(&cond, elems, f));
                assert(elems[f] == id);
            } else {
                if !no_match(&cond, elems) {
                    let f = self.clients.focused as int;
                    assert(first_match(&cond, elems, f));
                    assert(elems[f] == id);
                }
            }
        }
        prev
    }

    /// Remove a target client, keeping the focus at the same position in the stack
    /// (or the new last position). Returns the removed client if there was one.
    pub fn remove_client(&mut self, id: Xid) -> (r: Option<Xid>)
        requires
            old(self).wf(),
        ensures
            final(self).wf(),
            final(self).name == old(self).name,
            final(self).layouts == old(self).layouts,
            match position(old(self).clients.elements@, id) {
                Some(i) => r == Some(id) && final(self).clients.elements@ == old(self).clients.elements@.remove(i)
                    && final(self).clients.focused == crate::wm::ring::clamped(
                    old(self).clients.focused as int,
                    old(self).clients.elements@.len() - 1,
                ),
                None => r is None && final(self).clients.elements@ == old(self).clients.elements@
                    && final(self).clients.focused == old(self).clients.focused,
            },
    {
        let cond = is_id(id);
        let ghost elems = self.clients.elements@;
        let ghost f0 = self.clients.focused as int;
        proof {
            lemma_position_of_distinct(elems, id);
            if f0 > 0 && elems.len() == 1 {
                assert(false);
            }
        }
        let r = self.clients.remove(&Selector::Condition(&cond));
        proof {
            match r {
                Some(e) => {
                    let i = choose|i: int|
                        first_match(&cond, elems, i) && e == elems[i] && self.clients.elements@ == elems.remove(i)
                            && self.clients.focused == crate::wm::ring::clamped(f0, elems.len() - 1);
                    assert(elems[i] == id);
                    assert(position(elems, id) == Some(i));
                    assert(self.clients.elements@.no_duplicates()) by {
                        assert forall|a: int, b: int|
                            0 <= a < self.clients.elements@.len() && 0 <= b < self.clients.elements@.len() && a != b
                            implies self.clients.elements@[a] != self.clients.elements@[b] by {
                            let a0 = if a < i { a } else { a + 1 };
                            let b0 = if b < i { b } else { b + 1 };
                            assert(self.clients.elements@[a] == elems[a0]);
                            assert(self.clients.elements@[b] == elems[b0]);
                        }
                    }
                },
                None => {
                    if elems.contains(id) {
                        let i = choose|i: int| 0 <= i < elems.len() && elems[i] == id;
                        assert(cond.post(elems[i], false));
                    }
                },
            }
        }
        r
    }

    /// Remove the currently focused client, keeping the focus at the same position in
    /// the stack (or the new last position). Returns the removed client if there was one.
    pub fn remove_focused_client(&mut self) -> (r: Option<Xid>)
        requires
            old(self).wf(),
        ensures
            final(self).wf(),
            final(self).name == old(self).name,
            final(self).layouts == old(self).layouts,
            r == old(self).clients.spec_focused(),
            match r {
                Some(_) => final(self).clients.elements@ == old(self).clients.elements@.remove(
                    old(self).clients.focused as int,
                ) && final(self).clients.focused == crate::wm::ring::clamped(
                    old(self).clients.focused as int,
                    old(self).clients.elements@.len() - 1,
                ),
                None => final(self).clients.elements@ == old(self).clients.elements@
                    && final(self).clients.focused == old(self).clients.focused,
            },
    {
        let ghost elems = self.clients.elements@;
        let ghost f0 = self.clients.focused as int;
        let r = self.clients.remove(&Selector::Focused);
        proof {
            if f0 < elems.len() {
                assert(self.clients.elements@ == elems.remove(f0));
                assert(self.clients.elements@.no_duplicates()) by {
                    assert forall|a: int, b: int|
                        0 <= a < self.clients.elements@.len() && 0 <= b < self.clients.elements@.len() && a != b
                        implies self.clients.elements@[a] != self.clients.elements@[b] by {
                        let a0 = if a < f0 { a } else { a + 1 };
                        let b0 = if b < f0 { b } else { b + 1 };
                        assert(self.clients.elements@[a] == elems[a0]);
                        assert(self.clients.elements@[b] == elems[b0]);
                    }
                }
            }
        }
        r
    }

    /// Activate the layout with the given symbol, if there is one, and give it back.
    pub fn try_set_layout(&mut self, symbol: &str) -> (r: Option<&Layout>)
        requires
            old(self).wf(),
        ensures
            final(self).wf(),
            final(self).name == old(self).name,
            final(self).clients == old(self).clients,
            final(self).layouts.elements@ == old(self).layouts.elements@,
            match r {
                Some(l) => l.symbol@ == symbol@ && *l == final(self).active_layout()
                    && (forall|j: int| 0 <= j < final(self).layouts.focused ==> #[trigger] old(self).layouts.elements@[j].symbol@ != symbol@),
                None => final(self).layouts.focused == old(self).layouts.focused
                    && forall|j: int| 0 <= j < old(self).layouts.elements@.len() ==> #[trigger] old(self).layouts.elements@[j].symbol@ != symbol@,
            },
    {
        let mut i: usize = 0;
        while i < self.layouts.elements.len()
            invariant
                old(self).wf(),
                self.name == old(self).name,
                self.clients == old(self).clients,
                self.layouts == old(self).layouts,
                i <= self.layouts.elements@.len(),
                forall|j: int| 0 <= j < i ==> #[trigger] self.layouts.elements@[j].symbol@ != symbol@,
            decreases self.layouts.elements@.len() - i,
        {
            if crate::wm::key_text::same_text(self.layouts.elements[i].symbol.as_str(), symbol) {
                self.layouts.focused = i;
                return Some(&self.layouts.elements[i]);
            }
            i = i + 1;
        }
        None
    }

    /// Cycle through the available layouts on this workspace, returning the symbol of
    /// the newly active one.
    pub fn cycle_layout(&mut self, direction: Direction) -> (r: &str)
        requires
            old(self).wf(),
        ensures
            final(self).wf(),
            final(self).name == old(self).name,
            final(self).clients == old(self).clients,
            final(self).layouts.elements@ == old(self).layouts.elements@,
            final(self).layouts.focused == next_index(
                old(self).layouts.focused as int,
                old(self).layouts.elements@.len() as int,
                direction,
            ),
            r@ == final(self).active_layout().symbol@,
    {
        let _ = self.layouts.cycle_focus(direction);
        self.layout_symbol()
    }

    /// The symbol of the active layout.
    pub fn layout_symbol(&self) -> (r: &str)
        requires
            self.wf(),
        ensures
            r@ == self.active_layout().symbol@,
    {
        self.layouts.focused_unchecked().symbol.as_str()
    }

    /// The settings of the active layout: when and how it is applied.
    pub fn layout_conf(&self) -> (r: LayoutConf)
        requires
            self.wf(),
        ensures
            r == self.active_layout().conf,
    {
        self.layouts.focused_unchecked().conf
    }

    /// Cycle focus through the clients on this workspace, returning the previous and
    /// newly focused client IDs.
    ///
    /// Nothing happens with fewer than two clients, or when the focus would wrap around
    /// the end of the stack and the active layout does not allow that.
    pub fn cycle_client(&mut self, direction: Direction) -> (r: Option<(Xid, Xid)>)
        requires
            old(self).wf(),
        ensures
            final(self).wf(),
            final(self).name == old(self).name,
            final(self).layouts == old(self).layouts,
            final(self).clients.elements@ == old(self).clients.elements@,
            ({
                let elems = old(self).clients.elements@;
                let f = old(self).clients.focused as int;
                let wraps = (f == 0 && direction == Direction::Backward) || (f == elems.len() - 1 && direction == Direction::Forward);
                if elems.len() < 2 || (!old(self).active_layout().conf.allow_wrapping && wraps) {
                    r is None && final(self).clients.focused == old(self).clients.focused
                } else {
                    let g = next_index(f, elems.len() as int, direction);
                    final(self).clients.focused == g && r == Some((elems[f], elems[g]))
                }
            }),
    {
        if self.clients.len() < 2 {
            return None;
        }
        if !self.layout_conf().allow_wrapping && self.clients.would_wrap(direction) {
            return None;
        }
        let ghost elems = self.clients.elements@;
        let prev = *self.clients.focused_unchecked();
        let new = *self.clients.cycle_focus(direction).unwrap();
        proof {
            let f = old(self).clients.focused as int;
            let g = next_index(f, elems.len() as int, direction);
            assert(g != f);
            assert(elems[g] != elems[f]);
        }
        if prev != new {
            Some((prev, new))
        } else {
            None
        }
    }

    /// Drag the focused client through the stack, keeping it focused.
    ///
    /// Nothing happens when the drag would wrap around the end of the stack and the
    /// active layout does not allow that.
    pub fn drag_client(&mut self, direction: Direction) -> (r: Option<Xid>)
        requires
            old(self).wf(),
        ensures
            final(self).wf(),
            final(self).name == old(self).name,
            final(self).layouts == old(self).layouts,
            ({
                let elems = old(self).clients.elements@;
                let f = old(self).clients.focused as int;
                let wraps = elems.len() > 0 && ((f == 0 && direction == Direction::Backward) || (f == elems.len() - 1 && direction == Direction::Forward));
                if elems.len() == 0 || (!old(self).active_layout().conf.allow_wrapping && wraps) {
                    r is None && final(self).clients == old(self).clients
                } else {
                    &&& final(self).clients.elements@ == dragged(elems, f, direction)
                    &&& final(self).clients.focused == next_index(f, elems.len() as int, direction)
                    &&& r == Some(elems[f])
                }
            }),
    {
        if self.clients.len() == 0 {
            return None;
        }
        if !self.layout_conf().allow_wrapping && self.clients.would_wrap(direction) {
            return None;
        }
        let ghost elems = self.clients.elements@;
        let r = match self.clients.drag_focused(direction) {
            Some(c) => Some(*c),
            None => None,
        };
        proof {
            assert(self.clients.elements@.to_multiset() == elems.to_multiset());
            assert forall|x: Xid| self.clients.elements@.to_multiset().count(x) <= 1 by {
                elems.lemma_multiset_has_no_duplicates();
            }
            self.clients.elements@.lemma_multiset_has_no_duplicates_conv();
        }
        r
    }

    /// Rotate the client stack in the given direction
    pub fn rotate_clients(&mut self, direction: Direction)
        requires
            old(self).wf(),
        ensures
            final(self).wf(),
            final(self).name == old(self).name,
            final(self).layouts == old(self).layouts,
            final(self).clients.elements@ == rotated(old(self).clients.elements@, direction),
            final(self).clients.focused == old(self).clients.focused,
    {
        let ghost elems = self.clients.elements@;
        self.clients.rotate(direction);
        proof {
            assert forall|x: Xid| self.clients.elements@.to_multiset().count(x) <= 1 by {
                elems.lemma_multiset_has_no_duplicates();
            }
            self.clients.elements@.lemma_multiset_has_no_duplicates_conv();
        }
    }

    /// One more client in the main area of the active layout, or one fewer.
    pub fn update_max_main(&mut self, change: Change)
        requires
            old(self).wf(),
            change == Change::More ==> old(self).active_layout().max_main < u32::MAX,
        ensures
            final(self).wf(),
            final(self).name == old(self).name,
            final(self).clients == old(self).clients,
            final(self).layouts.focused == old(self).layouts.focused,
            final(self).layouts.elements@ == old(self).layouts.elements@.update(
                old(self).layouts.focused as int,
                Layout {
                    max_main: match change {
                        Change::More => (old(self).active_layout().max_main + 1) as u32,
                        Change::Less => if old(self).active_layout().max_main > 0 {
                            (old(self).active_layout().max_main - 1) as u32
                        } else {
                            0
                        },
                    },
                    ..old(self).active_layout()
                },
            ),
    {
        let l = self.layouts.focused_mut_unchecked();
        l.update_max_main(change);
    }

    /// The clients of this workspace split for arranging: those to lay out, in stack
    /// order, and the IDs of those that float.
    pub fn split_floating<'a>(&self, clients: &'a Clients) -> (r: (Vec<&'a Client>, Vec<Xid>))
        requires
            forall|i: int| 0 <= i < self.clients.elements@.len() ==> clients.inner@.contains_key(#[trigger] self.clients.elements@[i]),
        ensures
            ({
                let ids = self.clients.elements@;
                let tiled = ids.filter(|id: Xid| !clients.inner@[id].floating);
                let floating = ids.filter(|id: Xid| clients.inner@[id].floating);
                &&& r.0@.map_values(|c: &Client| *c) == tiled.map_values(|id: Xid| clients.inner@[id])
                &&& r.1@ == floating
            }),
    {
        let ghost ids = self.clients.elements@;
        let ghost m = clients.inner@;
        let mut tiled: Vec<&Client> = Vec::new();
        let mut floating: Vec<Xid> = Vec::new();
        let mut i: usize = 0;
        while i < self.clients.elements.len()
            invariant
                ids == self.clients.elements@,
                m == clients.inner@,
                forall|j: int| 0 <= j < ids.len() ==> m.contains_key(#[trigger] ids[j]),
                i <= ids.len(),
                tiled@.map_values(|c: &Client| *c) == ids.take(i as int).filter(|id: Xid| !m[id].floating).map_values(|id: Xid| m[id]),
                floating@ == ids.take(i as int).filter(|id: Xid| m[id].floating),
            decreases ids.len() - i,
        {
            let id = self.clients.elements[i];
            let c = clients.get(id).unwrap();
            proof {
                reveal(Seq::filter);
                assert(ids.take(i + 1).drop_last() == ids.take(i as int));
                assert(ids.take(i + 1).last() == id);
                assert(*c == m[id]);
            }
            let ghost before_t = tiled@;
            let ghost before_f = floating@;
            if c.floating {
                floating.push(id);
            } else {
                tiled.push(c);
                assert(tiled@.map_values(|c: &Client| *c) =~= before_t.map_values(|c: &Client| *c).push(m[id]));
                assert(ids.take(i + 1).filter(|id: Xid| !m[id].floating) == ids.take(i as int).filter(|id: Xid| !m[id].floating).push(id));
                assert(ids.take(i + 1).filter(|id: Xid| !m[id].floating).map_values(|id: Xid| m[id]) =~= ids.take(i as int).filter(|id: Xid| !m[id].floating).map_values(|id: Xid| m[id]).push(m[id]));
            }
            i = i + 1;
        }
        assert(ids.take(ids.len() as int) == ids);
        (tiled, floating)
    }
}

/// Where `id` is among distinct IDs.
pub proof fn lemma_position_of_distinct(ids: Seq<Xid>, id: Xid)
    requires
        ids.no_duplicates(),
    ensures
        ids.contains(id) ==> (position(ids, id) matches Some(i) && 0 <= i < ids.len() && ids[i] == id
            && forall|j: int| 0 <= j < ids.len() && ids[j] == id ==> j == i),
        !ids.contains(id) ==> position(ids, id) is None,
{
}

/// Inserting an ID that is not there into distinct IDs keeps them distinct.
proof fn lemma_insert_new_keeps_distinct(before: Seq<Xid>, after: Seq<Xid>, id: Xid)
    requires
        before.no_duplicates(),
        !before.contains(id),
        after.to_multiset() == before.to_multiset().insert(id),
    ensures
        after.no_duplicates(),
{
    broadcast use vstd::seq_lib::group_to_multiset_ensures, vstd::multiset::group_multiset_axioms;

    before.lemma_multiset_has_no_duplicates();
    assert forall|x: Xid| after.to_multiset().count(x) <= 1 by {
        if x == id {
            assert(before.to_multiset().count(id) == 0);
        }
    }
    after.lemma_multiset_has_no_duplicates_conv();
}

} // verus!

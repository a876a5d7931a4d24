//! State and management of clients being managed by Penrose.
use vstd::prelude::*;

use std::collections::hash_map::Entry;
use std::collections::HashMap;
use vstd::std_specs::hash::spec_hash_map_iter;
use vstd::std_specs::iter::IteratorSpec;

use crate::wm::client::Client;
use crate::wm::hooks::HookName;
use crate::wm::data_types::{Region, ResizeAction};
use crate::wm::layout::LayoutConf;
use crate::wm::manager::util::{pad_region, padded, padding_fits};
use crate::wm::workspace::ArrangeActions;
use crate::wm::manager::event::EventAction;
use crate::wm::manager::state::WmStep;
use crate::wm::ring::{no_match, SelectorCondition, Selector};
use crate::wm::xconnection::Xid;

verus! {

broadcast use vstd::std_specs::hash::group_hash_axioms;

/// A color as 0xRRGGBB.
pub type Color = u32;

/// The known clients, keyed by window ID, and which of them has focus.
#[derive(Debug)]
pub struct Clients {
    /// Every client being tracked
    pub inner: HashMap<Xid, Client>,
    /// The client that currently has focus, if any
    pub focused_client_id: Option<Xid>,
    /// The border color of the focused client
    pub focused_border: Color,
    /// The border color of unfocused clients
    pub unfocused_border: Color,
}

/// The client tracked under `id`, if any.
pub open spec fn client_of(m: Map<Xid, Client>, id: Option<Xid>) -> Option<Client> {
    match id {
        Some(i) => if m.contains_key(i) {
            Some(m[i])
        } else {
            None
        },
        None => None,
    }
}

/// `s` lists every client of `m` once, with its ID, in some order, and nothing else.
pub open spec fn lists_all(m: Map<Xid, Client>, s: Seq<(Xid, &Client)>) -> bool {
    &&& s.len() == m.dom().len()
    &&& forall|i: int| 0 <= i < s.len() ==> m.contains_key(#[trigger] s[i].0) && m[s[i].0] == *s[i].1
    &&& forall|k: Xid| m.contains_key(k) ==> exists|i: int| 0 <= i < s.len() && #[trigger] s[i].0 == k
    &&& forall|i: int, j: int| 0 <= i < j < s.len() ==> s[i].0 != s[j].0
}

/// The clients of `s` are ordered by window ID.
pub open spec fn sorted_by_id(s: Seq<&Client>) -> bool {
    forall|i: int, j: int| 0 <= i < j < s.len() ==> s[i].id <= s[j].id
}

/// The clients of a listing, without their IDs.
pub open spec fn listed_clients(s: Seq<(Xid, &Client)>) -> Seq<&Client> {
    s.map_values(|p: (Xid, &Client)| p.1)
}

/// The elements of `s` whose flag in `keep` is set, in order.
pub open spec fn kept<A>(s: Seq<A>, keep: Seq<bool>) -> Seq<A>
    decreases s.len(),
{
    if s.len() == 0 {
        Seq::empty()
    } else {
        let rest = kept(s.drop_last(), keep.take(s.len() - 1));
        if keep[s.len() - 1] {
            rest.push(s.last())
        } else {
            rest
        }
    }
}

/// `keep` holds an answer that `f` can give for each client of `s`.
pub open spec fn answers_for(f: &dyn SelectorCondition<Client>, s: Seq<&Client>, keep: Seq<bool>) -> bool {
    &&& keep.len() == s.len()
    &&& forall|i: int| 0 <= i < s.len() ==> f.post(*s[i], #[trigger] keep[i])
}

/// The condition of `s`, if it has one, can be evaluated on every client of `m`.
pub open spec fn condition_callable(s: &Selector<Client>, m: Map<Xid, Client>) -> bool {
    match s {
        Selector::Condition(f) => forall|k: Xid| m.contains_key(k) ==> f.pre(#[trigger] m[k]),
        _ => true,
    }
}

/// The client a reference points to, if any.
pub open spec fn deref_client(r: Option<&Client>) -> Option<Client> {
    match r {
        Some(c) => Some(*c),
        None => None,
    }
}

/// `m` tracks the client `c` under some ID.
pub open spec fn tracks(m: Map<Xid, Client>, c: Client) -> bool {
    exists|k: Xid| m.contains_key(k) && #[trigger] m[k] == c
}

/// The client tracked under `id` is one that `sel` picks out, given the focused ID.
pub open spec fn picks(sel: &Selector<Client>, m: Map<Xid, Client>, focused: Option<Xid>, id: Xid) -> bool {
    match sel {
        Selector::Focused | Selector::Any => focused == Some(id),
        Selector::WinId(w) => *w == id,
        Selector::Condition(f) => f.post(m[id], true),
        Selector::Index(i) => *i < m.dom().len(),
    }
}

/// `sel` picks out none of the clients of `m`, given the focused ID.
pub open spec fn picks_none(sel: &Selector<Client>, m: Map<Xid, Client>, focused: Option<Xid>) -> bool {
    match sel {
        Selector::Focused | Selector::Any => client_of(m, focused) is None,
        Selector::WinId(w) => !m.contains_key(*w),
        Selector::Condition(f) => forall|k: Xid| m.contains_key(k) ==> f.post(#[trigger] m[k], false),
        Selector::Index(i) => *i >= m.dom().len(),
    }
}

/// What a single-client lookup through `sel` gives back.
pub open spec fn single_lookup(sel: &Selector<Client>, m: Map<Xid, Client>, focused: Option<Xid>, r: Option<Client>) -> bool {
    match r {
        Some(c) => match sel {
            Selector::Focused | Selector::Any => client_of(m, focused) == Some(c),
            Selector::WinId(w) => client_of(m, Some(*w)) == Some(c),
            Selector::Condition(f) => tracks(m, c) && f.post(c, true),
            Selector::Index(i) => tracks(m, c) && *i < m.dom().len(),
        },
        None => picks_none(sel, m, focused),
    }
}

/// The clients a multi-client lookup through `sel` gives back, before sorting:
/// `r` holds the same clients, counted with multiplicity.
pub open spec fn multi_lookup(sel: &Selector<Client>, m: Map<Xid, Client>, focused: Option<Xid>, r: Seq<&Client>) -> bool {
    match sel {
        Selector::Any => exists|e: Seq<(Xid, &Client)>|
            #![trigger lists_all(m, e)]
            lists_all(m, e) && r.to_multiset() == listed_clients(e).to_multiset(),
        Selector::Condition(f) => exists|e: Seq<(Xid, &Client)>, keep: Seq<bool>|
            #![trigger lists_all(m, e), answers_for(*f, listed_clients(e), keep)]
            lists_all(m, e) && answers_for(*f, listed_clients(e), keep)
                && r.to_multiset() == kept(listed_clients(e), keep).to_multiset(),
        _ => match (if r.len() == 1 { Some(*r[0]) } else { None }) {
            Some(c) => single_lookup(sel, m, focused, Some(c)),
            None => r.len() == 0 && single_lookup(sel, m, focused, None),
        },
    }
}

/// Get a mutable reference to the client tracked under `id`.
fn lookup_mut(m: &mut HashMap<Xid, Client>, id: Xid) -> (r: Option<&mut Client>)
    ensures
        match r {
            Some(c) => old(m)@.contains_key(id) && *c == old(m)@[id] && final(m)@ == old(
                m,
            )@.insert(id, *final(c)),
            None => !old(m)@.contains_key(id) && final(m)@ == old(m)@,
        },
{
    match m.entry(id) {
        Entry::Occupied(o) => Some(o.into_mut()),
        Entry::Vacant(_) => {
            assert(old(m)@.remove(id) =~= old(m)@);
            None
        },
    }
}

/// The steps for one client `i` of the workspace when the client `id` is switched
/// out of fullscreen (`currently` set) or into it, filling `region`.
pub open spec fn fullscreen_step(i: Xid, id: Xid, currently: bool, region: Region) -> Seq<WmStep> {
    if currently {
        if i == id {
            seq![]
        } else {
            seq![WmStep::MapIfNeeded(i)]
        }
    } else if i == id {
        seq![WmStep::PositionClient(id, region, 0), WmStep::MapIfNeeded(id)]
    } else {
        seq![WmStep::UnmapIfNeeded(i)]
    }
}

/// The steps for each client of the workspace, in order.
pub open spec fn fullscreen_steps(ids: Seq<Xid>, id: Xid, currently: bool, region: Region) -> Seq<WmStep>
    decreases ids.len(),
{
    if ids.len() == 0 {
        seq![]
    } else {
        fullscreen_steps(ids.drop_last(), id, currently, region) + fullscreen_step(
            ids.last(),
            id,
            currently,
            region,
        )
    }
}

/// The steps for one tiled client of a layout: place it (padded for the gap and the
/// border) and show it, or hide it when it has no region.
pub open spec fn arrange_step(a: ResizeAction, gapless: bool, gap_px: u32, border_px: u32) -> Seq<WmStep> {
    match a.1 {
        Some(r) => seq![
            WmStep::PositionClient(a.0, padded(r, gapless, gap_px, border_px), border_px),
            WmStep::MapIfNeeded(a.0),
        ],
        None => seq![WmStep::UnmapIfNeeded(a.0)],
    }
}

/// The steps for each tiled client of a layout, in order.
pub open spec fn arrange_steps(actions: Seq<ResizeAction>, gapless: bool, gap_px: u32, border_px: u32) -> Seq<WmStep>
    decreases actions.len(),
{
    if actions.len() == 0 {
        seq![]
    } else {
        arrange_steps(actions.drop_last(), gapless, gap_px, border_px) + arrange_step(
            actions.last(),
            gapless,
            gap_px,
            border_px,
        )
    }
}

/// Stacking each floating client above the tiled ones.
pub open spec fn raise_steps(ids: Seq<Xid>) -> Seq<WmStep> {
    ids.map_values(|id: Xid| WmStep::RaiseClient(id))
}

impl Clients {
    /// Start tracking no clients, with the given border colors.
    pub fn new(focused_border: Color, unfocused_border: Color) -> (r: Self)
        ensures
            r.inner@ == Map::<Xid, Client>::empty(),
            r.focused_client_id is None,
            r.focused_border == focused_border,
            r.unfocused_border == unfocused_border,
    {
        Self {
            inner: HashMap::new(),
            focused_client_id: None,
            focused_border,
            unfocused_border,
        }
    }

    /// Whether a client is tracked under `id`.
    pub fn is_known(&self, id: Xid) -> (r: bool)
        ensures
            r == self.inner@.contains_key(id),
    {
        self.inner.contains_key(&id)
    }

    /// The ID of the focused client, if any.
    pub fn focused_client_id(&self) -> (r: Option<Xid>)
        ensures
            r == self.focused_client_id,
    {
        self.focused_client_id
    }

    /// The focused client, if there is one and it is tracked.
    pub fn focused_client(&self) -> (r: Option<&Client>)
        ensures
            match client_of(self.inner@, self.focused_client_id) {
                Some(c) => r == Some(&c),
                None => r is None,
            },
    {
        match self.focused_client_id {
            Some(id) => self.inner.get(&id),
            None => None,
        }
    }

    /// A mutable reference to the focused client, if there is one and it is tracked.
    pub fn focused_client_mut(&mut self) -> (r: Option<&mut Client>)
        ensures
            final(self).focused_client_id == old(self).focused_client_id,
            final(self).focused_border == old(self).focused_border,
            final(self).unfocused_border == old(self).unfocused_border,
            match r {
                Some(c) => client_of(old(self).inner@, old(self).focused_client_id) == Some(*c)
                    && final(self).inner@ == old(self).inner@.insert(
                    old(self).focused_client_id->0,
                    *final(c),
                ),
                None => client_of(old(self).inner@, old(self).focused_client_id) is None
                    && final(self).inner@ == old(self).inner@,
            },
    {
        match self.focused_client_id {
            Some(id) => lookup_mut(&mut self.inner, id),
            None => None,
        }
    }

    /// Every tracked client with its ID, in the map's iteration order.
    fn entries(&self) -> (r: Vec<(Xid, &Client)>)
        ensures
            lists_all(self.inner@, r@),
    {
        let mut out: Vec<(Xid, &Client)> = Vec::new();
        let iter = self.inner.iter();
        let ghost v = iter.remaining();
        assert(v.no_duplicates());
        for kv in it: iter
            invariant
                it.seq() == v,
                v == spec_hash_map_iter(&self.inner).remaining(),
                out@.len() == it.index(),
                forall|i: int| 0 <= i < it.index() ==> #[trigger] out@[i] == (*v[i].0, v[i].1),
        {
            let (k, c) = kv;
            out.push((*k, c));
        }
        proof {
            let m = self.inner@;
            let s = out@;
            assert(out@.len() == v.len());
            assert forall|i: int| 0 <= i < s.len() implies m.contains_key(#[trigger] s[i].0)
                && m[s[i].0] == *s[i].1 by {
                assert(out@[i] == (*v[i].0, v[i].1));
            }
            assert forall|k: Xid| m.contains_key(k) implies exists|i: int|
                0 <= i < s.len() && #[trigger] s[i].0 == k by {
                assert(v.contains((&k, &m[k])));
                let i = choose|i: int| 0 <= i < v.len() && v[i] == (&k, &m[k]);
                assert(out@[i] == (*v[i].0, v[i].1));
                assert(s[i].0 == k);
            }
            assert forall|i: int, j: int| 0 <= i < j < s.len() implies s[i].0 != s[j].0 by {
                assert(out@[i] == (*v[i].0, v[i].1));
                assert(out@[j] == (*v[j].0, v[j].1));
                if s[i].0 == s[j].0 {
                    assert(m.contains_key(*v[i].0) && m[*v[i].0] == *v[i].1);
                    assert(m.contains_key(*v[j].0) && m[*v[j].0] == *v[j].1);
                    assert(v[i] == v[j]);
                }
            }
        }
        out
    }

    /// The first tracked client, in the map's iteration order, that `f` accepts.
    fn first_matching(&self, f: &dyn SelectorCondition<Client>) -> (r: Option<(Xid, &Client)>)
        requires
            forall|k: Xid| self.inner@.contains_key(k) ==> f.pre(#[trigger] self.inner@[k]),
        ensures
            match r {
                Some((k, c)) => self.inner@.contains_key(k) && self.inner@[k] == *c && f.post(*c, true),
                None => forall|k: Xid| self.inner@.contains_key(k) ==> f.post(#[trigger] self.inner@[k], false),
            },
    {
        let es = self.entries();
        let mut i: usize = 0;
        while i < es.len()
            invariant
                lists_all(self.inner@, es@),
                i <= es.len(),
                forall|k: Xid| self.inner@.contains_key(k) ==> f.pre(#[trigger] self.inner@[k]),
                forall|j: int| 0 <= j < i ==> f.post(*#[trigger] es@[j].1, false),
            decreases es.len() - i,
        {
            let (k, c) = es[i];
            assert(self.inner@.contains_key(es@[i as int].0));
            if f.holds(c) {
                return Some((k, c));
            }
            i = i + 1;
        }
        proof {
            assert forall|k: Xid| self.inner@.contains_key(k) implies f.post(#[trigger] self.inner@[k], false) by {
                let j = choose|j: int| 0 <= j < es@.len() && #[trigger] es@[j].0 == k;
                assert(f.post(*es@[j].1, false));
            }
        }
        None
    }

    /// Select a single client.
    ///
    /// `Focused` and `Any` give the focused client, `WinId` the client with that ID,
    /// `Condition` some client that the condition accepts and `Index` the client at that
    /// position in the (unordered) iteration of the known clients.
    pub fn client(&self, selector: &Selector<'_, Client>) -> (r: Option<&Client>)
        requires
            condition_callable(selector, self.inner@),
        ensures
            single_lookup(selector, self.inner@, self.focused_client_id, deref_client(r)),
    {
        match selector {
            Selector::Focused | Selector::Any => self.focused_client(),
            Selector::WinId(id) => self.inner.get(id),
            Selector::Condition(f) => match self.first_matching(*f) {
                Some((_, c)) => Some(c),
                None => None,
            },
            Selector::Index(i) => {
                let es = self.entries();
                if *i < es.len() {
                    let (_, c) = es[*i];
                    assert(self.inner@.contains_key(es@[*i as int].0));
                    Some(c)
                } else {
                    None
                }
            },
        }
    }

    /// The ID under which the client that `selector` picks is tracked; see
    /// [Clients::client].
    pub fn key_of(&self, selector: &Selector<'_, Client>) -> (r: Option<Xid>)
        requires
            condition_callable(selector, self.inner@),
        ensures
            match r {
                Some(id) => self.inner@.contains_key(id) && picks(selector, self.inner@, self.focused_client_id, id),
                None => picks_none(selector, self.inner@, self.focused_client_id),
            },
    {
        match selector {
            Selector::Focused | Selector::Any => match self.focused_client_id {
                Some(id) => if self.inner.contains_key(&id) {
                    Some(id)
                } else {
                    None
                },
                None => None,
            },
            Selector::WinId(id) => if self.inner.contains_key(id) {
                Some(*id)
            } else {
                None
            },
            Selector::Condition(f) => match self.first_matching(*f) {
                Some((k, _)) => Some(k),
                None => None,
            },
            Selector::Index(i) => {
                let es = self.entries();
                if *i < es.len() {
                    let (k, _) = es[*i];
                    assert(self.inner@.contains_key(es@[*i as int].0));
                    Some(k)
                } else {
                    None
                }
            },
        }
    }

    /// Select a single client for modification; see [Clients::client].
    pub fn client_mut(&mut self, selector: &Selector<'_, Client>) -> (r: Option<&mut Client>)
        requires
            condition_callable(selector, old(self).inner@),
        ensures
            final(self).focused_client_id == old(self).focused_client_id,
            final(self).focused_border == old(self).focused_border,
            final(self).unfocused_border == old(self).unfocused_border,
            match r {
                Some(c) => exists|id: Xid|
                    #![trigger old(self).inner@[id]]
                    old(self).inner@.contains_key(id) && *c == old(self).inner@[id]
                        && picks(selector, old(self).inner@, old(self).focused_client_id, id)
                        && final(self).inner@ == old(self).inner@.insert(id, *final(c)),
                None => final(self).inner@ == old(self).inner@
                    && picks_none(selector, old(self).inner@, old(self).focused_client_id),
            },
    {
        let key: Option<Xid> = match selector {
            Selector::Focused | Selector::Any => self.focused_client_id,
            Selector::WinId(id) => Some(*id),
            Selector::Condition(f) => match self.first_matching(*f) {
                Some((k, _)) => Some(k),
                None => None,
            },
            Selector::Index(i) => {
                let es = self.entries();
                if *i < es.len() {
                    let (k, _) = es[*i];
                    Some(k)
                } else {
                    None
                }
            },
        };
        match key {
            Some(id) => lookup_mut(&mut self.inner, id),
            None => None,
        }
    }

    /// All clients that match `selector`, ordered by window ID.
    ///
    /// `Any` gives every client, `Condition` every client that the condition accepts, and
    /// the other selectors at most the one client that [Clients::client] gives.
    pub fn matching_clients(&self, selector: &Selector<'_, Client>) -> (r: Vec<&Client>)
        requires
            condition_callable(selector, self.inner@),
        ensures
            sorted_by_id(r@),
            multi_lookup(selector, self.inner@, self.focused_client_id, r@),
    {
        let picked: Vec<&Client> = match selector {
            Selector::Any => {
                let es = self.entries();
                let v = clients_of(&es);
                assert(lists_all(self.inner@, es@));
                v
            },
            Selector::Condition(f) => {
                let es = self.entries();
                let (v, keep) = self.filter_entries(&es, *f);
                assert(lists_all(self.inner@, es@) && answers_for(*f, listed_clients(es@), keep@));
                v
            },
            _ => {
                let mut v: Vec<&Client> = Vec::new();
                match self.client(selector) {
                    Some(c) => v.push(c),
                    None => {},
                }
                v
            },
        };
        let sorted = sort_by_id(picked);
        proof {
            match selector {
                Selector::Any | Selector::Condition(_) => {},
                _ => {
                    assert(sorted@.len() == picked@.len()) by {
                        picked@.to_multiset_ensures();
                        sorted@.to_multiset_ensures();
                    }
                    if picked@.len() == 1 {
                        assert(sorted@.to_multiset().count(picked@[0]) == 1) by {
                            picked@.to_multiset_ensures();
                            assert(picked@ == seq![picked@[0]]);
                            assert(picked@.to_multiset().count(picked@[0]) == 1) by {
                                broadcast use vstd::seq_lib::group_to_multiset_ensures;
                                assert(seq![picked@[0]] == Seq::<&Client>::empty().push(picked@[0]));
                            }
                        }
                        sorted@.to_multiset_ensures();
                        assert(sorted@.contains(picked@[0]));
                    }
                },
            }
        }
        sorted
    }

    /// The tracked clients of a listing, flagged by what `f` answers for each.
    fn filter_entries<'a>(&self, es: &Vec<(Xid, &'a Client)>, f: &dyn SelectorCondition<Client>) -> (r: (Vec<&'a Client>, Ghost<Seq<bool>>))
        requires
            lists_all(self.inner@, es@),
            forall|k: Xid| self.inner@.contains_key(k) ==> f.pre(#[trigger] self.inner@[k]),
        ensures
            answers_for(f, listed_clients(es@), r.1@),
            r.0@ == kept(listed_clients(es@), r.1@),
    {
        let mut out: Vec<&Client> = Vec::new();
        let ghost mut keep: Seq<bool> = Seq::empty();
        let ghost all = listed_clients(es@);
        let mut i: usize = 0;
        while i < es.len()
            invariant
                lists_all(self.inner@, es@),
                all == listed_clients(es@),
                forall|k: Xid| self.inner@.contains_key(k) ==> f.pre(#[trigger] self.inner@[k]),
                i <= es.len(),
                keep.len() == i,
                forall|j: int| 0 <= j < i ==> f.post(*all[j], #[trigger] keep[j]),
                out@ == kept(all.take(i as int), keep),
            decreases es.len() - i,
        {
            let (_, c) = es[i];
            assert(self.inner@.contains_key(es@[i as int].0));
            let b = f.holds(c);
            proof {
                let t = all.take(i + 1);
                assert(t.drop_last() == all.take(i as int));
                assert(keep.push(b).take(i as int) == keep);
                keep = keep.push(b);
            }
            if b {
                out.push(c);
            }
            i = i + 1;
        }
        assert(all.take(es@.len() as int) == all);
        (out, Ghost(keep))
    }
}

/// The clients of a listing, in order.
fn clients_of<'a>(es: &Vec<(Xid, &'a Client)>) -> (r: Vec<&'a Client>)
    ensures
        r@ == listed_clients(es@),
{
    let mut out: Vec<&Client> = Vec::new();
    let mut i: usize = 0;
    while i < es.len()
        invariant
            i <= es.len(),
            out@ == listed_clients(es@).take(i as int),
        decreases es.len() - i,
    {
        let (_, c) = es[i];
        out.push(c);
        assert(listed_clients(es@).take(i + 1) == listed_clients(es@).take(i as int).push(c));
        i = i + 1;
    }
    assert(listed_clients(es@).take(es@.len() as int) == listed_clients(es@));
    out
}

/// Order clients by window ID, keeping every one of them.
fn sort_by_id<'a>(v: Vec<&'a Client>) -> (r: Vec<&'a Client>)
    ensures
        sorted_by_id(r@),
        r@.to_multiset() == v@.to_multiset(),
{
    broadcast use vstd::seq_lib::group_to_multiset_ensures;
    let mut out: Vec<&Client> = Vec::new();
    let mut i: usize = 0;
    while i < v.len()
        invariant
            i <= v.len(),
            sorted_by_id(out@),
            out@.to_multiset() == v@.take(i as int).to_multiset(),
        decreases v.len() - i,
    {
        let x = v[i];
        let mut p: usize = 0;
        while p < out.len() && out[p].id <= x.id
            invariant
                p <= out.len(),
                forall|j: int| 0 <= j < p ==> out@[j].id <= x.id,
            decreases out.len() - p,
        {
            p = p + 1;
        }
        proof {
            assert forall|j: int| p <= j < out@.len() implies out@[j].id > x.id by {
                assert(out@[p as int].id > x.id);
            }
            vstd::seq_lib::to_multiset_insert(out@, p as int, x);
            assert(v@.take(i + 1) == v@.take(i as int).push(x));
            vstd::seq_lib::to_multiset_build(v@.take(i as int), x);
        }
        out.insert(p, x);
        i = i + 1;
    }
    assert(v@.take(v@.len() as int) == v@);
    out
}

impl Clients {
    /// Give focus to `id`, returning the previously focused ID.
    ///
    /// When the previous ID differs from `id`, that client has lost focus: a caller
    /// that draws borders hands it to [Clients::client_lost_focus].
    pub fn set_focused(&mut self, id: Xid) -> (prev: Option<Xid>)
        ensures
            prev == old(self).focused_client_id,
            final(self).focused_client_id == Some(id),
            final(self).inner@ == old(self).inner@,
            final(self).focused_border == old(self).focused_border,
            final(self).unfocused_border == old(self).unfocused_border,
    {
        let prev = self.focused_client_id;
        self.focused_client_id = Some(id);
        prev
    }

    /// Forget which client has focus.
    pub fn clear_focused(&mut self)
        ensures
            *final(self) == (Clients { focused_client_id: None, ..*old(self) }),
    {
        self.focused_client_id = None
    }

    /// Track `c` under `id`, returning the client that was tracked there before.
    pub fn insert(&mut self, id: Xid, c: Client) -> (prev: Option<Client>)
        ensures
            final(self).inner@ == old(self).inner@.insert(id, c),
            prev == client_of(old(self).inner@, Some(id)),
            final(self).focused_client_id == old(self).focused_client_id,
            final(self).focused_border == old(self).focused_border,
            final(self).unfocused_border == old(self).unfocused_border,
    {
        self.inner.insert(id, c)
    }

    /// Stop tracking `id`, clearing the focus if it was focused.
    pub fn remove(&mut self, id: Xid) -> (prev: Option<Client>)
        ensures
            final(self).inner@ == old(self).inner@.remove(id),
            prev == client_of(old(self).inner@, Some(id)),
            final(self).focused_client_id == (if old(self).focused_client_id == Some(id) {
                None
            } else {
                old(self).focused_client_id
            }),
            final(self).focused_border == old(self).focused_border,
            final(self).unfocused_border == old(self).unfocused_border,
    {
        if self.focused_client_id == Some(id) {
            self.focused_client_id = None;
        }
        self.inner.remove(&id)
    }

    /// The client tracked under `id`.
    pub fn get(&self, id: Xid) -> (r: Option<&Client>)
        ensures
            deref_client(r) == client_of(self.inner@, Some(id)),
    {
        self.inner.get(&id)
    }

    /// The client tracked under `id`, for modification.
    pub fn get_mut(&mut self, id: Xid) -> (r: Option<&mut Client>)
        ensures
            final(self).focused_client_id == old(self).focused_client_id,
            final(self).focused_border == old(self).focused_border,
            final(self).unfocused_border == old(self).unfocused_border,
            match r {
                Some(c) => old(self).inner@.contains_key(id) && *c == old(self).inner@[id]
                    && final(self).inner@ == old(self).inner@.insert(id, *final(c)),
                None => !old(self).inner@.contains_key(id) && final(self).inner@ == old(self).inner@,
            },
    {
        lookup_mut(&mut self.inner, id)
    }

    /// Record that the client tracked under `id`, if any, is on workspace `wix`.
    pub fn set_client_workspace(&mut self, id: Xid, wix: usize)
        ensures
            final(self).inner@ == (if old(self).inner@.contains_key(id) {
                old(self).inner@.insert(id, Client { workspace: wix, ..old(self).inner@[id] })
            } else {
                old(self).inner@
            }),
            final(self).focused_client_id == old(self).focused_client_id,
            final(self).focused_border == old(self).focused_border,
            final(self).unfocused_border == old(self).unfocused_border,
    {
        match lookup_mut(&mut self.inner, id) {
            Some(c) => c.set_workspace(wix),
            None => {},
        }
    }

    /// The index of the workspace holding the client tracked under `id`.
    ///
    /// This is None for windows that are not managed (docks, toolbars, or clients that a
    /// hook has taken ownership of).
    pub fn workspace_index_for_client(&self, id: Xid) -> (r: Option<usize>)
        ensures
            r == (match client_of(self.inner@, Some(id)) {
                Some(c) => Some(c.workspace),
                None => None,
            }),
    {
        match self.inner.get(&id) {
            Some(c) => Some(c.workspace()),
            None => None,
        }
    }

    /// The clients on workspace `wix`, ordered by window ID.
    pub fn clients_for_workspace(&self, wix: usize) -> (r: Vec<&Client>)
        ensures
            sorted_by_id(r@),
            exists|e: Seq<(Xid, &Client)>|
                #![trigger lists_all(self.inner@, e)]
                lists_all(self.inner@, e) && r@.to_multiset() == listed_clients(e).filter(
                    |c: &Client| c.workspace == wix,
                ).to_multiset(),
    {
        let es = self.entries();
        let mut picked: Vec<&Client> = Vec::new();
        let mut i: usize = 0;
        let ghost all = listed_clients(es@);
        while i < es.len()
            invariant
                i <= es.len(),
                all == listed_clients(es@),
                picked@ == all.take(i as int).filter(|c: &Client| c.workspace == wix),
            decreases es.len() - i,
        {
            let (_, c) = es[i];
            proof {
                reveal(Seq::filter);
                assert(all.take(i + 1).drop_last() == all.take(i as int));
                assert(all.take(i + 1).last() == c);
            }
            if c.workspace == wix {
                picked.push(c);
            }
            i = i + 1;
        }
        assert(all.take(es@.len() as int) == all);
        assert(lists_all(self.inner@, es@));
        sort_by_id(picked)
    }

    /// The IDs of every tracked client, in the map's iteration order.
    pub fn all_known_ids(&self) -> (r: Vec<Xid>)
        ensures
            r@.to_set() == self.inner@.dom(),
            r@.no_duplicates(),
    {
        let es = self.entries();
        let mut ids: Vec<Xid> = Vec::new();
        let mut i: usize = 0;
        while i < es.len()
            invariant
                i <= es.len(),
                lists_all(self.inner@, es@),
                ids@.len() == i,
                forall|j: int| 0 <= j < i ==> #[trigger] ids@[j] == es@[j].0,
            decreases es.len() - i,
        {
            let (k, _) = es[i];
            ids.push(k);
            i = i + 1;
        }
        proof {
            let m = self.inner@;
            assert forall|k: Xid| ids@.to_set().contains(k) <==> m.dom().contains(k) by {
                if m.dom().contains(k) {
                    let j = choose|j: int| 0 <= j < es@.len() && #[trigger] es@[j].0 == k;
                    assert(ids@[j] == k);
                }
                if ids@.to_set().contains(k) {
                    let j = choose|j: int| 0 <= j < ids@.len() && ids@[j] == k;
                    assert(es@[j].0 == k);
                }
            }
            assert(ids@.to_set() =~= m.dom());
            assert forall|a: int, b: int| 0 <= a < ids@.len() && 0 <= b < ids@.len() && a != b implies ids@[a] != ids@[b] by {
                if a < b {
                    assert(es@[a].0 != es@[b].0);
                } else {
                    assert(es@[b].0 != es@[a].0);
                }
            }
        }
        ids
    }

    /// Apply `f` to the client tracked under `id`, if there is one.
    pub fn modify<F: Fn(&mut Client)>(&mut self, id: Xid, f: F)
        requires
            forall|c: &mut Client| call_requires(f, (c,)),
        ensures
            final(self).focused_client_id == old(self).focused_client_id,
            final(self).focused_border == old(self).focused_border,
            final(self).unfocused_border == old(self).unfocused_border,
            final(self).inner@.dom() == old(self).inner@.dom(),
            forall|k: Xid| k != id && old(self).inner@.contains_key(k) ==> #[trigger] final(self).inner@[k] == old(self).inner@[k],
            !old(self).inner@.contains_key(id) ==> final(self).inner@ == old(self).inner@,
            old(self).inner@.contains_key(id) ==> exists|c: &mut Client|
                #![trigger call_ensures(f, (c,), ())]
                *c == old(self).inner@[id] && call_ensures(f, (c,), ()) && final(self).inner@ == old(
                    self,
                ).inner@.insert(id, *final(c)),
    {
        match lookup_mut(&mut self.inner, id) {
            Some(c) => f(c),
            None => {},
        }
    }

    /// Record that `id` lost focus according to the X server: if it was focused,
    /// nothing is focused any more.
    ///
    /// Returns whether `id` is a tracked client, whose border should then be drawn in
    /// the unfocused color (the window may have lost focus because it has just been
    /// closed and is not tracked any more).
    pub fn client_lost_focus(&mut self, id: Xid) -> (recolor: bool)
        ensures
            final(self).focused_client_id == (if old(self).focused_client_id == Some(id) {
                None
            } else {
                old(self).focused_client_id
            }),
            final(self).inner@ == old(self).inner@,
            final(self).focused_border == old(self).focused_border,
            final(self).unfocused_border == old(self).unfocused_border,
            recolor == old(self).inner@.contains_key(id),
    {
        if self.focused_client_id == Some(id) {
            self.focused_client_id = None;
        }
        self.inner.contains_key(&id)
    }

    /// The EWMH name of window `id` is now `name`: record it on the client unless
    /// `id` is the root window, and ask for the name-change hook to run.
    pub fn client_name_changed(&mut self, id: Xid, is_root: bool, name: String) -> (r: EventAction)
        ensures
            r == EventAction::RunHook(HookName::ClientNameUpdated(id, name, is_root)),
            final(self).focused_client_id == old(self).focused_client_id,
            final(self).focused_border == old(self).focused_border,
            final(self).unfocused_border == old(self).unfocused_border,
            if !is_root && old(self).inner@.contains_key(id) {
                &&& final(self).inner@ == old(self).inner@.insert(
                    id,
                    Client { wm_name: final(self).inner@[id].wm_name, ..old(self).inner@[id] },
                )
                &&& final(self).inner@[id].wm_name@ == name@
            } else {
                final(self).inner@ == old(self).inner@
            },
    {
        if !is_root {
            match lookup_mut(&mut self.inner, id) {
                Some(c) => {
                    c.set_name(name.as_str());
                    proof {
                        assert(c.wm_name@ == name@);
                    }
                },
                None => {},
            }
        }
        EventAction::RunHook(HookName::ClientNameUpdated(id, name, is_root))
    }

    /// Mark the client tracked under `id` as mapped, returning the window to map on
    /// the X server: the client's own ID when it is tracked and was not mapped yet.
    pub fn map_if_needed(&mut self, id: Xid) -> (r: Option<Xid>)
        ensures
            r == (if old(self).inner@.contains_key(id) && !old(self).inner@[id].mapped {
                Some(old(self).inner@[id].id)
            } else {
                None
            }),
            final(self).inner@ == (if r is Some {
                old(self).inner@.insert(id, Client { mapped: true, ..old(self).inner@[id] })
            } else {
                old(self).inner@
            }),
            final(self).focused_client_id == old(self).focused_client_id,
            final(self).focused_border == old(self).focused_border,
            final(self).unfocused_border == old(self).unfocused_border,
    {
        match lookup_mut(&mut self.inner, id) {
            Some(c) => {
                if !c.mapped {
                    c.mapped = true;
                    Some(c.id)
                } else {
                    proof {
                        assert(old(self).inner@.insert(id, old(self).inner@[id]) =~= old(self).inner@);
                    }
                    None
                }
            },
            None => None,
        }
    }

    /// Mark the client tracked under `id` as unmapped, returning the window to unmap
    /// on the X server: the client's own ID when it is tracked and was mapped.
    pub fn unmap_if_needed(&mut self, id: Xid) -> (r: Option<Xid>)
        ensures
            r == (if old(self).inner@.contains_key(id) && old(self).inner@[id].mapped {
                Some(old(self).inner@[id].id)
            } else {
                None
            }),
            final(self).inner@ == (if r is Some {
                old(self).inner@.insert(id, Client { mapped: false, ..old(self).inner@[id] })
            } else {
                old(self).inner@
            }),
            final(self).focused_client_id == old(self).focused_client_id,
            final(self).focused_border == old(self).focused_border,
            final(self).unfocused_border == old(self).unfocused_border,
    {
        match lookup_mut(&mut self.inner, id) {
            Some(c) => {
                if c.mapped {
                    c.mapped = false;
                    Some(c.id)
                } else {
                    proof {
                        assert(old(self).inner@.insert(id, old(self).inner@[id]) =~= old(self).inner@);
                    }
                    None
                }
            },
            None => None,
        }
    }

    /// Switch the tracked client `id` into fullscreen or out of it, given the clients
    /// of its workspace `wix` (in order) and the region of the screen showing it.
    ///
    /// Going fullscreen, the client fills the screen and the other clients of the
    /// workspace are hidden; leaving it, they are shown again and the workspace is laid
    /// out. The client's flag changes when it is one of `workspace_clients`. Nothing
    /// happens for a window that is not tracked.
    pub fn toggle_fullscreen(&mut self, id: Xid, wix: usize, workspace_clients: &[Xid], screen_size: Region) -> (r: Vec<WmStep>)
        ensures
            final(self).focused_client_id == old(self).focused_client_id,
            final(self).focused_border == old(self).focused_border,
            final(self).unfocused_border == old(self).unfocused_border,
            ({
                let m = old(self).inner@;
                let ids = workspace_clients@;
                if m.contains_key(id) {
                    let cur = m[id].fullscreen;
                    &&& r@ == seq![WmStep::ToggleFullscreen(id, cur)] + fullscreen_steps(ids, id, cur, screen_size)
                        + (if cur {
                        seq![WmStep::Event(EventAction::LayoutWorkspace(wix))]
                    } else {
                        seq![]
                    })
                    &&& final(self).inner@ == (if ids.contains(id) {
                        m.insert(id, Client { fullscreen: !cur, ..m[id] })
                    } else {
                        m
                    })
                } else {
                    r@.len() == 0 && final(self).inner@ == m
                }
            }),
    {
        let ghost m = self.inner@;
        let ghost ids = workspace_clients@;
        let cur = match self.inner.get(&id) {
            Some(c) => c.fullscreen,
            None => {
                return Vec::new();
            },
        };
        let mut steps: Vec<WmStep> = Vec::new();
        steps.push(WmStep::ToggleFullscreen(id, cur));
        let mut k: usize = 0;
        while k < workspace_clients.len()
            invariant
                k <= ids.len(),
                ids == workspace_clients@,
                m.contains_key(id),
                cur == m[id].fullscreen,
                self.focused_client_id == old(self).focused_client_id,
                self.focused_border == old(self).focused_border,
                self.unfocused_border == old(self).unfocused_border,
                steps@ == seq![WmStep::ToggleFullscreen(id, cur)] + fullscreen_steps(ids.take(k as int), id, cur, screen_size),
                self.inner@ == (if ids.take(k as int).contains(id) {
                    m.insert(id, Client { fullscreen: !cur, ..m[id] })
                } else {
                    m
                }),
            decreases ids.len() - k,
        {
            let i = workspace_clients[k];
            proof {
                assert(ids.take(k + 1).drop_last() =~= ids.take(k as int));
                assert(ids.take(k + 1).last() == i);
                assert(ids.take(k + 1) =~= ids.take(k as int).push(i));
            }
            if i == id {
                if !cur {
                    steps.push(WmStep::PositionClient(id, screen_size, 0));
                    steps.push(WmStep::MapIfNeeded(id));
                }
                match lookup_mut(&mut self.inner, id) {
                    Some(c) => {
                        c.fullscreen = !cur;
                    },
                    None => {},
                }
                proof {
                    assert(ids.take(k + 1).contains(id)) by {
                        assert(ids.take(k + 1)[k as int] == id);
                    }
                    assert(self.inner@ =~= m.insert(id, Client { fullscreen: !cur, ..m[id] }));
                }
            } else {
                if cur {
                    steps.push(WmStep::MapIfNeeded(i));
                } else {
                    steps.push(WmStep::UnmapIfNeeded(i));
                }
                proof {
                    assert(ids.take(k + 1).contains(id) == ids.take(k as int).contains(id)) by {
                        if ids.take(k + 1).contains(id) {
                            let q = choose|q: int| 0 <= q < k + 1 && #[trigger] ids.take(k + 1)[q] == id;
                            assert(q < k);
                            assert(ids.take(k as int)[q] == id);
                        }
                        if ids.take(k as int).contains(id) {
                            let q = choose|q: int| 0 <= q < k && #[trigger] ids.take(k as int)[q] == id;
                            assert(ids.take(k + 1)[q] == id);
                        }
                    }
                }
            }
            k = k + 1;
        }
        assert(ids.take(k as int) =~= ids);
        if cur {
            steps.push(WmStep::Event(EventAction::LayoutWorkspace(wix)));
        }
        steps
    }

    /// The steps that carry out a layout: each tiled client is placed in its region,
    /// padded for the gap (unless the layout is gapless) and the border, and shown, or
    /// hidden when it has no region; then the floating clients are stacked above.
    /// (Showing and hiding go through [Clients::map_if_needed] and
    /// [Clients::unmap_if_needed] when the steps are carried out.)
    pub fn apply_arrange_actions(&self, actions: ArrangeActions, lc: &LayoutConf, border_px: u32, gap_px: u32) -> (r:
        Vec<WmStep>)
        requires
            forall|i: int|
                0 <= i < actions.actions@.len() ==> ((#[trigger] actions.actions@[i]).1 matches Some(reg)
                    ==> padding_fits(reg, lc.gapless, gap_px, border_px)),
        ensures
            r@ == arrange_steps(actions.actions@, lc.gapless, gap_px, border_px) + raise_steps(
                actions.floating@,
            ),
    {
        let ghost acts = actions.actions@;
        let mut steps: Vec<WmStep> = Vec::new();
        let mut i: usize = 0;
        while i < actions.actions.len()
            invariant
                i <= acts.len(),
                acts == actions.actions@,
                forall|j: int|
                    0 <= j < acts.len() ==> ((#[trigger] acts[j]).1 matches Some(reg) ==> padding_fits(
                        reg,
                        lc.gapless,
                        gap_px,
                        border_px,
                    )),
                steps@ == arrange_steps(acts.take(i as int), lc.gapless, gap_px, border_px),
            decreases acts.len() - i,
        {
            let (id, region) = actions.actions[i];
            proof {
                assert(acts.take(i + 1).drop_last() =~= acts.take(i as int));
                assert(acts.take(i + 1).last() == acts[i as int]);
            }
            match region {
                Some(reg) => {
                    let padded_reg = pad_region(&reg, lc.gapless, gap_px, border_px);
                    steps.push(WmStep::PositionClient(id, padded_reg, border_px));
                    steps.push(WmStep::MapIfNeeded(id));
                },
                None => {
                    steps.push(WmStep::UnmapIfNeeded(id));
                },
            }
            i = i + 1;
        }
        assert(acts.take(i as int) =~= acts);
        let ghost tiled = steps@;
        let mut k: usize = 0;
        while k < actions.floating.len()
            invariant
                k <= actions.floating@.len(),
                steps@ == tiled + raise_steps(actions.floating@.take(k as int)),
            decreases actions.floating@.len() - k,
        {
            steps.push(WmStep::RaiseClient(actions.floating[k]));
            proof {
                assert(raise_steps(actions.floating@.take(k + 1)) =~= raise_steps(actions.floating@.take(k as int)).push(
                    WmStep::RaiseClient(actions.floating@[k as int]),
                ));
            }
            k = k + 1;
        }
        assert(actions.floating@.take(k as int) =~= actions.floating@);
        steps
    }
}

} // verus!

//! Management of the set of workspaces.
use vstd::prelude::*;
use vstd::string::StringExecFns;

use crate::wm::data_types::Change;
use crate::wm::hooks::HookName;
use crate::wm::key_text::same_text;
use crate::wm::layout::Layout;
use crate::wm::manager::event::EventAction;
use crate::wm::ring::{
    dragged, element_result, inserted, insert_point_ok, next_index, remove_ok, removed, rotated,
    selector_callable, Direction, InsertPoint, Ring, Selector,
};
use crate::wm::workspace::{position, Workspace};
use crate::wm::xconnection::Xid;
use crate::{decimal_string, decimal_text, PenroseError};

verus! {

/// Layouts `a` and `b` agree in every field.
pub open spec fn same_layout(a: Layout, b: Layout) -> bool {
    a.conf == b.conf && a.symbol@ == b.symbol@ && a.max_main == b.max_main
}

/// Workspaces `a` and `b` agree in every field: the same name, the same clients in
/// the same order with the same focus, and the same layouts with the same focus.
pub open spec fn same_workspace(a: Workspace, b: Workspace) -> bool {
    &&& a.name@ == b.name@
    &&& a.clients.elements@ == b.clients.elements@
    &&& a.clients.focused == b.clients.focused
    &&& a.layouts.elements@.len() == b.layouts.elements@.len()
    &&& forall|i: int|
        0 <= i < a.layouts.elements@.len() ==> same_layout(
            #[trigger] a.layouts.elements@[i],
            b.layouts.elements@[i],
        )
    &&& a.layouts.focused == b.layouts.focused
}

/// Whether `a` and `b` agree in every field; see [same_workspace].
fn workspaces_equal(a: &Workspace, b: &Workspace) -> (r: bool)
    ensures
        r == same_workspace(*a, *b),
{
    if !same_text(a.name.as_str(), b.name.as_str()) || a.clients.focused != b.clients.focused
        || a.layouts.focused != b.layouts.focused {
        return false;
    }
    let ca = &a.clients.elements;
    let cb = &b.clients.elements;
    if ca.len() != cb.len() {
        return false;
    }
    let mut i: usize = 0;
    while i < ca.len()
        invariant
            ca@ == a.clients.elements@,
            cb@ == b.clients.elements@,
            ca@.len() == cb@.len(),
            i <= ca@.len(),
            forall|j: int| 0 <= j < i ==> ca@[j] == cb@[j],
        decreases ca@.len() - i,
    {
        if ca[i] != cb[i] {
            assert(ca@[i as int] != cb@[i as int]);
            return false;
        }
        i = i + 1;
    }
    assert(ca@ =~= cb@);
    let la = &a.layouts.elements;
    let lb = &b.layouts.elements;
    if la.len() != lb.len() {
        return false;
    }
    let mut k: usize = 0;
    while k < la.len()
        invariant
            la@ == a.layouts.elements@,
            lb@ == b.layouts.elements@,
            a.name@ == b.name@,
            a.clients.elements@ == b.clients.elements@,
            a.clients.focused == b.clients.focused,
            a.layouts.focused == b.layouts.focused,
            la@.len() == lb@.len(),
            k <= la@.len(),
            forall|j: int| 0 <= j < k ==> same_layout(#[trigger] la@[j], lb@[j]),
        decreases la@.len() - k,
    {
        if !(la[k].conf == lb[k].conf) || la[k].max_main != lb[k].max_main || !same_text(
            la[k].symbol.as_str(),
            lb[k].symbol.as_str(),
        ) {
            assert(!same_layout(la@[k as int], lb@[k as int]));
            assert(!same_workspace(*a, *b));
            return false;
        }
        k = k + 1;
    }
    true
}

/// What [Workspaces::would_focus] answers for the index `ix` and `selector`, on the
/// workspaces `elems` with focus `focused`: whether the workspace at `ix` and the one
/// that `selector` picks are both there and agree in every field.
pub open spec fn would_focus_result(elems: Seq<Workspace>, focused: int, ix: usize, selector: &Selector<Workspace>, r: bool) -> bool {
    exists|b: Option<Workspace>|
        #![trigger element_result(selector, elems, focused, b)]
        element_result(selector, elems, focused, b) && r == (ix < elems.len() && b is Some && same_workspace(
            elems[ix as int],
            b->0,
        ))
}

/// Every workspace is well formed.
pub open spec fn all_wf(ws: Seq<Workspace>) -> bool {
    forall|i: int| 0 <= i < ws.len() ==> #[trigger] ws[i].wf()
}

/// The index of the first workspace holding the client `id`, if any.
pub open spec fn holding(ws: Seq<Workspace>, id: Xid) -> Option<int>
    decreases ws.len(),
{
    if ws.len() == 0 {
        None
    } else {
        match holding(ws.drop_last(), id) {
            Some(i) => Some(i),
            None => if ws.last().clients.elements@.contains(id) {
                Some(ws.len() - 1)
            } else {
                None
            },
        }
    }
}

/// The workspace at `wix` of `after` is `changed`, and the others are those of `before`.
pub open spec fn changed_at(before: Seq<Workspace>, after: Seq<Workspace>, wix: int, changed: spec_fn(Workspace, Workspace) -> bool) -> bool {
    if 0 <= wix < before.len() {
        &&& after.len() == before.len()
        &&& forall|j: int| 0 <= j < before.len() && j != wix ==> after[j] == before[j]
        &&& changed(before[wix], after[wix])
    } else {
        after == before
    }
}

/// Workspace `b` is `a` with the client focus cycled in `direction`, and `r` the
/// previously and newly focused clients; nothing moves with fewer than two clients, or
/// when the focus would wrap and the active layout does not allow that.
pub open spec fn client_cycled(a: Workspace, b: Workspace, direction: Direction, r: Option<(Xid, Xid)>) -> bool {
    let elems = a.clients.elements@;
    let f = a.clients.focused as int;
    let wraps = (f == 0 && direction == Direction::Backward) || (f == elems.len() - 1 && direction
        == Direction::Forward);
    &&& b.name == a.name
    &&& b.layouts == a.layouts
    &&& b.clients.elements@ == elems
    &&& if elems.len() < 2 || (!a.active_layout().conf.allow_wrapping && wraps) {
        r is None && b.clients.focused == a.clients.focused
    } else {
        let g = next_index(f, elems.len() as int, direction);
        b.clients.focused == g && r == Some((elems[f], elems[g]))
    }
}

/// Workspace `b` is `a` with its focused client dragged in `direction`, keeping the
/// focus on it; nothing moves when there is no client, or when the drag would wrap
/// and the active layout does not allow that.
pub open spec fn client_dragged(a: Workspace, b: Workspace, direction: Direction) -> bool {
    let elems = a.clients.elements@;
    let f = a.clients.focused as int;
    let wraps = elems.len() > 0 && ((f == 0 && direction == Direction::Backward) || (f == elems.len()
        - 1 && direction == Direction::Forward));
    &&& b.name == a.name
    &&& b.layouts == a.layouts
    &&& if elems.len() == 0 || (!a.active_layout().conf.allow_wrapping && wraps) {
        b.clients == a.clients
    } else {
        b.clients.elements@ == dragged(elems, f, direction) && b.clients.focused == next_index(
            f,
            elems.len() as int,
            direction,
        )
    }
}

/// The workspaces being managed, with the one in use focused.
#[derive(Debug)]
pub struct Workspaces {
    /// The workspaces, with the active one focused
    pub inner: Ring<Workspace>,
    /// The index of the previously active workspace
    pub previous_workspace: usize,
    /// Where new clients are added on a workspace
    pub client_insert_point: InsertPoint,
}

/// Whether `ids` holds `id`.
pub(crate) fn contains_id(ids: &Vec<Xid>, id: Xid) -> (r: bool)
    ensures
        r == ids@.contains(id),
{
    let mut i: usize = 0;
    while i < ids.len()
        invariant
            i <= ids@.len(),
            forall|j: int| 0 <= j < i ==> ids@[j] != id,
        decreases ids@.len() - i,
    {
        if ids[i] == id {
            assert(ids@[i as int] == id);
            return true;
        }
        i = i + 1;
    }
    false
}

impl Workspaces {
    /// Every workspace is well formed.
    pub open spec fn wf(&self) -> bool {
        all_wf(self.inner.elements@)
    }

    /// Manage `workspaces`, the first of them active, adding new clients first.
    pub fn new(workspaces: Vec<Workspace>) -> (r: Self)
        ensures
            r.inner.elements@ == workspaces@,
            r.inner.focused == 0,
            r.previous_workspace == 0,
            r.client_insert_point == InsertPoint::First,
    {
        Self { inner: Ring::new(workspaces), previous_workspace: 0, client_insert_point: InsertPoint::First }
    }

    /// The workspace at `ix`, or an error when there is none.
    pub fn get_workspace(&self, ix: usize) -> (r: Result<&Workspace, PenroseError>)
        ensures
            ix < self.inner.elements@.len() ==> (r matches Ok(w) && *w == self.inner.elements@[ix as int]),
            ix >= self.inner.elements@.len() ==> (r matches Err(PenroseError::Raw(m)) && m@ == "unknown workspace: "@
                + decimal_text(ix as nat)),
    {
        match self.inner.get(ix) {
            Some(w) => Ok(w),
            None => Err(PenroseError::Raw("unknown workspace: ".to_owned().concat(decimal_string(ix).as_str()))),
        }
    }

    /// The index of the first workspace holding the client `id`, if any.
    fn index_holding(&self, id: Xid) -> (r: Option<usize>)
        ensures
            match r {
                Some(k) => holding(self.inner.elements@, id) == Some(k as int) && k < self.inner.elements@.len(),
                None => holding(self.inner.elements@, id) is None,
            },
    {
        let ghost ws = self.inner.elements@;
        let mut i: usize = 0;
        assert(ws.take(0) =~= Seq::<Workspace>::empty());
        while i < self.inner.elements.len()
            invariant
                ws == self.inner.elements@,
                i <= ws.len(),
                holding(ws.take(i as int), id) is None,
            decreases ws.len() - i,
        {
            proof {
                assert(ws.take(i + 1).drop_last() == ws.take(i as int));
                assert(ws.take(i + 1).last() == ws[i as int]);
            }
            if contains_id(&self.inner.elements[i].clients.elements, id) {
                proof {
                    lemma_holding_stays(ws, i + 1, id);
                }
                return Some(i);
            }
            i = i + 1;
        }
        assert(ws.take(i as int) == ws);
        None
    }

    /// The workspace selected by `selector`: for `WinId`, the first workspace holding
    /// that client.
    pub fn workspace(&self, selector: &Selector<'_, Workspace>) -> (r: Option<&Workspace>)
        requires
            selector_callable(selector, self.inner.elements@),
        ensures
            match selector {
                Selector::WinId(id) => match holding(self.inner.elements@, *id) {
                    Some(i) => r == Some(&self.inner.elements@[i]),
                    None => r is None,
                },
                _ => element_result(
                    selector,
                    self.inner.elements@,
                    self.inner.focused as int,
                    match r {
                        Some(w) => Some(*w),
                        None => None,
                    },
                ),
            },
    {
        match selector {
            Selector::WinId(id) => match self.index_holding(*id) {
                Some(i) => {
                    Some(&self.inner.elements[i])
                },
                None => None,
            },
            _ => self.inner.element(selector),
        }
    }

    /// Whether the workspace at index `ix` and the one that `selector` picks out are
    /// both there and compare equal.
    pub fn would_focus(&self, ix: usize, selector: &Selector<'_, Workspace>) -> (r: bool)
        requires
            selector_callable(selector, self.inner.elements@),
        ensures
            would_focus_result(self.inner.elements@, self.inner.focused as int, ix, selector, r),
    {
        let picked = self.inner.element(selector);
        let ghost b = match picked {
            Some(w) => Some(*w),
            None => None,
        };
        let r = match (self.inner.get(ix), picked) {
            (Some(a), Some(w)) => workspaces_equal(a, w),
            _ => false,
        };
        assert(element_result(selector, self.inner.elements@, self.inner.focused as int, b));
        assert(would_focus_result(self.inner.elements@, self.inner.focused as int, ix, selector, r));
        r
    }

    /// The workspace selected by `selector`, for modification; see [Workspaces::workspace].
    pub fn workspace_mut(&mut self, selector: &Selector<'_, Workspace>) -> (r: Option<&mut Workspace>)
        requires
            selector_callable(selector, old(self).inner.elements@),
        ensures
            final(self).inner.focused == old(self).inner.focused,
            final(self).previous_workspace == old(self).previous_workspace,
            final(self).client_insert_point == old(self).client_insert_point,
            match r {
                Some(w) => exists|i: int|
                    #![trigger old(self).inner.elements@[i]]
                    0 <= i < old(self).inner.elements@.len() && *w == old(self).inner.elements@[i]
                        && final(self).inner.elements@ == old(self).inner.elements@.update(i, *final(w))
                        && match selector {
                            Selector::WinId(id) => holding(old(self).inner.elements@, *id) == Some(i),
                            _ => crate::wm::ring::index_result(selector, old(self).inner.elements@, old(self).inner.focused as int, Some(i as usize)),
                        },
                None => final(self).inner.elements@ == old(self).inner.elements@ && match selector {
                    Selector::WinId(id) => holding(old(self).inner.elements@, *id) is None,
                    _ => element_result(selector, old(self).inner.elements@, old(self).inner.focused as int, None),
                },
            },
    {
        match selector {
            Selector::WinId(id) => match self.index_holding(*id) {
                Some(i) => {
                    let r = self.inner.get_mut(i);
                    assert(old(self).inner.elements@[i as int] == old(self).inner.elements@[i as int]);
                    r
                },
                None => None,
            },
            _ => self.inner.element_mut(selector),
        }
    }

    /// The workspaces selected by `selector`: for `WinId`, the first workspace holding
    /// that client, if any.
    pub fn matching_workspaces(&self, selector: &Selector<'_, Workspace>) -> (r: Vec<&Workspace>)
        requires
            selector_callable(selector, self.inner.elements@),
        ensures
            match selector {
                Selector::WinId(id) => match holding(self.inner.elements@, *id) {
                    Some(i) => r@.len() == 1 && *r@[0] == self.inner.elements@[i],
                    None => r@.len() == 0,
                },
                Selector::Any => r@.len() == self.inner.elements@.len() && forall|i: int|
                    0 <= i < r@.len() ==> *r@[i] == self.inner.elements@[i],
                Selector::Condition(f) => exists|keep: Seq<bool>|
                    crate::wm::ring::answers(*f, self.inner.elements@, keep) && r@.map_values(|e: &Workspace| *e)
                        == crate::wm::ring::select_by(self.inner.elements@, keep),
                _ => match crate::wm::ring::plain_index(selector, self.inner.focused as int, self.inner.elements@.len() as int) {
                    Some(i) => match crate::wm::ring::lookup(self.inner.elements@, i) {
                        Some(e) => r@.len() == 1 && *r@[0] == e,
                        None => r@.len() == 0,
                    },
                    None => r@.len() == 0,
                },
            },
    {
        match selector {
            Selector::WinId(id) => {
                let mut out: Vec<&Workspace> = Vec::new();
                match self.index_holding(*id) {
                    Some(i) => out.push(&self.inner.elements[i]),
                    None => {},
                }
                out
            },
            _ => self.inner.all_elements(selector),
        }
    }

    /// The names of the workspaces, in order.
    pub fn workspace_names(&self) -> (r: Vec<String>)
        ensures
            r@.len() == self.inner.elements@.len(),
            forall|i: int| 0 <= i < r@.len() ==> #[trigger] r@[i]@ == self.inner.elements@[i].name@,
    {
        let mut out: Vec<String> = Vec::new();
        let mut i: usize = 0;
        while i < self.inner.elements.len()
            invariant
                i <= self.inner.elements@.len(),
                out@.len() == i,
                forall|j: int| 0 <= j < i ==> #[trigger] out@[j]@ == self.inner.elements@[j].name@,
            decreases self.inner.elements@.len() - i,
        {
            out.push(self.inner.elements[i].name().to_owned());
            i = i + 1;
        }
        out
    }

    /// Rename the workspace at `wix`, if there is one.
    pub fn set_workspace_name(&mut self, name: String, wix: usize)
        ensures
            final(self).inner.focused == old(self).inner.focused,
            final(self).previous_workspace == old(self).previous_workspace,
            final(self).client_insert_point == old(self).client_insert_point,
            changed_at(
                old(self).inner.elements@,
                final(self).inner.elements@,
                wix as int,
                |a: Workspace, b: Workspace| b == (Workspace { name, ..a }),
            ),
    {
        match self.inner.get_mut(wix) {
            Some(w) => w.set_name(name),
            None => {},
        }
    }

    /// The number of workspaces.
    pub fn len(&self) -> (r: usize)
        ensures
            r == self.inner.elements@.len(),
    {
        self.inner.len()
    }

    /// Add the client `id` to the workspace at `wix` at the client insert point, asking
    /// for the hook that announces it. There is nothing to do without such a workspace,
    /// and a client already on the workspace is an error.
    pub fn add_client(&mut self, wix: usize, id: Xid) -> (r: Result<Option<EventAction>, PenroseError>)
        requires
            old(self).wf(),
            wix < old(self).inner.elements@.len() ==> insert_point_ok(
                old(self).client_insert_point,
                old(self).inner.elements@[wix as int].clients.focused as int,
                old(self).inner.elements@[wix as int].clients.elements@.len() as int,
            ),
        ensures
            final(self).wf(),
            final(self).inner.focused == old(self).inner.focused,
            final(self).previous_workspace == old(self).previous_workspace,
            final(self).client_insert_point == old(self).client_insert_point,
            wix >= old(self).inner.elements@.len() ==> (r matches Ok(None) && final(self).inner.elements@
                == old(self).inner.elements@),
            wix < old(self).inner.elements@.len() ==> {
                let w = old(self).inner.elements@[wix as int];
                if w.clients.elements@.contains(id) {
                    (r matches Err(PenroseError::Raw(m)) && m@ == decimal_text(id as nat)
                        + " is already in this workspace"@) && final(self).inner.elements@ == old(self).inner.elements@
                } else {
                    &&& r == Ok::<Option<EventAction>, PenroseError>(
                        Some(EventAction::RunHook(HookName::ClientAddedToWorkspace(id, wix))),
                    )
                    &&& final(self).inner.elements@.len() == old(self).inner.elements@.len()
                    &&& forall|j: int| 0 <= j < old(self).inner.elements@.len() && j != wix ==> #[trigger] final(self).inner.elements@[j] == old(self).inner.elements@[j]
                    &&& final(self).inner.elements@[wix as int].clients.elements@ == inserted(
                        w.clients.elements@,
                        w.clients.focused as int,
                        old(self).client_insert_point,
                        id,
                    )
                    &&& final(self).inner.elements@[wix as int].name == w.name
                    &&& final(self).inner.elements@[wix as int].layouts == w.layouts
                    &&& (final(self).inner.elements@[wix as int].clients.focused == w.clients.focused
                        || w.clients.elements@.len() == 0)
                }
            },
    {
        let cip = self.client_insert_point;
        let ghost ws0 = self.inner.elements@;
        match self.inner.get_mut(wix) {
            Some(w) => {
                proof {
                    assert(ws0[wix as int].wf());
                }
                match w.add_client(id, &cip) {
                    Ok(()) => {
                        proof {
                            assert(all_wf(self.inner.elements@)) by {
                                assert forall|j: int| 0 <= j < self.inner.elements@.len() implies #[trigger] self.inner.elements@[j].wf() by {
                                    if j != wix {
                                        assert(self.inner.elements@[j] == ws0[j]);
                                    }
                                }
                            }
                        }
                        Ok(Some(EventAction::RunHook(HookName::ClientAddedToWorkspace(id, wix))))
                    },
                    Err(e) => {
                        proof {
                            assert(self.inner.elements@ =~= ws0);
                        }
                        Err(e)
                    },
                }
            },
            None => Ok(None),
        }
    }

    /// Focus the client `id` on the workspace at `wix`, if there is one, returning
    /// whether that workspace is to be laid out again: its layout follows the focus and
    /// `prev`, the client that had the focus before, is on it.
    pub fn focus_client_on(&mut self, wix: usize, id: Xid, prev: Option<Xid>) -> (relayout: bool)
        requires
            old(self).wf(),
        ensures
            final(self).wf(),
            final(self).inner.focused == old(self).inner.focused,
            final(self).previous_workspace == old(self).previous_workspace,
            final(self).client_insert_point == old(self).client_insert_point,
            ({
                let ws = old(self).inner.elements@;
                if wix < ws.len() {
                    let w = ws[wix as int];
                    let w2 = final(self).inner.elements@[wix as int];
                    &&& final(self).inner.elements@ == ws.update(wix as int, w2)
                    &&& w2.name == w.name
                    &&& w2.layouts == w.layouts
                    &&& w2.clients.elements@ == w.clients.elements@
                    &&& w2.clients.focused == match position(w.clients.elements@, id) {
                        Some(i) => i,
                        None => w.clients.focused as int,
                    }
                    &&& relayout == (w.active_layout().conf.follow_focus && (prev matches Some(p)
                        && w.clients.elements@.contains(p)))
                } else {
                    final(self).inner.elements@ == ws && !relayout
                }
            }),
    {
        let ghost ws0 = self.inner.elements@;
        match self.inner.get_mut(wix) {
            Some(w) => {
                proof {
                    assert(ws0[wix as int].wf());
                }
                let _ = w.focus_client(id);
                let in_ws = match prev {
                    Some(p) => contains_id(&w.clients.elements, p),
                    None => false,
                };
                let follow = w.layout_conf().follow_focus;
                proof {
                    assert forall|j: int| 0 <= j < self.inner.elements@.len() implies #[trigger] self.inner.elements@[j].wf() by {
                        if j != wix {
                            assert(self.inner.elements@[j] == ws0[j]);
                        }
                    }
                }
                follow && in_ws
            },
            None => false,
        }
    }

    /// Remove the client `id` from the workspace at `wix`, if both are there.
    pub fn remove_client(&mut self, wix: usize, id: Xid)
        requires
            old(self).wf(),
        ensures
            final(self).wf(),
            final(self).inner.focused == old(self).inner.focused,
            final(self).previous_workspace == old(self).previous_workspace,
            final(self).client_insert_point == old(self).client_insert_point,
            changed_at(
                old(self).inner.elements@,
                final(self).inner.elements@,
                wix as int,
                |a: Workspace, b: Workspace|
                    b.name == a.name && b.layouts == a.layouts && match position(a.clients.elements@, id) {
                        Some(i) => b.clients.elements@ == a.clients.elements@.remove(i) && b.clients.focused
                            == crate::wm::ring::clamped(a.clients.focused as int, a.clients.elements@.len() - 1),
                        None => b.clients.elements@ == a.clients.elements@ && b.clients.focused == a.clients.focused,
                    },
            ),
    {
        let ghost ws0 = self.inner.elements@;
        match self.inner.get_mut(wix) {
            Some(w) => {
                proof {
                    assert(ws0[wix as int].wf());
                }
                let _ = w.remove_client(id);
                proof {
                    assert forall|j: int| 0 <= j < self.inner.elements@.len() implies #[trigger] self.inner.elements@[j].wf() by {
                        if j != wix {
                            assert(self.inner.elements@[j] == ws0[j]);
                        }
                    }
                }
            },
            None => {},
        }
    }

    /// Insert a workspace at `ix`.
    pub fn add_workspace(&mut self, ix: usize, ws: Workspace)
        requires
            old(self).wf(),
            ws.wf(),
            ix <= old(self).inner.elements@.len(),
        ensures
            final(self).wf(),
            final(self).inner.elements@ == old(self).inner.elements@.insert(ix as int, ws),
            final(self).inner.focused == old(self).inner.focused,
            final(self).previous_workspace == old(self).previous_workspace,
            final(self).client_insert_point == old(self).client_insert_point,
    {
        self.inner.insert(ix, ws);
        proof {
            let s = self.inner.elements@;
            assert forall|j: int| 0 <= j < s.len() implies #[trigger] s[j].wf() by {
                if j < ix {
                    assert(s[j] == old(self).inner.elements@[j]);
                } else if j > ix {
                    assert(s[j] == old(self).inner.elements@[j - 1]);
                }
            }
        }
    }

    /// Add a workspace at the end.
    pub fn push_workspace(&mut self, ws: Workspace)
        requires
            old(self).wf(),
            ws.wf(),
        ensures
            final(self).wf(),
            final(self).inner.elements@ == old(self).inner.elements@.push(ws),
            final(self).inner.focused == old(self).inner.focused,
            final(self).previous_workspace == old(self).previous_workspace,
            final(self).client_insert_point == old(self).client_insert_point,
    {
        self.inner.push(ws);
        proof {
            let s = self.inner.elements@;
            assert forall|j: int| 0 <= j < s.len() implies #[trigger] s[j].wf() by {
                if j < s.len() - 1 {
                    assert(s[j] == old(self).inner.elements@[j]);
                }
            }
        }
    }

    /// Remove the workspace selected by `selector`, or report that there is none.
    pub fn remove_workspace(&mut self, selector: &Selector<'_, Workspace>) -> (r: Result<Workspace, PenroseError>)
        requires
            old(self).wf(),
            selector_callable(selector, old(self).inner.elements@),
            remove_ok(selector, old(self).inner.elements@, old(self).inner.focused as int),
        ensures
            final(self).wf(),
            final(self).previous_workspace == old(self).previous_workspace,
            final(self).client_insert_point == old(self).client_insert_point,
            exists|removed_ws: Option<Workspace>|
                #![trigger removed(selector, old(self).inner.elements@, old(self).inner.focused as int, final(self).inner.elements@, final(self).inner.focused as int, removed_ws)]
                removed(selector, old(self).inner.elements@, old(self).inner.focused as int, final(self).inner.elements@, final(self).inner.focused as int, removed_ws)
                && match removed_ws {
                    Some(w) => r == Ok::<Workspace, PenroseError>(w),
                    None => r matches Err(PenroseError::Raw(m)) && m@ == "unknown workspace"@,
                },
    {
        let ghost ws0 = self.inner.elements@;
        let out = self.inner.remove(selector);
        proof {
            let s = self.inner.elements@;
            assert forall|j: int| 0 <= j < s.len() implies #[trigger] s[j].wf() by {
                assert(s.contains(s[j]));
                if s != ws0 {
                    let i = choose|i: int| 0 <= i < ws0.len() && s == ws0.remove(i);
                    if j < i {
                        assert(s[j] == ws0[j]);
                    } else {
                        assert(s[j] == ws0[j + 1]);
                    }
                }
            }
        }
        match out {
            Some(w) => Ok(w),
            None => Err(PenroseError::Raw("unknown workspace".to_owned())),
        }
    }

    /// Set where new clients are added on a workspace.
    pub fn set_client_insert_point(&mut self, cip: InsertPoint)
        ensures
            *final(self) == (Workspaces { client_insert_point: cip, ..*old(self) }),
    {
        self.client_insert_point = cip;
    }

    /// Move the focus to the next workspace in `direction`, returning its index.
    pub fn cycle_workspace(&mut self, direction: Direction) -> (r: usize)
        requires
            old(self).inner.elements@.len() > 0,
            old(self).inner.focused < old(self).inner.elements@.len(),
        ensures
            final(self).inner.elements@ == old(self).inner.elements@,
            final(self).previous_workspace == old(self).previous_workspace,
            final(self).client_insert_point == old(self).client_insert_point,
            r == final(self).inner.focused,
            r == next_index(old(self).inner.focused as int, old(self).inner.elements@.len() as int, direction),
    {
        let _ = self.inner.cycle_focus(direction);
        self.inner.focused_index()
    }

    /// Cycle the client focus of the workspace at `wix`; see [Workspace::cycle_client].
    pub fn cycle_client(&mut self, wix: usize, direction: Direction) -> (r: Option<(Xid, Xid)>)
        requires
            old(self).wf(),
        ensures
            final(self).wf(),
            final(self).inner.focused == old(self).inner.focused,
            final(self).previous_workspace == old(self).previous_workspace,
            final(self).client_insert_point == old(self).client_insert_point,
            wix >= old(self).inner.elements@.len() ==> r is None && final(self).inner.elements@ == old(self).inner.elements@,
            wix < old(self).inner.elements@.len() ==> {
                let a = old(self).inner.elements@[wix as int];
                let b = final(self).inner.elements@[wix as int];
                &&& final(self).inner.elements@.len() == old(self).inner.elements@.len()
                &&& forall|j: int| 0 <= j < old(self).inner.elements@.len() && j != wix ==> #[trigger] final(self).inner.elements@[j] == old(self).inner.elements@[j]
                &&& client_cycled(a, b, direction, r)
            },
    {
        let ghost ws0 = self.inner.elements@;
        match self.inner.get_mut(wix) {
            Some(w) => {
                proof {
                    assert(ws0[wix as int].wf());
                }
                let r = w.cycle_client(direction);
                proof {
                    assert forall|j: int| 0 <= j < self.inner.elements@.len() implies #[trigger] self.inner.elements@[j].wf() by {
                        if j != wix {
                            assert(self.inner.elements@[j] == ws0[j]);
                        }
                    }
                }
                r
            },
            None => None,
        }
    }

    /// Drag the focused client of the workspace at `wix`; see [Workspace::drag_client].
    pub fn drag_client(&mut self, wix: usize, direction: Direction)
        requires
            old(self).wf(),
        ensures
            final(self).wf(),
            final(self).inner.focused == old(self).inner.focused,
            final(self).previous_workspace == old(self).previous_workspace,
            final(self).client_insert_point == old(self).client_insert_point,
            changed_at(
                old(self).inner.elements@,
                final(self).inner.elements@,
                wix as int,
                |a: Workspace, b: Workspace| client_dragged(a, b, direction),
            ),
    {
        let ghost ws0 = self.inner.elements@;
        match self.inner.get_mut(wix) {
            Some(w) => {
                proof {
                    assert(ws0[wix as int].wf());
                }
                let _ = w.drag_client(direction);
                proof {
                    assert forall|j: int| 0 <= j < self.inner.elements@.len() implies #[trigger] self.inner.elements@[j].wf() by {
                        if j != wix {
                            assert(self.inner.elements@[j] == ws0[j]);
                        }
                    }
                }
            },
            None => {},
        }
    }

    /// Rotate the clients of the workspace at `wix`.
    pub fn rotate_clients(&mut self, wix: usize, direction: Direction)
        requires
            old(self).wf(),
        ensures
            final(self).wf(),
            final(self).inner.focused == old(self).inner.focused,
            final(self).previous_workspace == old(self).previous_workspace,
            final(self).client_insert_point == old(self).client_insert_point,
            changed_at(
                old(self).inner.elements@,
                final(self).inner.elements@,
                wix as int,
                |a: Workspace, b: Workspace|
                    b.name == a.name && b.layouts == a.layouts && b.clients.elements@ == rotated(a.clients.elements@, direction)
                        && b.clients.focused == a.clients.focused,
            ),
    {
        let ghost ws0 = self.inner.elements@;
        match self.inner.get_mut(wix) {
            Some(w) => {
                proof {
                    assert(ws0[wix as int].wf());
                }
                w.rotate_clients(direction);
                proof {
                    assert forall|j: int| 0 <= j < self.inner.elements@.len() implies #[trigger] self.inner.elements@[j].wf() by {
                        if j != wix {
                            assert(self.inner.elements@[j] == ws0[j]);
                        }
                    }
                }
            },
            None => {},
        }
    }

    /// Cycle the layouts of the workspace at `wix`.
    pub fn cycle_layout(&mut self, wix: usize, direction: Direction)
        requires
            old(self).wf(),
        ensures
            final(self).wf(),
            final(self).inner.focused == old(self).inner.focused,
            final(self).previous_workspace == old(self).previous_workspace,
            final(self).client_insert_point == old(self).client_insert_point,
            changed_at(
                old(self).inner.elements@,
                final(self).inner.elements@,
                wix as int,
                |a: Workspace, b: Workspace|
                    b.name == a.name && b.clients == a.clients && b.layouts.elements@ == a.layouts.elements@
                        && b.layouts.focused == next_index(a.layouts.focused as int, a.layouts.elements@.len() as int, direction),
            ),
    {
        let ghost ws0 = self.inner.elements@;
        match self.inner.get_mut(wix) {
            Some(w) => {
                proof {
                    assert(ws0[wix as int].wf());
                }
                let _ = w.cycle_layout(direction);
                proof {
                    assert forall|j: int| 0 <= j < self.inner.elements@.len() implies #[trigger] self.inner.elements@[j].wf() by {
                        if j != wix {
                            assert(self.inner.elements@[j] == ws0[j]);
                        }
                    }
                }
            },
            None => {},
        }
    }

    /// One more or one fewer client in the main area of the active layout of the
    /// workspace at `wix`.
    pub fn update_max_main(&mut self, wix: usize, change: Change)
        requires
            old(self).wf(),
            wix < old(self).inner.elements@.len() && change == Change::More ==> old(self).inner.elements@[wix as int].active_layout().max_main < u32::MAX,
        ensures
            final(self).wf(),
            final(self).inner.focused == old(self).inner.focused,
            final(self).previous_workspace == old(self).previous_workspace,
            final(self).client_insert_point == old(self).client_insert_point,
            changed_at(
                old(self).inner.elements@,
                final(self).inner.elements@,
                wix as int,
                |a: Workspace, b: Workspace|
                    b.name == a.name && b.clients == a.clients && b.layouts.focused == a.layouts.focused
                        && b.layouts.elements@ == a.layouts.elements@.update(
                        a.layouts.focused as int,
                        Layout {
                            max_main: match change {
                                Change::More => (a.active_layout().max_main + 1) as u32,
                                Change::Less => if a.active_layout().max_main > 0 {
                                    (a.active_layout().max_main - 1) as u32
                                } else {
                                    0
                                },
                            },
                            ..a.active_layout()
                        },
                    ),
            ),
    {
        let ghost ws0 = self.inner.elements@;
        match self.inner.get_mut(wix) {
            Some(w) => {
                proof {
                    assert(ws0[wix as int].wf());
                }
                w.update_max_main(change);
                proof {
                    assert forall|j: int| 0 <= j < self.inner.elements@.len() implies #[trigger] self.inner.elements@[j].wf() by {
                        if j != wix {
                            assert(self.inner.elements@[j] == ws0[j]);
                        }
                    }
                }
            },
            None => {},
        }
    }

    /// The symbol of the active layout of the workspace at `wix`, or `"???"` when there
    /// is no such workspace.
    pub fn current_layout_symbol(&self, wix: usize) -> (r: &str)
        requires
            self.wf(),
        ensures
            wix < self.inner.elements@.len() ==> r@ == self.inner.elements@[wix as int].active_layout().symbol@,
            wix >= self.inner.elements@.len() ==> r@ == "???"@,
    {
        match self.inner.get(wix) {
            Some(ws) => {
                proof {
                    assert(self.inner.elements@[wix as int].wf());
                }
                ws.layout_symbol()
            },
            None => "???",
        }
    }

    /// The client IDs of the workspace at `wix`, or an error when there is none.
    pub fn client_ids(&self, wix: usize) -> (r: Result<Vec<Xid>, PenroseError>)
        ensures
            wix < self.inner.elements@.len() ==> (r matches Ok(ids) && ids@ == self.inner.elements@[wix as int].clients.elements@),
            wix >= self.inner.elements@.len() ==> (r matches Err(PenroseError::Raw(m)) && m@ == "unknown workspace: "@
                + decimal_text(wix as nat)),
    {
        match self.inner.get(wix) {
            Some(ws) => Ok(ws.client_ids()),
            None => Err(PenroseError::Raw("unknown workspace: ".to_owned().concat(decimal_string(wix).as_str()))),
        }
    }

    /// The focused client of the workspace at `ix`.
    pub fn focused_client(&self, ix: usize) -> (r: Option<Xid>)
        requires
            ix < self.inner.elements@.len(),
        ensures
            r == self.inner.elements@[ix as int].clients.spec_focused(),
    {
        self.inner.elements[ix].focused_client()
    }
}

/// Once a prefix of the workspaces holds the client, the first holder of all the
/// workspaces is in that prefix.
proof fn lemma_holding_stays(ws: Seq<Workspace>, n: int, id: Xid)
    requires
        0 <= n <= ws.len(),
        holding(ws.take(n), id) is Some,
    ensures
        holding(ws, id) == holding(ws.take(n), id),
    decreases ws.len() - n,
{
    if n < ws.len() {
        assert(ws.take(n + 1).drop_last() == ws.take(n));
        lemma_holding_stays(ws, n + 1, id);
    } else {
        assert(ws.take(n) == ws);
    }
}

} // verus!

//! The state of the window manager as a whole, and the decisions taken on it.
//!
//! Each decision updates the state and returns the steps that the window manager
//! then carries out in order: calls to the X server, laying out workspaces, and
//! running hooks.
use vstd::prelude::*;

use crate::wm::client::Client;
use crate::wm::data_types::Region;
use crate::wm::hooks::HookName;
use crate::wm::manager::clients::{
    client_of, condition_callable, deref_client, multi_lookup, sorted_by_id, fullscreen_steps, picks, picks_none, single_lookup, Clients,
};
use crate::wm::manager::event::EventAction;
use crate::wm::manager::screens::{screen_change_actions, workspaces_of, Screens};
use crate::wm::manager::workspaces::{client_cycled, client_dragged, would_focus_result, Workspaces};
use crate::wm::ring::{
    element_result, first_match, index_result, insert_point_ok, inserted, next_index, selector_callable,
    Direction, InsertPoint, Selector,
};
use crate::wm::screen::Screen;
use crate::wm::workspace::{position, Workspace};
use crate::wm::xconnection::property::WindowState;
use crate::wm::xconnection::Xid;
use crate::{decimal_text, PenroseError};

verus! {

/// A step that the window manager carries out after taking a decision.
#[derive(Debug, Clone, PartialEq, Eq)]
pub enum WmStep {
    /// Lay out the clients of the workspace at this index again
    ApplyLayout(usize),
    /// Tell the X server which workspace is current
    SetCurrentWorkspace(usize),
    /// Give the input focus to this client
    UpdateFocus(Xid),
    /// Show the window of this client if it is hidden
    MapIfNeeded(Xid),
    /// Hide the window of this client if it is shown
    UnmapIfNeeded(Xid),
    /// Map a window that the window manager does not manage
    MapWindow(Xid),
    /// Record on the X server the workspace that holds a client
    SetClientWorkspace(Xid, usize),
    /// Place a floating client inside this screen region
    PositionFloating(Xid, Region),
    /// Move and resize a client to this region, with this border width
    PositionClient(Xid, Region, u32),
    /// Stack a client above the others
    RaiseClient(Xid),
    /// Switch the fullscreen state of a client on the X server; the flag says
    /// whether it is fullscreen now
    ToggleFullscreen(Xid, bool),
    /// Mark a client as newly mapped on the X server
    MarkNewClient(Xid),
    /// Tell the X server which clients are known
    UpdateKnownClients,
    /// Move the cursor onto the focused screen: over this client, or to its middle
    WarpCursor(Option<Xid>),
    /// Give the input focus to the client, or ask it to take focus when it does not
    /// accept input; the flag says whether it accepts input
    SetXFocus(Xid, bool),
    /// Give the focus back to the root window, clear the active window and run the
    /// focus-change hook for the root window
    FocusRoot,
    /// Set the name of the root window
    SetRootWindowName(String),
    /// Ask this client to close its window
    KillClient(Xid),
    /// Carry out an event action
    Event(EventAction),
}

/// The clients, screens and workspaces that the window manager keeps track of.
#[derive(Debug)]
pub struct WmState {
    /// Every known client
    pub clients: Clients,
    /// The connected screens
    pub screens: Screens,
    /// The workspaces, each shown on at most one screen
    pub workspaces: Workspaces,
}

/// Each screen shows a workspace that exists, and no two screens show the same one.
pub open spec fn screens_ok(scr: Seq<Screen>, n_workspaces: int) -> bool {
    &&& forall|i: int| 0 <= i < scr.len() ==> #[trigger] scr[i].wix < n_workspaces
    &&& forall|i: int, j: int|
        0 <= i < scr.len() && 0 <= j < scr.len() && i != j ==> #[trigger] scr[i].wix
            != #[trigger] scr[j].wix
}

/// `s` showing workspace `wix` instead.
pub open spec fn showing(s: Screen, wix: usize) -> Screen {
    Screen { wix, ..s }
}

/// A step for each client: hide it.
pub open spec fn unmap_steps(ids: Seq<Xid>) -> Seq<WmStep> {
    ids.map_values(|id: Xid| WmStep::UnmapIfNeeded(id))
}

/// A step for each client: show it.
pub open spec fn map_steps(ids: Seq<Xid>) -> Seq<WmStep> {
    ids.map_values(|id: Xid| WmStep::MapIfNeeded(id))
}

/// Focusing the focused client of `w`, if it has one.
pub open spec fn focus_step(w: Workspace) -> Seq<WmStep> {
    match w.clients.spec_focused() {
        Some(id) => seq![WmStep::UpdateFocus(id)],
        None => seq![],
    }
}

/// Running the hook for a change of the active workspace from `from` to `to`.
pub open spec fn workspace_change(from: usize, to: usize) -> WmStep {
    WmStep::Event(EventAction::RunHook(HookName::WorkspaceChange(from, to)))
}

/// The steps for bringing workspace `index` onto the focused screen in place of
/// `active`, when another screen shows `index` and the two screens swap workspaces.
pub open spec fn swap_steps(active: usize, index: usize, target: Workspace) -> Seq<WmStep> {
    seq![WmStep::ApplyLayout(active), WmStep::ApplyLayout(index), WmStep::SetCurrentWorkspace(index)]
        + focus_step(target) + seq![workspace_change(active, index)]
}

/// The steps for bringing workspace `index` onto the focused screen in place of
/// `active`, when no screen shows `index`: the clients of `current` are hidden and
/// those of `target` shown.
pub open spec fn replace_steps(active: usize, index: usize, current: Workspace, target: Workspace) -> Seq<WmStep> {
    unmap_steps(current.clients.elements@) + map_steps(target.clients.elements@) + seq![
        WmStep::ApplyLayout(index),
        WmStep::SetCurrentWorkspace(index),
    ] + focus_step(target) + seq![workspace_change(active, index)]
}

/// Screen `j` is the first one of `scr` that shows workspace `wix`.
pub open spec fn first_showing(scr: Seq<Screen>, wix: usize, j: int) -> bool {
    &&& 0 <= j < scr.len()
    &&& scr[j].wix == wix
    &&& forall|k: int| 0 <= k < j ==> #[trigger] scr[k].wix != wix
}

/// What focusing the workspace at `idx` (when a selector picked one) does to the
/// state `before`, giving `after` and the steps `r`, where `same` says whether the
/// workspace the selector picks agrees in every field with the active one (then
/// nothing happens).
pub open spec fn focused_workspace(before: WmState, after: WmState, idx: Option<usize>, same: bool, r: Seq<WmStep>) -> bool {
    let scr = before.screens.inner.elements@;
    let f = before.screens.inner.focused as int;
    let ws = before.workspaces.inner.elements@;
    let active = scr[f].wix;
    &&& after.clients == before.clients
    &&& after.workspaces.inner.elements@ == before.workspaces.inner.elements@
    &&& after.workspaces.client_insert_point == before.workspaces.client_insert_point
    &&& after.screens.inner.focused == before.screens.inner.focused
    &&& after.screens.bar_height == before.screens.bar_height
    &&& after.screens.top_bar == before.screens.top_bar
    &&& if idx is Some && !same {
        let index = idx->0;
        &&& after.workspaces.previous_workspace == active
        &&& after.workspaces.inner.focused == index
        &&& if workspaces_of(scr).contains(index) {
            exists|j: int|
                first_showing(scr, index, j) && after.screens.inner.elements@ == scr.update(
                    j,
                    showing(scr[j], active),
                ).update(f, showing(scr[f], index)) && r == swap_steps(active, index, ws[index as int])
        } else {
            &&& after.screens.inner.elements@ == scr.update(f, showing(scr[f], index))
            &&& r == replace_steps(active, index, ws[active as int], ws[index as int])
        }
    } else {
        &&& after.screens.inner.elements@ == scr
        &&& after.workspaces.inner.focused == before.workspaces.inner.focused
        &&& after.workspaces.previous_workspace == before.workspaces.previous_workspace
        &&& r.len() == 0
    }
}

/// A client that asked to start out withdrawn.
pub open spec fn withdrawn(c: Client) -> bool {
    c.wm_hints matches Some(h) && h.initial_state == WindowState::Withdrawn
}

/// The region of screen `s`, leaving out the bar when it is shown.
pub open spec fn screen_region(s: Screen, show_bar: bool) -> Region {
    if show_bar {
        s.effective_region
    } else {
        s.true_region
    }
}

/// Placing the floating client `id` on the screen that shows workspace `wix`, if one does.
pub open spec fn place_floating(scr: Seq<Screen>, id: Xid, wix: usize, show_bar: bool) -> Seq<WmStep> {
    if workspaces_of(scr).contains(wix) {
        let j = choose|j: int| first_showing(scr, wix, j);
        seq![WmStep::PositionFloating(id, screen_region(scr[j], show_bar))]
    } else {
        seq![]
    }
}

/// The steps that make `c` (tracked under `id`) a managed client: announcing it on
/// its workspace when it was `added` there, placing it if it floats, focusing it, and
/// showing it when its workspace is the `active` one.
pub open spec fn new_client_steps(
    id: Xid,
    c: Client,
    added: bool,
    scr: Seq<Screen>,
    active: usize,
    show_bar: bool,
) -> Seq<WmStep> {
    let wix = c.workspace;
    (if added {
        seq![
            WmStep::SetClientWorkspace(id, wix),
            WmStep::Event(EventAction::RunHook(HookName::ClientAddedToWorkspace(id, wix))),
        ]
    } else {
        seq![]
    }) + (if c.floating {
        place_floating(scr, id, wix, show_bar)
    } else {
        seq![]
    }) + seq![WmStep::MarkNewClient(id), WmStep::UpdateFocus(id), WmStep::UpdateKnownClients] + (
    if wix == active {
        seq![WmStep::ApplyLayout(wix), WmStep::MapIfNeeded(id), WmStep::WarpCursor(Some(id))]
    } else {
        seq![]
    })
}

/// Two screens that both show `wix` first are the same screen.
pub proof fn lemma_first_showing_unique(scr: Seq<Screen>, wix: usize, a: int, b: int)
    requires
        first_showing(scr, wix, a),
        first_showing(scr, wix, b),
    ensures
        a == b,
{
    if a < b {
        assert(scr[a].wix != wix);
    } else if b < a {
        assert(scr[b].wix != wix);
    }
}

/// Each event action as a step.
pub open spec fn event_steps(events: Seq<EventAction>) -> Seq<WmStep> {
    events.map_values(|e: EventAction| WmStep::Event(e))
}

/// Append each of `events` to `steps` as a step.
fn push_events(steps: &mut Vec<WmStep>, events: Vec<EventAction>)
    ensures
        final(steps)@ == old(steps)@ + event_steps(events@),
{
    let ghost start = steps@;
    let ghost all = events@;
    let mut rest = events;
    while rest.len() > 0
        invariant
            all.len() >= rest@.len(),
            rest@ == all.skip(all.len() - rest@.len()),
            steps@ == start + event_steps(all.take(all.len() - rest@.len())),
        decreases rest@.len(),
    {
        let ghost done = all.len() - rest@.len();
        let e = rest.remove(0);
        steps.push(WmStep::Event(e));
        proof {
            assert(all[done] == e);
            assert(all.take(done + 1) =~= all.take(done).push(e));
            assert(event_steps(all.take(done + 1)) =~= event_steps(all.take(done)).push(WmStep::Event(e)));
            assert(rest@ =~= all.skip(done + 1));
        }
    }
    assert(all.take(all.len() as int) =~= all);
}

/// The client that focusing `id` gives the focus to: `id` itself when it is tracked,
/// else the focused client of the active workspace, if any.
pub open spec fn focus_target(s: WmState, id: Xid) -> Option<Xid> {
    if s.clients.inner@.contains_key(id) {
        Some(id)
    } else {
        s.workspaces.inner.elements@[s.active() as int].clients.spec_focused()
    }
}

/// The border of the previously focused client is drawn unfocused when the focus
/// moves to another client.
pub open spec fn lost_focus_step(prev: Option<Xid>, t: Xid) -> Seq<WmStep> {
    match prev {
        Some(p) => if p != t {
            seq![WmStep::Event(EventAction::ClientFocusLost(p))]
        } else {
            seq![]
        },
        None => seq![],
    }
}

/// The screen that gets the focus when workspace `wix` gains it: the one showing
/// `wix`, else the focused one.
pub open spec fn screen_for(scr: Seq<Screen>, f: int, wix: usize) -> int {
    if workspaces_of(scr).contains(wix) {
        choose|j: int| first_showing(scr, wix, j)
    } else {
        f
    }
}

/// Whether focusing `t` on the workspace at `wix` lays that workspace out again: its
/// layout follows the focus and the client `prev` that had the focus is on it.
pub open spec fn follows_focus(ws: Seq<Workspace>, wix: usize, prev: Option<Xid>) -> bool {
    &&& wix < ws.len()
    &&& ws[wix as int].active_layout().conf.follow_focus
    &&& prev matches Some(p) && ws[wix as int].clients.elements@.contains(p)
}

/// The steps of giving the focus to the tracked client `t`.
pub open spec fn focus_steps(before: WmState, t: Xid) -> Seq<WmStep> {
    let c = before.clients.inner@[t];
    let wix = c.workspace;
    let scr = before.screens.inner.elements@;
    let f = before.screens.inner.focused as int;
    let j = screen_for(scr, f, wix);
    lost_focus_step(before.clients.focused_client_id, t) + (if j != f {
        event_steps(screen_change_actions(wix))
    } else {
        seq![]
    }) + seq![WmStep::SetCurrentWorkspace(scr[j].wix), WmStep::SetXFocus(t, c.accepts_focus)] + (
    if follows_focus(before.workspaces.inner.elements@, wix, before.clients.focused_client_id) {
        seq![WmStep::ApplyLayout(wix)]
    } else {
        seq![]
    }) + seq![WmStep::Event(EventAction::RunHook(HookName::FocusChange(t)))]
}

/// What giving the focus to `id` does to the state `before`, giving `after`.
pub open spec fn focus_moved(before: WmState, after: WmState, id: Xid, r: Seq<WmStep>) -> bool {
    match focus_target(before, id) {
        None => {
            &&& r == seq![WmStep::FocusRoot]
            &&& after.clients == before.clients
            &&& after.screens.inner.elements@ == before.screens.inner.elements@
            &&& after.screens.inner.focused == before.screens.inner.focused
            &&& after.workspaces.inner.elements@ == before.workspaces.inner.elements@
        },
        Some(t) => {
            let wix = before.clients.inner@[t].workspace;
            let scr = before.screens.inner.elements@;
            let ws = before.workspaces.inner.elements@;
            &&& r == focus_steps(before, t)
            &&& after.clients.inner@ == before.clients.inner@
            &&& after.clients.focused_client_id == Some(t)
            &&& after.clients.focused_border == before.clients.focused_border
            &&& after.clients.unfocused_border == before.clients.unfocused_border
            &&& after.screens.inner.elements@ == scr
            &&& after.screens.inner.focused == screen_for(scr, before.screens.inner.focused as int, wix)
            &&& if wix < ws.len() {
                let w = ws[wix as int];
                let w2 = after.workspaces.inner.elements@[wix as int];
                &&& after.workspaces.inner.elements@ == ws.update(wix as int, w2)
                &&& w2.name == w.name
                &&& w2.layouts == w.layouts
                &&& w2.clients.elements@ == w.clients.elements@
                &&& w2.clients.focused == match position(w.clients.elements@, t) {
                    Some(i) => i,
                    None => w.clients.focused as int,
                }
            } else {
                after.workspaces.inner.elements@ == ws
            }
        },
    }
}

/// `b` is workspace `a` without the client `id` (unchanged when `id` is not on it).
pub open spec fn client_removed(a: Workspace, b: Workspace, id: Xid) -> bool {
    &&& b.name == a.name
    &&& b.layouts == a.layouts
    &&& match position(a.clients.elements@, id) {
        Some(i) => b.clients.elements@ == a.clients.elements@.remove(i) && b.clients.focused
            == crate::wm::ring::clamped(a.clients.focused as int, a.clients.elements@.len() - 1),
        None => b.clients.elements@ == a.clients.elements@ && b.clients.focused == a.clients.focused,
    }
}

/// `b` is workspace `a` with the client `id` added at the insert point `ip`.
pub open spec fn client_added(a: Workspace, b: Workspace, id: Xid, ip: InsertPoint) -> bool {
    &&& b.name == a.name
    &&& b.layouts == a.layouts
    &&& b.clients.elements@ == inserted(a.clients.elements@, a.clients.focused as int, ip, id)
}

/// The steps that follow moving a client `id` to the workspace at `wix` (of `n`):
/// announcing it there, then following it with the cursor when the workspace is
/// shown, else hiding it, and laying out the visible workspaces.
pub open spec fn moved_steps(id: Xid, wix: usize, n: int, scr: Seq<Screen>) -> Seq<WmStep> {
    (if wix < n {
        seq![
            WmStep::SetClientWorkspace(id, wix),
            WmStep::Event(EventAction::RunHook(HookName::ClientAddedToWorkspace(id, wix))),
        ]
    } else {
        seq![]
    }) + (if workspaces_of(scr).contains(wix) {
        seq![WmStep::WarpCursor(Some(id))]
    } else {
        seq![WmStep::UnmapIfNeeded(id)]
    }) + seq![WmStep::Event(EventAction::LayoutVisible)]
}

/// What moving the client `id` to the workspace at `wix` does to the state `before`,
/// giving `after` and the result `r`.
pub open spec fn client_moved(
    before: WmState,
    after: WmState,
    id: Xid,
    wix: usize,
    r: Result<Seq<WmStep>, PenroseError>,
) -> bool {
    let m = before.clients.inner@;
    let ws = before.workspaces.inner.elements@;
    let ws2 = after.workspaces.inner.elements@;
    &&& after.screens.inner.elements@ == before.screens.inner.elements@
    &&& after.screens.inner.focused == before.screens.inner.focused
    &&& after.workspaces.inner.focused == before.workspaces.inner.focused
    &&& after.workspaces.previous_workspace == before.workspaces.previous_workspace
    &&& after.workspaces.client_insert_point == before.workspaces.client_insert_point
    &&& after.clients.focused_client_id == before.clients.focused_client_id
    &&& after.clients.focused_border == before.clients.focused_border
    &&& after.clients.unfocused_border == before.clients.unfocused_border
    &&& if !m.contains_key(id) {
        &&& r == Err::<Seq<WmStep>, PenroseError>(PenroseError::UnknownClient(id))
        &&& after.clients.inner@ == m
        &&& ws2 == ws
    } else if m[id].workspace == wix {
        &&& r == Ok::<Seq<WmStep>, PenroseError>(seq![])
        &&& after.clients.inner@ == m
        &&& ws2 == ws
    } else {
        let current = m[id].workspace;
        let clash = wix < ws.len() && ws[wix as int].clients.elements@.contains(id);
        &&& after.clients.inner@ == m.insert(id, Client { workspace: wix, ..m[id] })
        &&& ws2.len() == ws.len()
        &&& forall|j: int| 0 <= j < ws.len() && j != current && j != wix ==> #[trigger] ws2[j] == ws[j]
        &&& current < ws.len() ==> client_removed(ws[current as int], ws2[current as int], id)
        &&& wix < ws.len() ==> if clash {
            ws2[wix as int] == ws[wix as int]
        } else {
            client_added(ws[wix as int], ws2[wix as int], id, before.workspaces.client_insert_point)
        }
        &&& if clash {
            r matches Err(PenroseError::Raw(m)) && m@ == decimal_text(id as nat) + " is already in this workspace"@
        } else {
            r == Ok::<Seq<WmStep>, PenroseError>(
                moved_steps(id, wix, ws.len() as int, before.screens.inner.elements@),
            )
        }
    }
}

/// The steps of a result, and the same error.
pub open spec fn result_steps(r: Result<Vec<WmStep>, PenroseError>) -> Result<Seq<WmStep>, PenroseError> {
    match r {
        Ok(v) => Ok(v@),
        Err(e) => Err(e),
    }
}

/// Adding a client at the client insert point is defined on every workspace.
pub open spec fn inserts_ok(w: Workspaces) -> bool {
    forall|j: int| 0 <= j < w.inner.elements@.len() ==> insert_point_ok(
        w.client_insert_point,
        #[trigger] w.inner.elements@[j].clients.focused as int,
        w.inner.elements@[j].clients.elements@.len() as int,
    )
}

/// What switching the client `id` into fullscreen (`should` set) or out of it does to
/// the state `before`, giving `after` and the result `r`.
pub open spec fn fullscreen_set(
    before: WmState,
    after: WmState,
    id: Xid,
    should: bool,
    r: Result<Seq<WmStep>, PenroseError>,
) -> bool {
    let m = before.clients.inner@;
    let scr = before.screens.inner.elements@;
    &&& after.screens == before.screens
    &&& after.workspaces == before.workspaces
    &&& after.clients.focused_client_id == before.clients.focused_client_id
    &&& after.clients.focused_border == before.clients.focused_border
    &&& after.clients.unfocused_border == before.clients.unfocused_border
    &&& if !m.contains_key(id) {
        r == Err::<Seq<WmStep>, PenroseError>(PenroseError::UnknownClient(id)) && after.clients.inner@ == m
    } else {
        let c = m[id];
        let wix = c.workspace;
        if c.fullscreen == should || !workspaces_of(scr).contains(wix) {
            r == Ok::<Seq<WmStep>, PenroseError>(seq![]) && after.clients.inner@ == m
        } else {
            let j = choose|j: int| first_showing(scr, wix, j);
            let ids = before.workspaces.inner.elements@[wix as int].clients.elements@;
            &&& r == Ok::<Seq<WmStep>, PenroseError>(
                seq![WmStep::ToggleFullscreen(id, c.fullscreen)] + fullscreen_steps(
                    ids,
                    id,
                    c.fullscreen,
                    scr[j].true_region,
                ) + (if c.fullscreen {
                    seq![WmStep::Event(EventAction::LayoutWorkspace(wix))]
                } else {
                    seq![]
                }),
            )
            &&& after.clients.inner@ == (if ids.contains(id) {
                m.insert(id, Client { fullscreen: should, ..c })
            } else {
                m
            })
        }
    }
}

/// The focus goes to the focused client of the active workspace of `mid`, if it has
/// one, giving `after`; `v2` is `v` followed by the step this takes.
pub open spec fn refocused_after(mid: WmState, after: WmState, v: Seq<WmStep>, v2: Seq<WmStep>) -> bool {
    &&& after.screens == mid.screens
    &&& after.workspaces == mid.workspaces
    &&& after.clients.inner@ == mid.clients.inner@
    &&& after.clients.focused_border == mid.clients.focused_border
    &&& after.clients.unfocused_border == mid.clients.unfocused_border
    &&& match mid.workspaces.inner.elements@[mid.active() as int].clients.spec_focused() {
        Some(now) => after.clients.focused_client_id == Some(now) && v2 == v + lost_focus_step(
            mid.clients.focused_client_id,
            now,
        ),
        None => after.clients.focused_client_id == mid.clients.focused_client_id && v2 == v,
    }
}

/// What sending the focused client to the workspace at `idx` (when a selector picked
/// one) does to the state `before`, giving `after` and the result `r`.
pub open spec fn client_sent(before: WmState, after: WmState, idx: Option<usize>, r: Result<Seq<WmStep>, PenroseError>) -> bool {
    if before.clients.focused_client_id is Some && idx is Some {
        let id = before.clients.focused_client_id->0;
        exists|mid: WmState, r0: Result<Seq<WmStep>, PenroseError>|
            #![trigger client_moved(before, mid, id, idx->0, r0)]
            client_moved(before, mid, id, idx->0, r0) && match r0 {
                Err(e) => r == Err::<Seq<WmStep>, PenroseError>(e) && after == mid,
                Ok(v) => r matches Ok(v2) && refocused_after(mid, after, v, v2),
            }
    } else {
        r == Ok::<Seq<WmStep>, PenroseError>(seq![]) && after == before
    }
}

/// The screen that `selector` picks in the state `s`: for a window ID the screen
/// showing the workspace of that client.
pub open spec fn screen_picked(s: WmState, selector: &Selector<Screen>, r: Option<Screen>) -> bool {
    let scr = s.screens.inner.elements@;
    match selector {
        Selector::WinId(id) => match client_of(s.clients.inner@, Some(*id)) {
            Some(c) => if workspaces_of(scr).contains(c.workspace) {
                r == Some(scr[choose|j: int| first_showing(scr, c.workspace, j)])
            } else {
                r is None
            },
            None => r is None,
        },
        _ => element_result(selector, scr, s.screens.inner.focused as int, r),
    }
}

/// The ID at position `i` of the client stack of the active workspace of `s`.
pub open spec fn active_id_at(s: WmState, i: usize) -> Option<Xid> {
    let ids = s.workspaces.inner.elements@[s.active() as int].clients.elements@;
    if i < ids.len() {
        Some(ids[i as int])
    } else {
        None
    }
}

/// The client that `selector` picks in `s`: `Index(i)` counts through the client
/// stack of the active workspace, and the other selectors pick among all tracked
/// clients.
pub open spec fn client_picked(s: WmState, selector: &Selector<Client>, r: Option<Client>) -> bool {
    match selector {
        Selector::Index(i) => r == client_of(s.clients.inner@, active_id_at(s, *i)),
        _ => single_lookup(selector, s.clients.inner@, s.clients.focused_client_id, r),
    }
}

/// The tracked client `id` is one that `selector` picks in `s`; see [client_picked].
pub open spec fn id_picked(s: WmState, selector: &Selector<Client>, id: Xid) -> bool {
    &&& s.clients.inner@.contains_key(id)
    &&& match selector {
        Selector::Index(i) => active_id_at(s, *i) == Some(id),
        _ => picks(selector, s.clients.inner@, s.clients.focused_client_id, id),
    }
}

/// `selector` picks no tracked client in `s`; see [client_picked].
pub open spec fn none_picked(s: WmState, selector: &Selector<Client>) -> bool {
    match selector {
        Selector::Index(i) => client_of(s.clients.inner@, active_id_at(s, *i)) is None,
        _ => picks_none(selector, s.clients.inner@, s.clients.focused_client_id),
    }
}

/// Moving the screen focus one step in `direction` from `f` among `len` screens
/// would wrap around the ends.
pub open spec fn screen_wraps(f: int, len: int, direction: Direction) -> bool {
    (f == 0 && direction == Direction::Backward) || (f == len - 1 && direction == Direction::Forward)
}

/// `after` is `before` with the focus on screen `g`.
pub open spec fn screen_refocused(before: WmState, after: WmState, g: int) -> bool {
    &&& after.clients == before.clients
    &&& after.workspaces == before.workspaces
    &&& after.screens.inner.elements@ == before.screens.inner.elements@
    &&& after.screens.inner.focused == g
    &&& after.screens.bar_height == before.screens.bar_height
    &&& after.screens.top_bar == before.screens.top_bar
}

/// `a` and `b` hold the same clients, screens and workspaces.
pub open spec fn same_state(a: WmState, b: WmState) -> bool {
    &&& b.clients == a.clients
    &&& b.screens == a.screens
    &&& b.workspaces.inner.elements@ == a.workspaces.inner.elements@
    &&& b.workspaces.inner.focused == a.workspaces.inner.focused
    &&& b.workspaces.previous_workspace == a.workspaces.previous_workspace
    &&& b.workspaces.client_insert_point == a.workspaces.client_insert_point
}

/// The steps that take on the client `id`, found on workspace `wix` when the window
/// manager starts: announcing it on that workspace when it was `added` there, hiding
/// its window until it is laid out, and marking it as newly mapped.
pub open spec fn existing_steps(id: Xid, wix: usize, added: bool) -> Seq<WmStep> {
    (if added {
        seq![
            WmStep::SetClientWorkspace(id, wix),
            WmStep::Event(EventAction::RunHook(HookName::ClientAddedToWorkspace(id, wix))),
        ]
    } else {
        seq![]
    }) + seq![WmStep::UnmapIfNeeded(id), WmStep::MarkNewClient(id)]
}

/// What taking on the client `c`, found when the window manager starts, does to the
/// state `before`, giving `after` and the result `r`: an error when its workspace
/// holds it already, and otherwise it is tracked and added to its workspace (if that
/// workspace exists) at the client insert point.
pub open spec fn existing_added(before: WmState, after: WmState, c: Client, r: Result<Seq<WmStep>, PenroseError>) -> bool {
    let id = c.id;
    let wix = c.workspace;
    let ws = before.workspaces.inner.elements@;
    if wix < ws.len() && ws[wix as int].clients.elements@.contains(id) {
        &&& same_state(before, after)
        &&& (r matches Err(PenroseError::Raw(m)) && m@ == decimal_text(id as nat) + " is already in this workspace"@)
    } else {
        &&& after.clients.inner@ == before.clients.inner@.insert(id, c)
        &&& after.clients.focused_client_id == before.clients.focused_client_id
        &&& after.clients.focused_border == before.clients.focused_border
        &&& after.clients.unfocused_border == before.clients.unfocused_border
        &&& after.screens == before.screens
        &&& after.workspaces.inner.focused == before.workspaces.inner.focused
        &&& after.workspaces.previous_workspace == before.workspaces.previous_workspace
        &&& after.workspaces.client_insert_point == before.workspaces.client_insert_point
        &&& if wix < ws.len() {
            let w = ws[wix as int];
            let w2 = after.workspaces.inner.elements@[wix as int];
            &&& after.workspaces.inner.elements@ == ws.update(wix as int, w2)
            &&& w2.clients.elements@ == inserted(
                w.clients.elements@,
                w.clients.focused as int,
                before.workspaces.client_insert_point,
                id,
            )
            &&& w2.name == w.name
            &&& w2.layouts == w.layouts
            &&& (w2.clients.focused == w.clients.focused || w.clients.elements@.len() == 0)
        } else {
            after.workspaces.inner.elements@ == ws
        }
        &&& r == Ok::<Seq<WmStep>, PenroseError>(existing_steps(id, wix, wix < ws.len()))
    }
}

/// The steps of the results `rs` in order, leaving out errors.
pub open spec fn ok_steps(rs: Seq<Result<Seq<WmStep>, PenroseError>>) -> Seq<WmStep>
    decreases rs.len(),
{
    if rs.len() == 0 {
        seq![]
    } else {
        ok_steps(rs.drop_last()) + match rs.last() {
            Ok(st) => st,
            Err(_) => seq![],
        }
    }
}

/// Taking on the clients `cs` in order went through the states `states`, each client
/// giving its result in `rs`, and stopped at the first error.
pub open spec fn existing_run(states: Seq<WmState>, cs: Seq<Client>, rs: Seq<Result<Seq<WmStep>, PenroseError>>) -> bool {
    &&& states.len() == rs.len() + 1
    &&& rs.len() <= cs.len()
    &&& forall|i: int| 0 <= i < rs.len() ==> #[trigger] existing_added(states[i], states[i + 1], cs[i], rs[i])
    &&& forall|i: int| 0 <= i < rs.len() - 1 ==> (#[trigger] rs[i]) is Ok
    &&& rs.len() < cs.len() ==> rs.len() > 0 && rs.last() is Err
}

/// What taking on the clients `cs` found when the window manager starts does to
/// `before`, giving `after` and the result `r`: each client in turn (see
/// [existing_added]), stopping at the first error; when all are taken on, the focused
/// client of the first workspace gets the focus, the X server is told which clients
/// are known, and the visible workspaces are laid out.
pub open spec fn existing_managed(before: WmState, after: WmState, cs: Seq<Client>, r: Result<Seq<WmStep>, PenroseError>) -> bool {
    exists|states: Seq<WmState>, rs: Seq<Result<Seq<WmStep>, PenroseError>>|
        #![trigger existing_run(states, cs, rs)]
        {
            &&& states[0] == before
            &&& existing_run(states, cs, rs)
            &&& same_state(states.last(), after)
            &&& if rs.len() == cs.len() && (rs.len() == 0 || rs.last() is Ok) {
                r == Ok::<Seq<WmStep>, PenroseError>(
                    ok_steps(rs) + focus_step(states.last().workspaces.inner.elements@[0])
                        + seq![WmStep::UpdateKnownClients, WmStep::Event(EventAction::LayoutVisible)],
                )
            } else {
                r == rs.last()
            }
        }
}

/// Whether the workspace `w` is well formed.
fn workspace_is_wf(w: &Workspace) -> (r: bool)
    ensures
        r == w.wf(),
{
    let ids = &w.clients.elements;
    let mut j: usize = 0;
    while j < ids.len()
        invariant
            ids@ == w.clients.elements@,
            j <= ids@.len(),
            forall|a: int, b: int| 0 <= a < b < j ==> ids@[a] != ids@[b],
        decreases ids@.len() - j,
    {
        let mut i: usize = 0;
        while i < j
            invariant
                ids@ == w.clients.elements@,
                i <= j < ids@.len(),
                forall|a: int, b: int| 0 <= a < b < j ==> ids@[a] != ids@[b],
                forall|a: int| 0 <= a < i ==> ids@[a] != ids@[j as int],
            decreases j - i,
        {
            if ids[i] == ids[j] {
                assert(ids@[i as int] == ids@[j as int]);
                assert(!w.clients.elements@.no_duplicates());
                return false;
            }
            i = i + 1;
        }
        j = j + 1;
    }
    let focus = w.clients.focused < ids.len() || (ids.len() == 0 && w.clients.focused == 0);
    focus && w.layouts.elements.len() > 0 && w.layouts.focused < w.layouts.elements.len()
}

impl WmState {
    /// The workspaces are well formed, one of them is active, and the screens (there
    /// is at least one, and one has focus) each show a different workspace.
    pub open spec fn wf(&self) -> bool {
        &&& self.workspaces.wf()
        &&& self.workspaces.inner.focused < self.workspaces.inner.elements@.len()
        &&& self.screens.inner.elements@.len() > 0
        &&& self.screens.inner.focused < self.screens.inner.elements@.len()
        &&& screens_ok(self.screens.inner.elements@, self.workspaces.inner.elements@.len() as int)
    }

    /// The index of the workspace shown on the focused screen.
    pub open spec fn active(&self) -> usize {
        self.screens.inner.elements@[self.screens.inner.focused as int].wix
    }

    /// Whether the state is well formed; see [WmState::wf].
    pub fn is_wf(&self) -> (r: bool)
        ensures
            r == self.wf(),
    {
        let ws = &self.workspaces.inner.elements;
        let mut k: usize = 0;
        while k < ws.len()
            invariant
                ws@ == self.workspaces.inner.elements@,
                k <= ws@.len(),
                forall|a: int| 0 <= a < k ==> #[trigger] ws@[a].wf(),
            decreases ws@.len() - k,
        {
            if !workspace_is_wf(&ws[k]) {
                assert(!ws@[k as int].wf());
                return false;
            }
            k = k + 1;
        }
        if self.workspaces.inner.focused >= ws.len() {
            return false;
        }
        let scr = &self.screens.inner.elements;
        if scr.len() == 0 || self.screens.inner.focused >= scr.len() {
            return false;
        }
        let mut j: usize = 0;
        while j < scr.len()
            invariant
                scr@ == self.screens.inner.elements@,
                ws@ == self.workspaces.inner.elements@,
                j <= scr@.len(),
                forall|a: int| 0 <= a < j ==> #[trigger] scr@[a].wix < ws@.len(),
                forall|a: int, b: int| 0 <= a < j && 0 <= b < j && a != b ==> #[trigger] scr@[a].wix
                    != #[trigger] scr@[b].wix,
            decreases scr@.len() - j,
        {
            if scr[j].wix >= ws.len() {
                assert(!(scr@[j as int].wix < ws@.len()));
                return false;
            }
            let mut i: usize = 0;
            while i < j
                invariant
                    scr@ == self.screens.inner.elements@,
                    ws@ == self.workspaces.inner.elements@,
                    i <= j < scr@.len(),
                    forall|a: int| 0 <= a < i ==> #[trigger] scr@[a].wix != scr@[j as int].wix,
                decreases j - i,
            {
                if scr[i].wix == scr[j].wix {
                    assert(scr@[i as int].wix == scr@[j as int].wix);
                    assert(!screens_ok(scr@, ws@.len() as int));
                    return false;
                }
                i = i + 1;
            }
            j = j + 1;
        }
        true
    }

    /// Whether a client can be added at the client insert point on every workspace;
    /// see [inserts_ok].
    pub fn insert_point_fits(&self) -> (r: bool)
        ensures
            r == inserts_ok(self.workspaces),
    {
        let ws = &self.workspaces.inner.elements;
        let ip = self.workspaces.client_insert_point;
        let mut k: usize = 0;
        while k < ws.len()
            invariant
                k <= ws@.len(),
                ip == self.workspaces.client_insert_point,
                ws@ == self.workspaces.inner.elements@,
                forall|a: int| 0 <= a < k ==> insert_point_ok(
                    ip,
                    #[trigger] ws@[a].clients.focused as int,
                    ws@[a].clients.elements@.len() as int,
                ),
            decreases ws@.len() - k,
        {
            let focused = ws[k].clients.focused;
            let len = ws[k].clients.elements.len();
            let ok = match ip {
                InsertPoint::Index(ix) => ix <= len,
                InsertPoint::Focused => focused <= len,
                InsertPoint::AfterFocused => focused < usize::MAX,
                _ => true,
            };
            if !ok {
                return false;
            }
            k = k + 1;
        }
        true
    }

    /// Show the workspace picked by `selector` on the focused screen.
    ///
    /// Nothing happens when the selector picks no workspace, or one that agrees in every
    /// field with the one already shown (see [Workspaces::would_focus]).
    /// A workspace that another screen shows swaps places with the one on the focused
    /// screen; otherwise the clients of the shown workspace are hidden and those of the
    /// new one shown. Either way the new workspace is laid out, becomes the active one
    /// (the old one is remembered as the previous workspace), its focused client gets
    /// the focus, and the workspace-change hook runs.
    pub fn focus_workspace(&mut self, selector: &Selector<'_, Workspace>) -> (r: Vec<WmStep>)
        requires
            old(self).wf(),
            selector_callable(selector, old(self).workspaces.inner.elements@),
        ensures
            final(self).wf(),
            exists|idx: Option<usize>, same: bool|
                #![trigger index_result(selector, old(self).workspaces.inner.elements@, old(self).workspaces.inner.focused as int, idx), would_focus_result(old(self).workspaces.inner.elements@, old(self).workspaces.inner.focused as int, old(self).active(), selector, same)]
                {
                    &&& would_focus_result(
                        old(self).workspaces.inner.elements@,
                        old(self).workspaces.inner.focused as int,
                        old(self).active(),
                        selector,
                        same,
                    )
                    &&& index_result(
                        selector,
                        old(self).workspaces.inner.elements@,
                        old(self).workspaces.inner.focused as int,
                        idx,
                    )
                    &&& focused_workspace(*old(self), *final(self), idx, same, r@)
                },
    {
        let ghost before = *self;
        let ghost scr = self.screens.inner.elements@;
        let ghost ws = self.workspaces.inner.elements@;
        let f = self.screens.inner.focused;
        let active = self.screens.inner.elements[f].wix;
        let same = self.workspaces.would_focus(active, selector);
        assert(would_focus_result(ws, before.workspaces.inner.focused as int, before.active(), selector, same));
        let found = self.workspaces.inner.index(selector);
        assert(index_result(selector, ws, before.workspaces.inner.focused as int, found));
        let index = match found {
            Some(i) => i,
            None => {
                assert(focused_workspace(before, *self, None, same, seq![]));
                return Vec::new();
            },
        };
        if same {
            assert(focused_workspace(before, *self, Some(index), true, seq![]));
            return Vec::new();
        }
        assert(index < ws.len()) by {
            if let Selector::Condition(c) = selector {
                assert(crate::wm::ring::first_match(*c, ws, index as int));
            }
        }
        self.workspaces.previous_workspace = active;
        let shown_at = match self.screens.indexed_screen_for_workspace(index) {
            Some((j, _)) => Some(j),
            None => None,
        };
        let mut steps: Vec<WmStep> = Vec::new();
        match shown_at {
            Some(j) => {
                let mut sj = self.screens.inner.elements[j];
                sj.wix = active;
                self.screens.inner.elements.set(j, sj);
                let mut sf = self.screens.inner.elements[f];
                sf.wix = index;
                self.screens.inner.elements.set(f, sf);
                steps.push(WmStep::ApplyLayout(active));
                steps.push(WmStep::ApplyLayout(index));
                steps.push(WmStep::SetCurrentWorkspace(index));
            },
            None => {
                let n = self.workspaces.inner.elements[active].clients.elements.len();
                let mut k: usize = 0;
                while k < n
                    invariant
                        self.workspaces.inner.elements@ == ws,
                        active < ws.len(),
                        n == ws[active as int].clients.elements@.len(),
                        k <= n,
                        steps@ == unmap_steps(ws[active as int].clients.elements@.take(k as int)),
                    decreases n - k,
                {
                    let id = self.workspaces.inner.elements[active].clients.elements[k];
                    steps.push(WmStep::UnmapIfNeeded(id));
                    proof {
                        assert(ws[active as int].clients.elements@.take(k + 1) =~= ws[active as int].clients.elements@.take(k as int).push(id));
                    }
                    k = k + 1;
                }
                assert(ws[active as int].clients.elements@.take(n as int) =~= ws[active as int].clients.elements@);
                let ghost unmapped = steps@;
                let m = self.workspaces.inner.elements[index].clients.elements.len();
                k = 0;
                while k < m
                    invariant
                        self.workspaces.inner.elements@ == ws,
                        index < ws.len(),
                        m == ws[index as int].clients.elements@.len(),
                        k <= m,
                        steps@ == unmapped + map_steps(ws[index as int].clients.elements@.take(k as int)),
                    decreases m - k,
                {
                    let id = self.workspaces.inner.elements[index].clients.elements[k];
                    steps.push(WmStep::MapIfNeeded(id));
                    proof {
                        assert(ws[index as int].clients.elements@.take(k + 1) =~= ws[index as int].clients.elements@.take(k as int).push(id));
                    }
                    k = k + 1;
                }
                assert(ws[index as int].clients.elements@.take(m as int) =~= ws[index as int].clients.elements@);
                let mut sf = self.screens.inner.elements[f];
                sf.wix = index;
                self.screens.inner.elements.set(f, sf);
                steps.push(WmStep::ApplyLayout(index));
                steps.push(WmStep::SetCurrentWorkspace(index));
            },
        }
        let ghost before_focus = steps@;
        match self.workspaces.inner.elements[index].focused_client() {
            Some(id) => steps.push(WmStep::UpdateFocus(id)),
            None => {},
        }
        assert(steps@ == before_focus + focus_step(ws[index as int]));
        self.workspaces.inner.focus(&Selector::Index(index));
        steps.push(WmStep::Event(EventAction::RunHook(HookName::WorkspaceChange(active, index))));
        proof {
            let scr2 = self.screens.inner.elements@;
            match shown_at {
                Some(j) => {
                    assert(first_showing(scr, index, j as int));
                    assert(steps@ =~= swap_steps(active, index, ws[index as int]));
                    assert forall|a: int, b: int|
                        0 <= a < scr2.len() && 0 <= b < scr2.len() && a != b implies #[trigger] scr2[a].wix
                            != #[trigger] scr2[b].wix by {
                        assert(scr[a].wix != scr[b].wix || a == b);
                    }
                },
                None => {
                    assert(steps@ =~= replace_steps(active, index, ws[active as int], ws[index as int]));
                    assert forall|a: int, b: int|
                        0 <= a < scr2.len() && 0 <= b < scr2.len() && a != b implies #[trigger] scr2[a].wix
                            != #[trigger] scr2[b].wix by {
                        if a == f as int {
                            assert(workspaces_of(scr)[b] == scr[b].wix);
                        } else if b == f as int {
                            assert(workspaces_of(scr)[a] == scr[a].wix);
                        }
                    }
                },
            }
            assert(index_result(selector, ws, before.workspaces.inner.focused as int, Some(index)));
            if let Some(j) = shown_at {
                assert(workspaces_of(scr)[j as int] == index);
            }
            assert(focused_workspace(before, *self, Some(index), false, steps@));
        }
        steps
    }

    /// Finish taking on the new window `id` once its client is tracked and the
    /// new-client hooks have run (they may have changed or dropped it).
    ///
    /// A client that is no longer tracked is left alone, and one that asked to start
    /// withdrawn is dropped. A window of a type that is not managed is just mapped.
    /// Otherwise a client that the window manager manages is added to its workspace
    /// (an error if it is there already), a floating client is placed on the screen
    /// that shows its workspace, and the client is focused, then laid out and shown
    /// if its workspace is the active one.
    pub fn manage_new_client(&mut self, id: Xid, is_managed_type: bool, show_bar: bool) -> (r: Result<Vec<WmStep>, PenroseError>)
        requires
            old(self).wf(),
            forall|w: int| 0 <= w < old(self).workspaces.inner.elements@.len() ==> insert_point_ok(
                old(self).workspaces.client_insert_point,
                #[trigger] old(self).workspaces.inner.elements@[w].clients.focused as int,
                old(self).workspaces.inner.elements@[w].clients.elements@.len() as int,
            ),
        ensures
            final(self).wf(),
            final(self).screens.inner.elements@ == old(self).screens.inner.elements@,
            final(self).screens.inner.focused == old(self).screens.inner.focused,
            final(self).workspaces.inner.focused == old(self).workspaces.inner.focused,
            final(self).workspaces.previous_workspace == old(self).workspaces.previous_workspace,
            final(self).workspaces.client_insert_point == old(self).workspaces.client_insert_point,
            final(self).clients.focused_client_id == (if old(self).clients.inner@.contains_key(id)
                && withdrawn(old(self).clients.inner@[id]) && old(self).clients.focused_client_id == Some(id) {
                None
            } else {
                old(self).clients.focused_client_id
            }),
            final(self).clients.inner@ == (if old(self).clients.inner@.contains_key(id) && withdrawn(
                old(self).clients.inner@[id],
            ) {
                old(self).clients.inner@.remove(id)
            } else {
                old(self).clients.inner@
            }),
            ({
                let ws = old(self).workspaces.inner.elements@;
                let m = old(self).clients.inner@;
                if !m.contains_key(id) || withdrawn(m[id]) {
                    r matches Ok(v) && v@.len() == 0
                } else if !is_managed_type {
                    r matches Ok(v) && v@ == seq![WmStep::MapWindow(id)]
                } else {
                    let c = m[id];
                    let wix = c.workspace;
                    let added = c.wm_managed && wix < ws.len();
                    if added && ws[wix as int].clients.elements@.contains(id) {
                        &&& r matches Err(PenroseError::Raw(m)) && m@ == decimal_text(id as nat)
                            + " is already in this workspace"@
                        &&& final(self).workspaces.inner.elements@ == ws
                    } else {
                        &&& r matches Ok(v) && v@ == new_client_steps(
                            id,
                            c,
                            added,
                            old(self).screens.inner.elements@,
                            old(self).active(),
                            show_bar,
                        )
                        &&& added ==> final(self).workspaces.inner.elements@ == ws.update(
                            wix as int,
                            final(self).workspaces.inner.elements@[wix as int],
                        ) && final(self).workspaces.inner.elements@[wix as int].clients.elements@
                            == crate::wm::ring::inserted(
                            ws[wix as int].clients.elements@,
                            ws[wix as int].clients.focused as int,
                            old(self).workspaces.client_insert_point,
                            id,
                        )
                        &&& !added ==> final(self).workspaces.inner.elements@ == ws
                    }
                }
            }),
    {
        let ghost scr = self.screens.inner.elements@;
        let ghost ws = self.workspaces.inner.elements@;
        let (wix, gone, managed, floating) = match self.clients.get(id) {
            None => {
                return Ok(Vec::new());
            },
            Some(c) => {
                let gone = match c.wm_hints {
                    Some(h) => h.initial_state == WindowState::Withdrawn,
                    None => false,
                };
                (c.workspace, gone, c.wm_managed, c.floating)
            },
        };
        if gone {
            self.clients.remove(id);
            return Ok(Vec::new());
        }
        if !is_managed_type {
            return Ok(vec![WmStep::MapWindow(id)]);
        }
        let mut steps: Vec<WmStep> = Vec::new();
        if managed {
            match self.workspaces.add_client(wix, id) {
                Err(e) => {
                    return Err(e);
                },
                Ok(Some(action)) => {
                    steps.push(WmStep::SetClientWorkspace(id, wix));
                    steps.push(WmStep::Event(action));
                },
                Ok(None) => {},
            }
        }
        proof {
            let ws2 = self.workspaces.inner.elements@;
            if managed && wix < ws.len() {
                assert(ws2 =~= ws.update(wix as int, ws2[wix as int]));
            }
            assert forall|i: int| 0 <= i < scr.len() implies #[trigger] scr[i].wix < ws2.len() by {
                assert(screens_ok(scr, ws.len() as int));
            }
        }
        let ghost added_steps = steps@;
        if floating {
            match self.screens.indexed_screen_for_workspace(wix) {
                Some((j, sc)) => {
                    let reg = sc.region(show_bar);
                    steps.push(WmStep::PositionFloating(id, reg));
                    proof {
                        assert(first_showing(scr, wix, j as int));
                        assert(workspaces_of(scr)[j as int] == wix);
                        let k = choose|k: int| first_showing(scr, wix, k);
                        lemma_first_showing_unique(scr, wix, j as int, k);
                    }
                },
                None => {},
            }
        }
        steps.push(WmStep::MarkNewClient(id));
        steps.push(WmStep::UpdateFocus(id));
        steps.push(WmStep::UpdateKnownClients);
        let f = self.screens.inner.focused;
        if wix == self.screens.inner.elements[f].wix {
            steps.push(WmStep::ApplyLayout(wix));
            steps.push(WmStep::MapIfNeeded(id));
            steps.push(WmStep::WarpCursor(Some(id)));
        }
        proof {
            let c = old(self).clients.inner@[id];
            assert(steps@ =~= new_client_steps(id, c, managed && wix < ws.len(), scr, old(self).active(), show_bar));
        }
        Ok(steps)
    }

    /// Give the focus to the client `id`, or when it is not tracked to the focused
    /// client of the active workspace (with no such client the root window gets it).
    ///
    /// The screen showing the client's workspace gets the focus, the client becomes
    /// the focused one of its workspace, and that workspace is laid out again when its
    /// layout follows the focus and the client that had the focus was on it.
    #[verifier::rlimit(60)]
    pub fn update_focus(&mut self, id: Xid) -> (r: Vec<WmStep>)
        requires
            old(self).wf(),
            focus_target(*old(self), id) matches Some(t) ==> old(self).clients.inner@.contains_key(t),
        ensures
            final(self).wf(),
            final(self).workspaces.inner.focused == old(self).workspaces.inner.focused,
            final(self).workspaces.previous_workspace == old(self).workspaces.previous_workspace,
            final(self).workspaces.client_insert_point == old(self).workspaces.client_insert_point,
            final(self).screens.bar_height == old(self).screens.bar_height,
            final(self).screens.top_bar == old(self).screens.top_bar,
            focus_moved(*old(self), *final(self), id, r@),
    {
        let ghost before = *self;
        let ghost scr = self.screens.inner.elements@;
        let ghost ws = self.workspaces.inner.elements@;
        let f = self.screens.inner.focused;
        let target = if self.clients.is_known(id) {
            id
        } else {
            let active = self.screens.inner.elements[f].wix;
            match self.workspaces.inner.elements[active].focused_client() {
                Some(t) => t,
                None => {
                    let mut root = Vec::new();
                    root.push(WmStep::FocusRoot);
                    assert(root@ =~= seq![WmStep::FocusRoot]);
                    assert(focus_target(before, id) is None);
                    return root;
                },
            }
        };
        let prev = self.clients.set_focused(target);
        let mut steps: Vec<WmStep> = Vec::new();
        match prev {
            Some(p) => {
                if p != target {
                    steps.push(WmStep::Event(EventAction::ClientFocusLost(p)));
                }
            },
            None => {},
        }
        let (wix, accepts) = match self.clients.get(target) {
            Some(c) => (c.workspace, c.accepts_focus),
            None => {
                assert(false);
                return steps;
            },
        };
        let ghost lost = steps@;
        let shown_at = match self.screens.indexed_screen_for_workspace(wix) {
            Some((j, _)) => Some(j),
            None => None,
        };
        match shown_at {
            Some(j) => {
                proof {
                    assert(first_showing(scr, wix, j as int));
                    assert(workspaces_of(scr)[j as int] == wix);
                    let k = choose|k: int| first_showing(scr, wix, k);
                    lemma_first_showing_unique(scr, wix, j as int, k);
                }
                let events = self.screens.focus_screen(&Selector::Index(j));
                push_events(&mut steps, events);
            },
            None => {},
        }
        let g = self.screens.inner.focused;
        steps.push(WmStep::SetCurrentWorkspace(self.screens.inner.elements[g].wix));
        steps.push(WmStep::SetXFocus(target, accepts));
        let ghost before_layout = steps@;
        if self.workspaces.focus_client_on(wix, target, prev) {
            steps.push(WmStep::ApplyLayout(wix));
        }
        steps.push(WmStep::Event(EventAction::RunHook(HookName::FocusChange(target))));
        proof {
            assert(focus_target(before, id) == Some(target));
            assert(steps@ =~= focus_steps(before, target));
            assert(screens_ok(self.screens.inner.elements@, self.workspaces.inner.elements@.len() as int));
        }
        steps
    }

    /// Forget the destroyed client `id`, taking it off its workspace, which is laid
    /// out again if it is shown. Nothing happens for a window that is not tracked.
    pub fn remove_client(&mut self, id: Xid) -> (r: Vec<WmStep>)
        requires
            old(self).wf(),
        ensures
            final(self).wf(),
            final(self).screens.inner.elements@ == old(self).screens.inner.elements@,
            final(self).screens.inner.focused == old(self).screens.inner.focused,
            final(self).workspaces.inner.focused == old(self).workspaces.inner.focused,
            final(self).workspaces.previous_workspace == old(self).workspaces.previous_workspace,
            final(self).workspaces.client_insert_point == old(self).workspaces.client_insert_point,
            final(self).clients.inner@ == old(self).clients.inner@.remove(id),
            final(self).clients.focused_client_id == (if old(self).clients.focused_client_id == Some(id) {
                None
            } else {
                old(self).clients.focused_client_id
            }),
            final(self).clients.focused_border == old(self).clients.focused_border,
            final(self).clients.unfocused_border == old(self).clients.unfocused_border,
            ({
                let m = old(self).clients.inner@;
                let ws = old(self).workspaces.inner.elements@;
                let ws2 = final(self).workspaces.inner.elements@;
                if m.contains_key(id) {
                    let wix = m[id].workspace;
                    &&& ws2.len() == ws.len()
                    &&& forall|j: int| 0 <= j < ws.len() && j != wix ==> #[trigger] ws2[j] == ws[j]
                    &&& wix < ws.len() ==> client_removed(ws[wix as int], ws2[wix as int], id)
                    &&& r@ == (if workspaces_of(old(self).screens.inner.elements@).contains(wix) {
                        seq![WmStep::ApplyLayout(wix)]
                    } else {
                        seq![]
                    }) + seq![
                        WmStep::UpdateKnownClients,
                        WmStep::Event(EventAction::RunHook(HookName::RemoveClient(id))),
                    ]
                } else {
                    ws2 == ws && r@.len() == 0
                }
            }),
    {
        let ghost ws = self.workspaces.inner.elements@;
        let ghost scr = self.screens.inner.elements@;
        let mut steps: Vec<WmStep> = Vec::new();
        match self.clients.remove(id) {
            Some(c) => {
                let wix = c.workspace;
                self.workspaces.remove_client(wix, id);
                let shown = match self.screens.indexed_screen_for_workspace(wix) {
                    Some((j, _)) => {
                        assert(workspaces_of(scr)[j as int] == wix);
                        true
                    },
                    None => false,
                };
                if shown {
                    steps.push(WmStep::ApplyLayout(wix));
                }
                steps.push(WmStep::UpdateKnownClients);
                steps.push(WmStep::Event(EventAction::RunHook(HookName::RemoveClient(id))));
                proof {
                    assert(screens_ok(scr, self.workspaces.inner.elements@.len() as int));
                }
            },
            None => {},
        }
        steps
    }

    /// Move the client `id` to the workspace at `wix` (see [client_moved]): an error
    /// for a window that is not tracked, and nothing to do when it is there already.
    pub fn move_client_to_workspace(&mut self, id: Xid, wix: usize) -> (r: Result<Vec<WmStep>, PenroseError>)
        requires
            old(self).wf(),
            inserts_ok(old(self).workspaces),
        ensures
            final(self).wf(),
            client_moved(*old(self), *final(self), id, wix, result_steps(r)),
    {
        let ghost before = *self;
        let ghost ws = self.workspaces.inner.elements@;
        let ghost scr = self.screens.inner.elements@;
        let current = match self.clients.workspace_index_for_client(id) {
            Some(ix) => ix,
            None => {
                return Err(PenroseError::UnknownClient(id));
            },
        };
        if current == wix {
            return Ok(Vec::new());
        }
        self.workspaces.remove_client(current, id);
        let ghost ws1 = self.workspaces.inner.elements@;
        self.clients.set_client_workspace(id, wix);
        let mut steps: Vec<WmStep> = Vec::new();
        proof {
            if wix < ws.len() {
                assert(ws1[wix as int] == ws[wix as int]);
            }
        }
        match self.workspaces.add_client(wix, id) {
            Err(e) => {
                return Err(e);
            },
            Ok(Some(action)) => {
                steps.push(WmStep::SetClientWorkspace(id, wix));
                steps.push(WmStep::Event(action));
            },
            Ok(None) => {},
        }
        let shown = match self.screens.indexed_screen_for_workspace(wix) {
            Some((j, _)) => {
                assert(workspaces_of(scr)[j as int] == wix);
                true
            },
            None => false,
        };
        if shown {
            steps.push(WmStep::WarpCursor(Some(id)));
        } else {
            steps.push(WmStep::UnmapIfNeeded(id));
        }
        steps.push(WmStep::Event(EventAction::LayoutVisible));
        proof {
            let ws2 = self.workspaces.inner.elements@;
            assert(screens_ok(scr, ws2.len() as int));
            assert(steps@ =~= moved_steps(id, wix, ws.len() as int, scr));
        }
        Ok(steps)
    }

    /// Switch the client `id` into fullscreen (`should_fullscreen` set) or out of it;
    /// see [fullscreen_set]. An error for a window that is not tracked; nothing to do
    /// when it is in that state already or its workspace is not shown.
    pub fn set_fullscreen(&mut self, id: Xid, should_fullscreen: bool) -> (r: Result<Vec<WmStep>, PenroseError>)
        requires
            old(self).wf(),
        ensures
            final(self).wf(),
            fullscreen_set(*old(self), *final(self), id, should_fullscreen, result_steps(r)),
    {
        let ghost scr = self.screens.inner.elements@;
        let (cur, wix) = match self.clients.get(id) {
            Some(c) => (c.fullscreen, c.workspace),
            None => {
                return Err(PenroseError::UnknownClient(id));
            },
        };
        if cur == should_fullscreen {
            return Ok(Vec::new());
        }
        let region = match self.screens.indexed_screen_for_workspace(wix) {
            Some((j, sc)) => {
                proof {
                    assert(first_showing(scr, wix, j as int));
                    assert(workspaces_of(scr)[j as int] == wix);
                    let k = choose|k: int| first_showing(scr, wix, k);
                    lemma_first_showing_unique(scr, wix, j as int, k);
                }
                sc.region(false)
            },
            None => {
                return Ok(Vec::new());
            },
        };
        let ids = match self.workspaces.client_ids(wix) {
            Ok(ids) => ids,
            Err(e) => {
                return Err(e);
            },
        };
        let steps = self.clients.toggle_fullscreen(id, wix, ids.as_slice(), region);
        Ok(steps)
    }

    /// Switch the fullscreen state of the client that `selector` picks, if any.
    pub fn toggle_client_fullscreen(&mut self, selector: &Selector<'_, Client>) -> (r: Result<Vec<WmStep>, PenroseError>)
        requires
            old(self).wf(),
            selector matches Selector::Condition(f) ==> forall|k: Xid| old(self).clients.inner@.contains_key(k) ==> f.pre(
                #[trigger] old(self).clients.inner@[k],
            ),
        ensures
            final(self).wf(),
            exists|pick: Option<Client>|
                #![trigger single_lookup(selector, old(self).clients.inner@, old(self).clients.focused_client_id, pick)]
                single_lookup(selector, old(self).clients.inner@, old(self).clients.focused_client_id, pick) && match pick {
                    Some(c) => fullscreen_set(*old(self), *final(self), c.id, !c.fullscreen, result_steps(r)),
                    None => result_steps(r) == Ok::<Seq<WmStep>, PenroseError>(seq![]) && *final(self) == *old(self),
                },
    {
        let (id, is_fullscreen) = match self.clients.client(selector) {
            Some(c) => (c.id, c.fullscreen),
            None => {
                return Ok(Vec::new());
            },
        };
        self.set_fullscreen(id, !is_fullscreen)
    }

    /// Move the focused client, if any, to the workspace that `selector` picks, then
    /// give the focus to the focused client of the active workspace; see [client_sent].
    pub fn client_to_workspace(&mut self, selector: &Selector<'_, Workspace>) -> (r: Result<Vec<WmStep>, PenroseError>)
        requires
            old(self).wf(),
            inserts_ok(old(self).workspaces),
            selector_callable(selector, old(self).workspaces.inner.elements@),
        ensures
            final(self).wf(),
            exists|idx: Option<usize>|
                #![trigger index_result(selector, old(self).workspaces.inner.elements@, old(self).workspaces.inner.focused as int, idx)]
                index_result(
                    selector,
                    old(self).workspaces.inner.elements@,
                    old(self).workspaces.inner.focused as int,
                    idx,
                ) && client_sent(*old(self), *final(self), idx, result_steps(r)),
    {
        let ghost before = *self;
        let ghost ws = self.workspaces.inner.elements@;
        let found = self.workspaces.inner.index(selector);
        let id = match self.clients.focused_client_id {
            Some(id) => id,
            None => {
                return Ok(Vec::new());
            },
        };
        let wix = match found {
            Some(w) => w,
            None => {
                return Ok(Vec::new());
            },
        };
        let moved = self.move_client_to_workspace(id, wix);
        let ghost mid = *self;
        let mut steps = match moved {
            Ok(v) => v,
            Err(e) => {
                assert(client_moved(before, mid, id, wix, result_steps(moved)));
                return Err(e);
            },
        };
        let ghost v = steps@;
        let f = self.screens.inner.focused;
        let active = self.screens.inner.elements[f].wix;
        match self.workspaces.inner.elements[active].focused_client() {
            Some(now) => {
                let prev = self.clients.set_focused(now);
                match prev {
                    Some(p) => {
                        if p != now {
                            steps.push(WmStep::Event(EventAction::ClientFocusLost(p)));
                        }
                    },
                    None => {},
                }
                assert(steps@ =~= v + lost_focus_step(prev, now));
            },
            None => {},
        }
        proof {
            assert(client_moved(before, mid, id, wix, Ok(v)));
            assert(refocused_after(mid, *self, v, steps@));
        }
        Ok(steps)
    }

    /// The screen that `selector` picks; for a window ID, the screen showing the
    /// workspace of that client.
    pub fn screen(&self, selector: &Selector<'_, Screen>) -> (r: Option<&Screen>)
        requires
            self.wf(),
            selector_callable(selector, self.screens.inner.elements@),
        ensures
            screen_picked(
                *self,
                selector,
                match r {
                    Some(sc) => Some(*sc),
                    None => None,
                },
            ),
            r matches Some(sc) ==> sc.wix < self.workspaces.inner.elements@.len(),
    {
        let ghost scr = self.screens.inner.elements@;
        proof {
            assert(screens_ok(scr, self.workspaces.inner.elements@.len() as int));
        }
        match selector {
            Selector::WinId(id) => {
                let wix = match self.clients.workspace_index_for_client(*id) {
                    Some(w) => w,
                    None => {
                        return None;
                    },
                };
                match self.screens.indexed_screen_for_workspace(wix) {
                    Some((j, sc)) => {
                        proof {
                            assert(first_showing(scr, wix, j as int));
                            assert(workspaces_of(scr)[j as int] == wix);
                            let k = choose|k: int| first_showing(scr, wix, k);
                            lemma_first_showing_unique(scr, wix, j as int, k);
                        }
                        Some(sc)
                    },
                    None => None,
                }
            },
            _ => {
                let r = self.screens.screen(selector);
                proof {
                    if let Selector::Condition(f) = selector {
                        if r is Some {
                            let i = choose|i: int| first_match(*f, scr, i) && r->0 == scr[i];
                            assert(first_match(*f, scr, i));
                        }
                    }
                }
                r
            },
        }
    }

    /// Move the focused client, if any, to the workspace shown on the screen that
    /// `selector` picks.
    pub fn client_to_screen(&mut self, selector: &Selector<'_, Screen>) -> (r: Result<Vec<WmStep>, PenroseError>)
        requires
            old(self).wf(),
            inserts_ok(old(self).workspaces),
            selector_callable(selector, old(self).screens.inner.elements@),
        ensures
            final(self).wf(),
            exists|pick: Option<Screen>|
                #![trigger screen_picked(*old(self), selector, pick)]
                screen_picked(*old(self), selector, pick) && match pick {
                    Some(sc) => client_sent(*old(self), *final(self), Some(sc.wix), result_steps(r)),
                    None => result_steps(r) == Ok::<Seq<WmStep>, PenroseError>(seq![]) && *final(self) == *old(self),
                },
    {
        let ghost before = *self;
        let ghost scr = self.screens.inner.elements@;
        let picked = self.screen(selector);
        let ghost pick = match picked {
            Some(sc) => Some(*sc),
            None => None,
        };
        let i = match picked {
            Some(sc) => sc.wix,
            None => {
                assert(screen_picked(before, selector, pick));
                return Ok(Vec::new());
            },
        };
        assert(screen_picked(before, selector, pick));
        let r = self.client_to_workspace(&Selector::Index(i));
        proof {
            let idx = choose|idx: Option<usize>| index_result(&Selector::<Workspace>::Index(i), before.workspaces.inner.elements@, before.workspaces.inner.focused as int, idx) && client_sent(before, *self, idx, result_steps(r));
            assert(idx == Some(i));
        }
        r
    }

    /// Move the focus to the next client of the active workspace in `direction`; see
    /// [client_cycled]. The client losing the focus is drawn unfocused, the new one
    /// is given the focus, and the cursor follows it.
    pub fn cycle_client(&mut self, direction: Direction) -> (r: Vec<WmStep>)
        requires
            old(self).wf(),
        ensures
            final(self).wf(),
            final(self).clients == old(self).clients,
            final(self).screens == old(self).screens,
            final(self).workspaces.inner.focused == old(self).workspaces.inner.focused,
            final(self).workspaces.previous_workspace == old(self).workspaces.previous_workspace,
            final(self).workspaces.client_insert_point == old(self).workspaces.client_insert_point,
            exists|c: Option<(Xid, Xid)>|
                #![trigger client_cycled(old(self).workspaces.inner.elements@[old(self).active() as int], final(self).workspaces.inner.elements@[old(self).active() as int], direction, c)]
                {
                    let ws = old(self).workspaces.inner.elements@;
                    let wix = old(self).active() as int;
                    &&& final(self).workspaces.inner.elements@ == ws.update(wix, final(self).workspaces.inner.elements@[wix])
                    &&& client_cycled(ws[wix], final(self).workspaces.inner.elements@[wix], direction, c)
                    &&& r@ == match c {
                        Some((prev, new)) => seq![
                            WmStep::Event(EventAction::ClientFocusLost(prev)),
                            WmStep::UpdateFocus(new),
                            WmStep::WarpCursor(Some(new)),
                        ],
                        None => seq![],
                    }
                },
    {
        let ghost ws = self.workspaces.inner.elements@;
        let f = self.screens.inner.focused;
        let wix = self.screens.inner.elements[f].wix;
        proof {
            assert(screens_ok(self.screens.inner.elements@, ws.len() as int));
        }
        let c = self.workspaces.cycle_client(wix, direction);
        proof {
            assert(self.workspaces.inner.elements@ =~= ws.update(wix as int, self.workspaces.inner.elements@[wix as int]));
        }
        let steps = match c {
            Some((prev, new)) => vec![
                WmStep::Event(EventAction::ClientFocusLost(prev)),
                WmStep::UpdateFocus(new),
                WmStep::WarpCursor(Some(new)),
            ],
            None => Vec::new(),
        };
        proof {
            assert(wix == old(self).active());
            assert(client_cycled(
                old(self).workspaces.inner.elements@[old(self).active() as int],
                self.workspaces.inner.elements@[old(self).active() as int],
                direction,
                c,
            ));
            assert(steps@ == match c {
                Some((prev, new)) => seq![
                    WmStep::Event(EventAction::ClientFocusLost(prev)),
                    WmStep::UpdateFocus(new),
                    WmStep::WarpCursor(Some(new)),
                ],
                None => seq![],
            });
        }
        steps
    }

    /// Drag the focused client through the stack of the active workspace; see
    /// [client_dragged]. The workspace is laid out again and the client keeps the
    /// focus, with the cursor on it. Nothing happens without a focused client.
    pub fn drag_client(&mut self, direction: Direction) -> (r: Vec<WmStep>)
        requires
            old(self).wf(),
        ensures
            final(self).wf(),
            final(self).clients == old(self).clients,
            final(self).screens == old(self).screens,
            final(self).workspaces.inner.focused == old(self).workspaces.inner.focused,
            final(self).workspaces.previous_workspace == old(self).workspaces.previous_workspace,
            final(self).workspaces.client_insert_point == old(self).workspaces.client_insert_point,
            match old(self).clients.focused_client_id {
                Some(id) => {
                    let ws = old(self).workspaces.inner.elements@;
                    let wix = old(self).active() as int;
                    &&& final(self).workspaces.inner.elements@ == ws.update(wix, final(self).workspaces.inner.elements@[wix])
                    &&& client_dragged(ws[wix], final(self).workspaces.inner.elements@[wix], direction)
                    &&& r@ == seq![
                        WmStep::ApplyLayout(wix as usize),
                        WmStep::UpdateFocus(id),
                        WmStep::WarpCursor(Some(id)),
                    ]
                },
                None => final(self).workspaces.inner.elements@ == old(self).workspaces.inner.elements@
                    && r@.len() == 0,
            },
    {
        let ghost ws = self.workspaces.inner.elements@;
        let id = match self.clients.focused_client_id {
            Some(id) => id,
            None => {
                return Vec::new();
            },
        };
        let f = self.screens.inner.focused;
        let wix = self.screens.inner.elements[f].wix;
        proof {
            assert(screens_ok(self.screens.inner.elements@, ws.len() as int));
        }
        self.workspaces.drag_client(wix, direction);
        proof {
            assert(self.workspaces.inner.elements@ =~= ws.update(wix as int, self.workspaces.inner.elements@[wix as int]));
        }
        vec![WmStep::ApplyLayout(wix), WmStep::UpdateFocus(id), WmStep::WarpCursor(Some(id))]
    }

    /// Show the previously active workspace again.
    pub fn toggle_workspace(&mut self) -> (r: Vec<WmStep>)
        requires
            old(self).wf(),
        ensures
            final(self).wf(),
            exists|idx: Option<usize>, same: bool|
                #![trigger focused_workspace(*old(self), *final(self), idx, same, r@)]
                idx == (if old(self).workspaces.previous_workspace < old(self).workspaces.inner.elements@.len() {
                    Some(old(self).workspaces.previous_workspace)
                } else {
                    None::<usize>
                }) && would_focus_result(
                    old(self).workspaces.inner.elements@,
                    old(self).workspaces.inner.focused as int,
                    old(self).active(),
                    &Selector::Index(old(self).workspaces.previous_workspace),
                    same,
                ) && focused_workspace(*old(self), *final(self), idx, same, r@),
    {
        let prev = self.workspaces.previous_workspace;
        self.focus_workspace(&Selector::Index(prev))
    }

    /// The ID at position `i` of the client stack of the active workspace.
    fn id_at_active(&self, i: usize) -> (r: Option<Xid>)
        requires
            self.wf(),
        ensures
            r == active_id_at(*self, i),
    {
        proof {
            assert(screens_ok(self.screens.inner.elements@, self.workspaces.inner.elements@.len() as int));
        }
        let f = self.screens.inner.focused;
        let wix = self.screens.inner.elements[f].wix;
        let ids = &self.workspaces.inner.elements[wix].clients.elements;
        if i < ids.len() {
            Some(ids[i])
        } else {
            None
        }
    }

    /// The client that `selector` picks: `Index(i)` is the client at position `i` of
    /// the client stack of the active workspace, and the other selectors pick among
    /// all tracked clients as [Clients::client] does.
    pub fn client(&self, selector: &Selector<'_, Client>) -> (r: Option<&Client>)
        requires
            self.wf(),
            condition_callable(selector, self.clients.inner@),
        ensures
            client_picked(*self, selector, deref_client(r)),
    {
        match selector {
            Selector::Index(i) => match self.id_at_active(*i) {
                Some(id) => self.clients.get(id),
                None => None,
            },
            _ => self.clients.client(selector),
        }
    }

    /// The ID under which the client that `selector` picks is tracked.
    fn picked_key(&self, selector: &Selector<'_, Client>) -> (r: Option<Xid>)
        requires
            self.wf(),
            condition_callable(selector, self.clients.inner@),
        ensures
            match r {
                Some(id) => id_picked(*self, selector, id),
                None => none_picked(*self, selector),
            },
    {
        match selector {
            Selector::Index(i) => match self.id_at_active(*i) {
                Some(id) => if self.clients.is_known(id) {
                    Some(id)
                } else {
                    None
                },
                None => None,
            },
            _ => self.clients.key_of(selector),
        }
    }

    /// The client that `selector` picks (see [WmState::client]), for modification.
    pub fn client_mut(&mut self, selector: &Selector<'_, Client>) -> (r: Option<&mut Client>)
        requires
            old(self).wf(),
            condition_callable(selector, old(self).clients.inner@),
        ensures
            final(self).screens == old(self).screens,
            final(self).workspaces == old(self).workspaces,
            final(self).clients.focused_client_id == old(self).clients.focused_client_id,
            final(self).clients.focused_border == old(self).clients.focused_border,
            final(self).clients.unfocused_border == old(self).clients.unfocused_border,
            match r {
                Some(c) => exists|id: Xid|
                    #![trigger old(self).clients.inner@[id]]
                    id_picked(*old(self), selector, id) && *c == old(self).clients.inner@[id]
                        && final(self).clients.inner@ == old(self).clients.inner@.insert(id, *final(c)),
                None => final(self).clients.inner@ == old(self).clients.inner@ && none_picked(*old(self), selector),
            },
    {
        match self.picked_key(selector) {
            Some(id) => self.clients.get_mut(id),
            None => None,
        }
    }

    /// Give the focus to the client that `selector` picks (see [WmState::client]) and
    /// move the cursor onto it, returning its ID with the steps; an error when the
    /// selector picks no client.
    pub fn focus_client(&mut self, selector: &Selector<'_, Client>) -> (r: Result<(Xid, Vec<WmStep>), PenroseError>)
        requires
            old(self).wf(),
            condition_callable(selector, old(self).clients.inner@),
        ensures
            final(self).wf(),
            r matches Err(e) ==> e is NoMatchingElement && none_picked(*old(self), selector) && *final(self)
                == *old(self),
            r matches Ok((id, steps)) ==> {
                &&& id_picked(*old(self), selector, id)
                &&& exists|s1: Seq<WmStep>|
                    #![trigger focus_moved(*old(self), *final(self), id, s1)]
                    focus_moved(*old(self), *final(self), id, s1) && steps@ == s1.push(WmStep::WarpCursor(Some(id)))
            },
    {
        let id = match self.picked_key(selector) {
            Some(id) => id,
            None => {
                return Err(PenroseError::NoMatchingElement);
            },
        };
        let mut steps = self.update_focus(id);
        steps.push(WmStep::WarpCursor(Some(id)));
        Ok((id, steps))
    }

    /// All the clients that `selector` picks, ordered by window ID: for `Index(i)` the
    /// client at position `i` of the client stack of the active workspace (if any),
    /// and for the other selectors those that [Clients::matching_clients] gives.
    pub fn all_clients(&self, selector: &Selector<'_, Client>) -> (r: Vec<&Client>)
        requires
            self.wf(),
            condition_callable(selector, self.clients.inner@),
        ensures
            match selector {
                Selector::Index(i) => r@.map_values(|c: &Client| *c) == match client_of(
                    self.clients.inner@,
                    active_id_at(*self, *i),
                ) {
                    Some(c) => seq![c],
                    None => Seq::<Client>::empty(),
                },
                _ => sorted_by_id(r@) && multi_lookup(selector, self.clients.inner@, self.clients.focused_client_id, r@),
            },
    {
        match selector {
            Selector::Index(i) => {
                let mut out: Vec<&Client> = Vec::new();
                match self.id_at_active(*i) {
                    Some(id) => match self.clients.get(id) {
                        Some(c) => out.push(c),
                        None => {},
                    },
                    None => {},
                }
                assert(out@.map_values(|c: &Client| *c) =~= match client_of(
                    self.clients.inner@,
                    active_id_at(*self, *i),
                ) {
                    Some(c) => seq![c],
                    None => Seq::<Client>::empty(),
                });
                out
            },
            _ => self.clients.matching_clients(selector),
        }
    }

    /// The index of the workspace shown on each screen, in screen order.
    pub fn focused_workspaces(&self) -> (r: Vec<usize>)
        ensures
            r@ == workspaces_of(self.screens.inner.elements@),
    {
        self.screens.visible_workspaces()
    }

    /// Lay out again the workspace shown on the screen at `screen_index`, if there is
    /// such a screen.
    pub fn layout_screen(&self, screen_index: usize) -> (r: Vec<WmStep>)
        ensures
            r@ == if screen_index < self.screens.inner.elements@.len() {
                seq![WmStep::ApplyLayout(self.screens.inner.elements@[screen_index as int].wix)]
            } else {
                Seq::<WmStep>::empty()
            },
    {
        match self.screens.get(screen_index) {
            Some(sc) => vec![WmStep::ApplyLayout(sc.wix)],
            None => Vec::new(),
        }
    }

    /// Ask the focused client, if any, to close its window. The client stays tracked
    /// until the X server reports its window destroyed.
    pub fn kill_client(&self) -> (r: Vec<WmStep>)
        ensures
            r@ == match self.clients.focused_client_id {
                Some(id) => seq![WmStep::KillClient(id)],
                None => Seq::<WmStep>::empty(),
            },
    {
        match self.clients.focused_client_id {
            Some(id) => vec![WmStep::KillClient(id)],
            None => Vec::new(),
        }
    }

    /// Move the active workspace to the next screen in `direction`: the focus moves to
    /// that screen (see [WmState::cycle_screen]) and the workspace is brought onto it
    /// (see [WmState::focus_workspace]), trading places with the workspace that screen
    /// showed. Nothing happens when the screen focus would wrap around.
    pub fn drag_workspace(&mut self, direction: Direction) -> (r: Vec<WmStep>)
        requires
            old(self).wf(),
        ensures
            final(self).wf(),
            ({
                let len = old(self).screens.inner.elements@.len() as int;
                let f = old(self).screens.inner.focused as int;
                if screen_wraps(f, len, direction) {
                    screen_refocused(*old(self), *final(self), f) && r@.len() == 0
                } else {
                    exists|mid: WmState, same: bool, r2: Seq<WmStep>|
                        #![trigger focused_workspace(mid, *final(self), Some(old(self).active()), same, r2)]
                        {
                            &&& screen_refocused(*old(self), mid, next_index(f, len, direction))
                            &&& would_focus_result(
                                mid.workspaces.inner.elements@,
                                mid.workspaces.inner.focused as int,
                                mid.active(),
                                &Selector::Index(old(self).active()),
                                same,
                            )
                            &&& focused_workspace(mid, *final(self), Some(old(self).active()), same, r2)
                            &&& r@ == seq![
                                WmStep::WarpCursor(None),
                                WmStep::Event(EventAction::RunHook(HookName::ScreenChange)),
                            ] + r2
                        }
                }
            }),
    {
        let ghost before = *self;
        let f = self.screens.inner.focused;
        let wix = self.screens.inner.elements[f].wix;
        let actions = self.screens.cycle_screen(direction);
        if actions.len() == 0 {
            return Vec::new();
        }
        let ghost mid = *self;
        proof {
            assert(mid.wf());
        }
        let mut steps: Vec<WmStep> = Vec::new();
        steps.push(WmStep::WarpCursor(None));
        steps.push(WmStep::Event(EventAction::RunHook(HookName::ScreenChange)));
        let ghost first = steps@;
        let mut more = self.focus_workspace(&Selector::Index(wix));
        let ghost r2 = more@;
        proof {
            let (idx, same) = choose|idx: Option<usize>, same: bool|
                would_focus_result(
                    mid.workspaces.inner.elements@,
                    mid.workspaces.inner.focused as int,
                    mid.active(),
                    &Selector::Index(wix),
                    same,
                ) && index_result(&Selector::Index(wix), mid.workspaces.inner.elements@, mid.workspaces.inner.focused as int, idx)
                    && focused_workspace(mid, *self, idx, same, r2);
            assert(idx == Some(wix));
            assert(focused_workspace(mid, *self, Some(before.active()), same, r2));
        }
        steps.append(&mut more);
        steps
    }

    /// The step for the X server reporting that `id` got the input focus: give it the
    /// focus, or ask it to take the focus when it does not accept input. A window that
    /// is not tracked is taken to accept input.
    pub fn focus_in(&self, id: Xid) -> (r: WmStep)
        ensures
            r == WmStep::SetXFocus(
                id,
                match client_of(self.clients.inner@, Some(id)) {
                    Some(c) => c.accepts_focus,
                    None => true,
                },
            ),
    {
        let accepts = match self.clients.get(id) {
            Some(c) => c.accepts_focus,
            None => true,
        };
        WmStep::SetXFocus(id, accepts)
    }

    /// Whether `id` is a tracked client that floats, so that a request to move it is
    /// followed.
    pub fn is_floating(&self, id: Xid) -> (r: bool)
        ensures
            r == (client_of(self.clients.inner@, Some(id)) matches Some(c) && c.floating),
    {
        match self.clients.get(id) {
            Some(c) => c.floating,
            None => false,
        }
    }

    /// Make the client `id` the active one at the request of another program: it gets
    /// the focus (see [WmState::update_focus]) and the cursor moves onto it. An error
    /// when `id` is not a tracked client.
    pub fn set_active_client(&mut self, id: Xid) -> (r: Result<Vec<WmStep>, PenroseError>)
        requires
            old(self).wf(),
        ensures
            final(self).wf(),
            !old(self).clients.inner@.contains_key(id) ==> (r matches Err(e) && e == PenroseError::UnknownClient(id)
                && *final(self) == *old(self)),
            old(self).clients.inner@.contains_key(id) ==> (r matches Ok(steps) && exists|s1: Seq<WmStep>|
                #![trigger focus_moved(*old(self), *final(self), id, s1)]
                focus_moved(*old(self), *final(self), id, s1) && steps@ == s1.push(WmStep::WarpCursor(Some(id)))),
    {
        if !self.clients.is_known(id) {
            return Err(PenroseError::UnknownClient(id));
        }
        let mut steps = self.update_focus(id);
        steps.push(WmStep::WarpCursor(Some(id)));
        Ok(steps)
    }

    /// Move the screen focus one screen in `direction` unless that would wrap around.
    /// When it moves, the cursor goes to the newly focused screen and the actions of a
    /// screen change follow: its workspace becomes the active one and the
    /// screen-change hook runs.
    pub fn cycle_screen(&mut self, direction: Direction) -> (r: Vec<WmStep>)
        requires
            old(self).wf(),
        ensures
            final(self).wf(),
            ({
                let len = old(self).screens.inner.elements@.len() as int;
                let f = old(self).screens.inner.focused as int;
                if screen_wraps(f, len, direction) {
                    screen_refocused(*old(self), *final(self), f) && r@.len() == 0
                } else {
                    let g = next_index(f, len, direction);
                    &&& screen_refocused(*old(self), *final(self), g)
                    &&& r@ == seq![
                        WmStep::WarpCursor(None),
                        WmStep::Event(EventAction::SetActiveWorkspace(old(self).screens.inner.elements@[g].wix)),
                        WmStep::Event(EventAction::RunHook(HookName::ScreenChange)),
                    ]
                }
            }),
    {
        let actions = self.screens.cycle_screen(direction);
        let mut steps: Vec<WmStep> = Vec::new();
        if actions.len() > 0 {
            steps.push(WmStep::WarpCursor(None));
        }
        push_events(&mut steps, actions);
        steps
    }

    /// Take on the client `c`, found when the window manager starts; see
    /// [existing_added].
    fn manage_existing_client(&mut self, c: Client) -> (r: Result<Vec<WmStep>, PenroseError>)
        requires
            old(self).wf(),
            inserts_ok(old(self).workspaces),
        ensures
            final(self).wf(),
            inserts_ok(final(self).workspaces),
            existing_added(*old(self), *final(self), c, result_steps(r)),
    {
        let ghost before = *self;
        let id = c.id;
        let wix = c.workspace;
        proof {
            if wix < self.workspaces.inner.elements@.len() {
                let w = self.workspaces.inner.elements@[wix as int];
                assert(insert_point_ok(
                    self.workspaces.client_insert_point,
                    w.clients.focused as int,
                    w.clients.elements@.len() as int,
                ));
            }
        }
        let added = match self.workspaces.add_client(wix, id) {
            Ok(a) => a,
            Err(e) => {
                return Err(e);
            },
        };
        self.clients.insert(id, c);
        let mut steps: Vec<WmStep> = Vec::new();
        match added {
            Some(action) => {
                steps.push(WmStep::SetClientWorkspace(id, wix));
                steps.push(WmStep::Event(action));
            },
            None => {},
        }
        steps.push(WmStep::UnmapIfNeeded(id));
        steps.push(WmStep::MarkNewClient(id));
        proof {
            let ws0 = before.workspaces.inner.elements@;
            let ws1 = self.workspaces.inner.elements@;
            assert(steps@ =~= existing_steps(id, wix, wix < ws0.len()));
            if wix < ws0.len() {
                assert(ws1 =~= ws0.update(wix as int, ws1[wix as int]));
                assert(ws1[wix as int].wf());
            }
            assert forall|j: int| 0 <= j < ws1.len() implies insert_point_ok(
                self.workspaces.client_insert_point,
                #[trigger] ws1[j].clients.focused as int,
                ws1[j].clients.elements@.len() as int,
            ) by {
                assert(ws1[j].wf());
                assert(insert_point_ok(
                    before.workspaces.client_insert_point,
                    ws0[j].clients.focused as int,
                    ws0[j].clients.elements@.len() as int,
                ));
            }
        }
        Ok(steps)
    }

    /// Take on the clients that were running when the window manager started, in
    /// order (see [existing_added]), stopping at the first that its workspace holds
    /// already. When all are taken on, the focused client of the first workspace gets
    /// the focus, the X server is told which clients are known, and the visible
    /// workspaces are laid out.
    pub fn manage_existing(&mut self, clients: Vec<Client>) -> (r: Result<Vec<WmStep>, PenroseError>)
        requires
            old(self).wf(),
            inserts_ok(old(self).workspaces),
        ensures
            final(self).wf(),
            existing_managed(*old(self), *final(self), clients@, result_steps(r)),
    {
        let ghost all = clients@;
        let ghost mut states: Seq<WmState> = seq![*self];
        let ghost mut rs: Seq<Result<Seq<WmStep>, PenroseError>> = seq![];
        let mut steps: Vec<WmStep> = Vec::new();
        let n = clients.len();
        let mut rest = clients;
        let mut i: usize = 0;
        while rest.len() > 0
            invariant
                all.len() == n,
                all == clients@,
                self.wf(),
                inserts_ok(self.workspaces),
                i + rest@.len() == all.len(),
                rest@ == all.skip(i as int),
                states.len() == i + 1,
                rs.len() == i,
                states[0] == *old(self),
                states.last() == *self,
                forall|j: int| 0 <= j < i ==> #[trigger] existing_added(states[j], states[j + 1], all[j], rs[j]),
                forall|j: int| 0 <= j < i ==> (#[trigger] rs[j]) is Ok,
                steps@ == ok_steps(rs),
            decreases rest@.len(),
        {
            let c = rest.remove(0);
            assert(c == all[i as int]);
            let ghost prev_states = states;
            let ghost prev_rs = rs;
            let r1 = self.manage_existing_client(c);
            proof {
                states = states.push(*self);
                rs = rs.push(result_steps(r1));
                assert(rs.drop_last() =~= prev_rs);
                assert forall|j: int| 0 <= j < i + 1 implies #[trigger] existing_added(states[j], states[j + 1], all[j], rs[j]) by {
                    if j < i {
                        assert(states[j] == prev_states[j]);
                        assert(states[j + 1] == prev_states[j + 1]);
                        assert(rs[j] == prev_rs[j]);
                    }
                }
                assert forall|j: int| 0 <= j < i implies (#[trigger] rs[j]) is Ok by {
                    assert(rs[j] == prev_rs[j]);
                }
            }
            match r1 {
                Ok(v) => {
                    let mut v = v;
                    steps.append(&mut v);
                    i = i + 1;
                },
                Err(e) => {
                    proof {
                        assert(existing_run(states, all, rs));
                        assert(same_state(states.last(), *self));
                        assert(rs.last() == result_steps(Err::<Vec<WmStep>, PenroseError>(e)));
                        assert(all == clients@);
                        assert(existing_run(states, clients@, rs));
                        assert(existing_managed(*old(self), *self, clients@, Err(e)));
                    }
                    return Err(e);
                },
            }
        }
        let focus = self.workspaces.focused_client(0);
        match focus {
            Some(id) => steps.push(WmStep::UpdateFocus(id)),
            None => {},
        }
        steps.push(WmStep::UpdateKnownClients);
        steps.push(WmStep::Event(EventAction::LayoutVisible));
        proof {
            assert(existing_run(states, all, rs));
            assert(same_state(states.last(), *self));
            assert(steps@ =~= ok_steps(rs) + focus_step(states.last().workspaces.inner.elements@[0])
                + seq![WmStep::UpdateKnownClients, WmStep::Event(EventAction::LayoutVisible)]);
            assert(existing_run(states, clients@, rs));
        }
        Ok(steps)
    }
}

/// Going back to the previous workspace undoes focusing another one: after focusing a
/// workspace other than the active one and then the previous workspace, the screens
/// show what they showed before, and the active workspace is the one it was.
pub proof fn lemma_toggle_undoes_focus(
    s0: WmState,
    s1: WmState,
    s2: WmState,
    k: usize,
    r1: Seq<WmStep>,
    r2: Seq<WmStep>,
)
    requires
        s0.wf(),
        k < s0.workspaces.inner.elements@.len(),
        k != s0.active(),
        focused_workspace(s0, s1, Some(k), false, r1),
        focused_workspace(s1, s2, Some(s1.workspaces.previous_workspace), false, r2),
    ensures
        s2.screens.inner.elements@ == s0.screens.inner.elements@,
        s2.active() == s0.active(),
{
    let scr0 = s0.screens.inner.elements@;
    let scr1 = s1.screens.inner.elements@;
    let f = s0.screens.inner.focused as int;
    let a0 = s0.active();
    assert(s1.workspaces.previous_workspace == a0);
    assert(s1.active() == k);
    if workspaces_of(scr0).contains(k) {
        let j = choose|j: int| first_showing(scr0, k, j) && scr1 == scr0.update(j, showing(scr0[j], a0)).update(
            f,
            showing(scr0[f], k),
        );
        assert(j != f);
        assert(scr1[j].wix == a0);
        assert(workspaces_of(scr1)[j] == a0);
        assert(first_showing(scr1, a0, j)) by {
            assert forall|q: int| 0 <= q < j implies #[trigger] scr1[q].wix != a0 by {
                if q != f {
                    assert(scr1[q] == scr0[q]);
                    assert(scr0[q].wix != scr0[f].wix);
                }
            }
        }
        let j2 = choose|j2: int| first_showing(scr1, a0, j2) && s2.screens.inner.elements@ == scr1.update(
            j2,
            showing(scr1[j2], k),
        ).update(f, showing(scr1[f], a0));
        lemma_first_showing_unique(scr1, a0, j, j2);
        assert(s2.screens.inner.elements@ =~= scr0);
    } else {
        assert(scr1 == scr0.update(f, showing(scr0[f], a0 as usize)).update(f, showing(scr0[f], k)));
        assert(!workspaces_of(scr1).contains(a0)) by {
            if workspaces_of(scr1).contains(a0) {
                let q = choose|q: int| 0 <= q < workspaces_of(scr1).len() && workspaces_of(scr1)[q] == a0;
                assert(scr1[q].wix == a0);
                assert(q != f);
                assert(scr0[q].wix != scr0[f].wix);
            }
        }
        assert(s2.screens.inner.elements@ =~= scr0);
    }
}

} // verus!

//! Management of screens
use vstd::prelude::*;

use crate::wm::data_types::Region;
use crate::wm::hooks::HookName;
use crate::wm::manager::event::EventAction;
use crate::wm::manager::state::screens_ok;
use crate::wm::ring::{
    element_result, next_index, refocused, selector_callable, Direction, Ring, Selector,
};
use crate::wm::screen::{bar_fits, effective_for, Screen};

verus! {

/// State and management of screens being layed out by the window manager.
#[derive(Debug)]
pub struct Screens {
    /// The connected screens, one of them focused
    pub inner: Ring<Screen>,
    /// The height of the status bar, if one is shown
    pub bar_height: u32,
    /// Whether the status bar is at the top of each screen
    pub top_bar: bool,
}

/// The workspace shown on each screen, in order.
pub open spec fn workspaces_of(screens: Seq<Screen>) -> Seq<usize> {
    screens.map_values(|s: Screen| s.wix)
}

/// The order in which workspaces are handed out to detected screens: those
/// currently visible, in screen order, followed by every other workspace index
/// below `n` in increasing order.
pub open spec fn workspace_ordering(visible: Seq<usize>, n: nat) -> Seq<usize>
    decreases n,
{
    if n == 0 {
        visible
    } else {
        let prev = workspace_ordering(visible, (n - 1) as nat);
        if visible.contains((n - 1) as usize) {
            prev
        } else {
            prev.push((n - 1) as usize)
        }
    }
}

/// The smaller of two lengths.
pub open spec fn min_len(a: int, b: int) -> int {
    if a < b {
        a
    } else {
        b
    }
}

/// The screens that result from pairing each detected screen with the next
/// workspace in `ordering`, reserving space for the bar on each.
pub open spec fn assigned_screens(
    detected: Seq<Screen>,
    ordering: Seq<usize>,
    bar_height: u32,
    top_bar: bool,
) -> Seq<Screen> {
    Seq::new(
        min_len(detected.len() as int, ordering.len() as int) as nat,
        |i: int|
            Screen {
                wix: ordering[i],
                true_region: detected[i].true_region,
                effective_region: effective_for(detected[i].true_region, bar_height, top_bar),
            },
    )
}

/// The actions raised when the focused screen changes to one showing workspace `wix`.
pub open spec fn screen_change_actions(wix: usize) -> Seq<EventAction> {
    seq![EventAction::SetActiveWorkspace(wix), EventAction::RunHook(HookName::ScreenChange)]
}

fn contains_index(v: &Vec<usize>, upto: usize, x: usize) -> (r: bool)
    requires
        upto <= v@.len(),
    ensures
        r == v@.take(upto as int).contains(x),
{
    let mut i: usize = 0;
    while i < upto
        invariant
            i <= upto <= v@.len(),
            forall|j: int| 0 <= j < i ==> v@[j] != x,
        decreases upto - i,
    {
        if v[i] == x {
            assert(v@.take(upto as int)[i as int] == x);
            return true;
        }
        i += 1;
    }
    proof {
        if v@.take(upto as int).contains(x) {
            let k = choose|k: int| 0 <= k < upto && v@.take(upto as int)[k] == x;
            assert(v@[k] == x);
        }
    }
    false
}

fn screens_equal(a: &Vec<Screen>, b: &Vec<Screen>) -> (r: bool)
    ensures
        r == (a@ == b@),
{
    if a.len() != b.len() {
        return false;
    }
    let mut i: usize = 0;
    while i < a.len()
        invariant
            i <= a@.len() == b@.len(),
            forall|j: int| 0 <= j < i ==> a@[j] == b@[j],
        decreases a@.len() - i,
    {
        if a[i] != b[i] {
            return false;
        }
        i += 1;
    }
    assert(a@ =~= b@);
    true
}

impl Screens {
    /// Create a new [Screens] with no screens detected yet.
    pub fn new(bar_height: u32, top_bar: bool) -> (r: Self)
        ensures
            r.inner.elements@.len() == 0,
            r.inner.focused == 0,
            r.bar_height == bar_height,
            r.top_bar == top_bar,
    {
        Self { inner: Ring::new(Vec::new()), bar_height, top_bar }
    }

    /// The first screen showing workspace `wix`, with its index. `None` if the
    /// workspace is not currently visible.
    pub fn indexed_screen_for_workspace(&self, wix: usize) -> (r: Option<(usize, &Screen)>)
        ensures
            match r {
                Some((i, s)) => i < self.inner.elements@.len() && *s == self.inner.elements@[i as int]
                    && s.wix == wix && forall|j: int| 0 <= j < i ==> #[trigger] self.inner.elements@[j].wix != wix,
                None => !workspaces_of(self.inner.elements@).contains(wix),
            },
    {
        let mut i: usize = 0;
        while i < self.inner.elements.len()
            invariant
                i <= self.inner.elements@.len(),
                forall|j: int| 0 <= j < i ==> #[trigger] self.inner.elements@[j].wix != wix,
            decreases self.inner.elements@.len() - i,
        {
            if self.inner.elements[i].wix == wix {
                return Some((i, &self.inner.elements[i]));
            }
            i += 1;
        }
        proof {
            if workspaces_of(self.inner.elements@).contains(wix) {
                let k = choose|k: int|
                    0 <= k < workspaces_of(self.inner.elements@).len() && workspaces_of(
                        self.inner.elements@,
                    )[k] == wix;
                assert(self.inner.elements@[k].wix == wix);
            }
        }
        None
    }

    /// The currently focused screen. There is always at least one screen attached.
    pub fn focused(&self) -> (r: &Screen)
        requires
            self.inner.focused < self.inner.elements@.len(),
        ensures
            *r == self.inner.elements@[self.inner.focused as int],
    {
        self.inner.focused_unchecked()
    }

    /// A mutable reference to the currently focused screen.
    pub(crate) fn focused_mut(&mut self) -> (r: &mut Screen)
        requires
            old(self).inner.focused < old(self).inner.elements@.len(),
        ensures
            *r == old(self).inner.elements@[old(self).inner.focused as int],
            final(self).inner.focused == old(self).inner.focused,
            final(self).inner.elements@ == old(self).inner.elements@.update(
                old(self).inner.focused as int,
                *final(r),
            ),
            final(self).bar_height == old(self).bar_height,
            final(self).top_bar == old(self).top_bar,
    {
        self.inner.focused_mut_unchecked()
    }

    /// Get a reference to the [Screen] at the requested index if it exists
    pub fn get(&self, index: usize) -> (r: Option<&Screen>)
        ensures
            index < self.inner.elements@.len() ==> r == Some(&self.inner.elements@[index as int]),
            index >= self.inner.elements@.len() ==> r is None,
    {
        self.inner.get(index)
    }

    /// The currently focused screen index
    pub fn focused_index(&self) -> (r: usize)
        ensures
            r == self.inner.focused,
    {
        self.inner.focused_index()
    }

    /// The ordered list of currently visible workspace indices (one per screen).
    pub fn visible_workspaces(&self) -> (r: Vec<usize>)
        ensures
            r@ == workspaces_of(self.inner.elements@),
    {
        let mut out: Vec<usize> = Vec::new();
        let mut i: usize = 0;
        while i < self.inner.elements.len()
            invariant
                i <= self.inner.elements@.len(),
                out@ == workspaces_of(self.inner.elements@.take(i as int)),
            decreases self.inner.elements@.len() - i,
        {
            proof {
                assert(workspaces_of(self.inner.elements@.take(i + 1)) =~= workspaces_of(
                    self.inner.elements@.take(i as int),
                ).push(self.inner.elements@[i as int].wix));
            }
            out.push(self.inner.elements[i].wix);
            i += 1;
        }
        assert(self.inner.elements@.take(i as int) =~= self.inner.elements@);
        out
    }

    /// Get a reference to the first Screen satisfying 'selector'.
    /// NOTE: It is not possible to get a mutable reference to a Screen.
    pub fn screen(&self, selector: &Selector<'_, Screen>) -> (r: Option<&Screen>)
        requires
            selector_callable(selector, self.inner.elements@),
        ensures
            element_result(
                selector,
                self.inner.elements@,
                self.inner.focused as int,
                match r {
                    Some(s) => Some(*s),
                    None => None,
                },
            ),
    {
        self.inner.element(selector)
    }

    /// The number of detected screens currently being tracked by the WindowManager.
    pub fn n_screens(&self) -> (r: usize)
        ensures
            r == self.inner.elements@.len(),
    {
        self.inner.len()
    }

    /// The current effective screen size of the target screen. Effective screen size is the
    /// physical screen size minus any space reserved for a status bar.
    pub fn screen_size(&self, index: usize, bar_visible: bool) -> (r: Option<Region>)
        ensures
            index < self.inner.elements@.len() ==> r == Some(
                if bar_visible {
                    self.inner.elements@[index as int].effective_region
                } else {
                    self.inner.elements@[index as int].true_region
                },
            ),
            index >= self.inner.elements@.len() ==> r is None,
    {
        match self.inner.get(index) {
            Some(s) => Some(s.region(bar_visible)),
            None => None,
        }
    }

    /// The index of the currently focused screen
    pub fn active_screen_index(&self) -> (r: usize)
        ensures
            r == self.inner.focused,
    {
        self.inner.focused_index()
    }

    /// The index of the active Workspace
    pub fn active_ws_index(&self) -> (r: usize)
        requires
            self.inner.focused < self.inner.elements@.len(),
        ensures
            r == self.inner.elements@[self.inner.focused as int].wix,
    {
        self.inner.focused_unchecked().wix
    }

    /// Update the known screens from those currently `detected` by the X server.
    ///
    /// Detected screens keep showing the workspaces that are visible now, in order,
    /// and any further screens take the lowest workspace index not yet visible. If
    /// this changes the screens then they are replaced (focusing the first) and the
    /// visible workspaces need laying out again.
    pub fn update_known_screens(&mut self, detected: Vec<Screen>, n_workspaces: usize) -> (r: Vec<EventAction>)
        requires
            forall|i: int|
                0 <= i < min_len(
                    detected@.len() as int,
                    workspace_ordering(
                        workspaces_of(old(self).inner.elements@),
                        n_workspaces as nat,
                    ).len() as int,
                ) ==> bar_fits(
                    #[trigger] detected@[i].true_region,
                    old(self).bar_height,
                    old(self).top_bar,
                ),
        ensures
            final(self).bar_height == old(self).bar_height,
            final(self).top_bar == old(self).top_bar,
            ({
                let new_screens = assigned_screens(
                    detected@,
                    workspace_ordering(
                        workspaces_of(old(self).inner.elements@),
                        n_workspaces as nat,
                    ),
                    old(self).bar_height,
                    old(self).top_bar,
                );
                if new_screens != old(self).inner.elements@ {
                    &&& final(self).inner.elements@ == new_screens
                    &&& final(self).inner.focused == 0
                    &&& r@ == seq![
                        EventAction::LayoutVisible,
                        EventAction::RunHook(HookName::ScreenUpdated),
                    ]
                } else {
                    &&& final(self).inner.elements@ == old(self).inner.elements@
                    &&& final(self).inner.focused == old(self).inner.focused
                    &&& r@.len() == 0
                }
            }),
    {
        let ghost visible = workspaces_of(self.inner.elements@);
        let mut ordering = self.visible_workspaces();
        let n_visible = ordering.len();
        let mut w: usize = 0;
        while w < n_workspaces
            invariant
                w <= n_workspaces,
                n_visible == visible.len(),
                ordering@ == workspace_ordering(visible, w as nat),
                ordering@.take(n_visible as int) == visible,
            decreases n_workspaces - w,
        {
            proof {
                lemma_ordering_prefix(visible, w as nat);
            }
            if !contains_index(&ordering, n_visible, w) {
                ordering.push(w);
                assert(ordering@.take(n_visible as int) =~= visible);
            }
            w += 1;
        }
        let ghost ord = ordering@;
        proof {
            lemma_ordering_prefix(visible, n_workspaces as nat);
        }

        let k = if detected.len() < ordering.len() {
            detected.len()
        } else {
            ordering.len()
        };
        let mut new_screens: Vec<Screen> = Vec::new();
        let mut i: usize = 0;
        while i < k
            invariant
                i <= k,
                k == min_len(detected@.len() as int, ord.len() as int),
                ordering@ == ord,
                ord == workspace_ordering(visible, n_workspaces as nat),
                visible == workspaces_of(old(self).inner.elements@),
                self.bar_height == old(self).bar_height,
                self.top_bar == old(self).top_bar,
                forall|j: int|
                    0 <= j < k ==> bar_fits(
                        #[trigger] detected@[j].true_region,
                        self.bar_height,
                        self.top_bar,
                    ),
                new_screens@ == assigned_screens(
                    detected@,
                    ord,
                    self.bar_height,
                    self.top_bar,
                ).take(i as int),
            decreases k - i,
        {
            let mut s = detected[i];
            s.update_effective_region(self.bar_height, self.top_bar);
            s.wix = ordering[i];
            new_screens.push(s);
            proof {
                assert(new_screens@ =~= assigned_screens(
                    detected@,
                    ord,
                    self.bar_height,
                    self.top_bar,
                ).take(i + 1));
            }
            i += 1;
        }
        proof {
            assert(new_screens@ =~= assigned_screens(detected@, ord, self.bar_height, self.top_bar));
        }

        if !screens_equal(&self.inner.elements, &new_screens) {
            self.inner = Ring::new(new_screens);
            vec![EventAction::LayoutVisible, EventAction::RunHook(HookName::ScreenUpdated)]
        } else {
            Vec::new()
        }
    }

    /// Focus the screen chosen by `sel`, returning the actions to run if the focus moved.
    pub fn focus_screen(&mut self, sel: &Selector<'_, Screen>) -> (r: Vec<EventAction>)
        requires
            selector_callable(sel, old(self).inner.elements@),
            (sel is Focused || sel is Any) ==> old(self).inner.focused < old(
                self,
            ).inner.elements@.len(),
        ensures
            final(self).inner.elements@ == old(self).inner.elements@,
            final(self).bar_height == old(self).bar_height,
            final(self).top_bar == old(self).top_bar,
            refocused(
                sel,
                old(self).inner.elements@,
                old(self).inner.focused as int,
                final(self).inner.focused as int,
            ),
            if final(self).inner.focused != old(self).inner.focused && final(self).inner.focused
                < old(self).inner.elements@.len() {
                r@ == screen_change_actions(
                    final(self).inner.elements@[final(self).inner.focused as int].wix,
                )
            } else {
                r@.len() == 0
            },
    {
        match self.inner.focus(sel) {
            Some((true, focused)) => vec![
                EventAction::SetActiveWorkspace(focused.wix),
                EventAction::RunHook(HookName::ScreenChange),
            ],
            _ => Vec::new(),
        }
    }

    /// Move the focus one screen in `direction` unless that would wrap around,
    /// returning the actions to run if the focus moved. When it moves, the caller
    /// warps the cursor onto the newly focused screen.
    pub fn cycle_screen(&mut self, direction: Direction) -> (r: Vec<EventAction>)
        requires
            old(self).inner.elements@.len() > 0,
            old(self).inner.focused < old(self).inner.elements@.len(),
        ensures
            final(self).inner.elements@ == old(self).inner.elements@,
            final(self).bar_height == old(self).bar_height,
            final(self).top_bar == old(self).top_bar,
            ({
                let len = old(self).inner.elements@.len() as int;
                let f = old(self).inner.focused as int;
                let wraps = (f == 0 && direction == Direction::Backward) || (f == len - 1
                    && direction == Direction::Forward);
                if wraps {
                    final(self).inner.focused == old(self).inner.focused && r@.len() == 0
                } else {
                    &&& final(self).inner.focused == next_index(f, len, direction)
                    &&& r@ == screen_change_actions(
                        final(self).inner.elements@[final(self).inner.focused as int].wix,
                    )
                }
            }),
    {
        if !self.inner.would_wrap(direction) {
            self.inner.cycle_focus(direction);
            let focused = self.inner.focused_unchecked();
            vec![
                EventAction::SetActiveWorkspace(focused.wix),
                EventAction::RunHook(HookName::ScreenChange),
            ]
        } else {
            Vec::new()
        }
    }
}

/// The visible workspaces come first in the workspace ordering, unchanged.
proof fn lemma_ordering_prefix(visible: Seq<usize>, n: nat)
    ensures
        workspace_ordering(visible, n).len() >= visible.len(),
        workspace_ordering(visible, n).take(visible.len() as int) == visible,
    decreases n,
{
    if n > 0 {
        lemma_ordering_prefix(visible, (n - 1) as nat);
        let prev = workspace_ordering(visible, (n - 1) as nat);
        if !visible.contains((n - 1) as usize) {
            assert(prev.push((n - 1) as usize).take(visible.len() as int) =~= prev.take(
                visible.len() as int,
            ));
        }
    } else {
        assert(visible.take(visible.len() as int) =~= visible);
    }
}

/// Every workspace index below `n` is handed out somewhere in the workspace ordering.
pub proof fn lemma_ordering_covers_workspaces(visible: Seq<usize>, n: nat, w: usize)
    requires
        w < n,
    ensures
        workspace_ordering(visible, n).contains(w),
    decreases n,
{
    let prev = workspace_ordering(visible, (n - 1) as nat);
    if w < n - 1 {
        lemma_ordering_covers_workspaces(visible, (n - 1) as nat, w);
        let k = choose|k: int| 0 <= k < prev.len() && prev[k] == w;
        if !visible.contains((n - 1) as usize) {
            assert(prev.push((n - 1) as usize)[k] == w);
        }
    } else {
        if visible.contains(w) {
            lemma_ordering_prefix(visible, (n - 1) as nat);
            let k = choose|k: int| 0 <= k < visible.len() && visible[k] == w;
            assert(prev.take(visible.len() as int)[k] == w);
            assert(prev[k] == w);
        } else {
            assert(prev.push(w)[prev.len() as int] == w);
        }
    }
}

/// What the workspace ordering holds: the visible workspaces and indices below `n`.
proof fn lemma_ordering_members(visible: Seq<usize>, n: nat, x: usize)
    ensures
        workspace_ordering(visible, n).contains(x) ==> visible.contains(x) || x < n,
    decreases n,
{
    if n > 0 {
        lemma_ordering_members(visible, (n - 1) as nat, x);
        let prev = workspace_ordering(visible, (n - 1) as nat);
        if !visible.contains((n - 1) as usize) && prev.push((n - 1) as usize).contains(x) {
            let k = choose|k: int| 0 <= k < prev.len() + 1 && #[trigger] prev.push((n - 1) as usize)[k] == x;
            if k < prev.len() {
                assert(prev[k] == x);
            }
        }
    }
}

/// The workspace ordering holds each index once when the visible workspaces do.
proof fn lemma_ordering_distinct(visible: Seq<usize>, n: nat)
    requires
        visible.no_duplicates(),
        n <= usize::MAX,
    ensures
        workspace_ordering(visible, n).no_duplicates(),
    decreases n,
{
    if n > 0 {
        lemma_ordering_distinct(visible, (n - 1) as nat);
        let prev = workspace_ordering(visible, (n - 1) as nat);
        let w = (n - 1) as usize;
        if !visible.contains(w) {
            lemma_ordering_members(visible, (n - 1) as nat, w);
            assert(!prev.contains(w));
            assert forall|i: int, j: int| 0 <= i < j < prev.push(w).len() implies prev.push(w)[i] != prev.push(w)[j] by {
                assert(prev.push(w)[i] == prev[i]);
                if j == prev.len() {
                    assert(prev.push(w)[j] == w);
                    assert(prev.contains(prev[i]));
                } else {
                    assert(prev.push(w)[j] == prev[j]);
                }
            }
        }
    }
}

/// Detecting screens keeps each workspace on at most one screen: when the known
/// screens show different workspaces below `n`, so do the screens that the detected
/// ones become.
pub proof fn lemma_detected_screens_distinct(
    detected: Seq<Screen>,
    known: Seq<Screen>,
    n: nat,
    bar_height: u32,
    top_bar: bool,
)
    requires
        screens_ok(known, n as int),
        n <= usize::MAX,
    ensures
        screens_ok(
            assigned_screens(detected, workspace_ordering(workspaces_of(known), n), bar_height, top_bar),
            n as int,
        ),
{
    let visible = workspaces_of(known);
    let ord = workspace_ordering(visible, n);
    let out = assigned_screens(detected, ord, bar_height, top_bar);
    assert(visible.no_duplicates()) by {
        assert forall|i: int, j: int| 0 <= i < visible.len() && 0 <= j < visible.len() && i != j implies visible[i] != visible[j] by {
            assert(known[i].wix != known[j].wix);
        }
    }
    lemma_ordering_distinct(visible, n);
    assert forall|i: int| 0 <= i < out.len() implies #[trigger] out[i].wix < n by {
        assert(ord.contains(ord[i]));
        lemma_ordering_members(visible, n, ord[i]);
        if visible.contains(ord[i]) {
            let q = choose|q: int| 0 <= q < visible.len() && visible[q] == ord[i];
            assert(known[q].wix < n);
        }
    }
}

} // verus!

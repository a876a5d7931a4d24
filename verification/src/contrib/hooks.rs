//! Additional common hooks, and the decisions they make.
use vstd::prelude::*;

use crate::wm::client::{class_name, Client};
use crate::wm::data_types::RelativePosition;
use crate::wm::key_text::same_text;
use crate::wm::manager::state::{existing_managed, inserts_ok, result_steps, WmState, WmStep};
use crate::wm::xconnection::Xid;
use crate::PenroseError;

verus! {

/// Set the X root window name to the name of the active window.
#[derive(Clone, Copy, Debug, PartialEq, Eq, Hash)]
pub struct ActiveClientAsRootName {}

impl ActiveClientAsRootName {
    /// Construct a pre-boxed instance of the ActiveClientAsRootName hook
    pub fn new() -> (r: Box<Self>) {
        Box::new(Self {})
    }

    /// When the client `id` is new: name the root window after it.
    pub fn new_client(&self, state: &WmState, id: Xid) -> (r: Vec<WmStep>)
        requires
            state.clients.inner@.contains_key(id),
        ensures
            r@.len() == 1,
            r@[0] matches WmStep::SetRootWindowName(n) && n@ == state.clients.inner@[id].wm_name@,
    {
        let name = match state.clients.get(id) {
            Some(c) => c.wm_name.as_str().to_owned(),
            None => String::new(),
        };
        vec![WmStep::SetRootWindowName(name)]
    }
}

/// Set the X root window name to the layout symbol of the active workspace.
#[derive(Clone, Copy, Debug, PartialEq, Eq, Hash)]
pub struct LayoutSymbolAsRootName {}

impl LayoutSymbolAsRootName {
    /// Construct a pre-boxed instance of the LayoutSymbolAsRootName hook
    pub fn new() -> (r: Box<Self>) {
        Box::new(Self {})
    }

    /// When the layout changes: name the root window after the symbol of the active
    /// layout of the active workspace.
    pub fn layout_change(&self, state: &WmState) -> (r: Vec<WmStep>)
        requires
            state.wf(),
        ensures
            r@.len() == 1,
            r@[0] matches WmStep::SetRootWindowName(n) && n@ == state.workspaces.inner.elements@[state.active() as int].active_layout().symbol@,
    {
        let f = state.screens.inner.focused;
        let wix = state.screens.inner.elements[f].wix;
        let symbol = state.workspaces.current_layout_symbol(wix).to_owned();
        vec![WmStep::SetRootWindowName(symbol)]
    }
}

/// Whenever focus moves to the workspace `name` and it is empty, set a specific
/// layout and spawn a set of default clients.
#[derive(Clone, Debug, PartialEq, Eq, Hash)]
pub struct DefaultWorkspace {
    /// The programs to spawn
    pub defaults: Vec<String>,
    /// The symbol of the layout to set
    pub layout: String,
    /// The name of the workspace
    pub name: String,
}

impl DefaultWorkspace {
    /// Create a new DefaultWorkspace that is pre-boxed for adding to your workspace hooks
    pub fn new(name: String, layout: String, defaults: Vec<String>) -> (r: Box<Self>)
        ensures
            r.name == name,
            r.layout == layout,
            r.defaults == defaults,
    {
        Box::new(Self { name, layout, defaults })
    }

    /// Whether focusing the workspace called `ws_name` sets it up: it is this hook's
    /// workspace and it holds no clients.
    pub fn applies_to(&self, ws_name: &str, is_empty: bool) -> (r: bool)
        ensures
            r == (ws_name@ == self.name@ && is_empty),
    {
        same_text(ws_name, self.name.as_str()) && is_empty
    }
}

/// Remove empty workspaces when they lose focus, unless their name is protected.
#[derive(Clone, Debug, PartialEq, Eq, Hash)]
pub struct RemoveEmptyWorkspaces {
    /// The names of the workspaces that are never removed
    pub protected: Vec<String>,
}

impl RemoveEmptyWorkspaces {
    /// Create a new RemoveEmptyWorkspaces that is pre-boxed for adding to your workspace hooks.
    pub fn new(protected: Vec<String>) -> (r: Box<Self>)
        ensures
            r.protected == protected,
    {
        Box::new(Self { protected })
    }

    /// Whether the workspace called `ws_name` is removed when it loses focus: its name
    /// is not protected and it holds no clients.
    pub fn removes(&self, ws_name: &str, is_empty: bool) -> (r: bool)
        ensures
            r == (is_empty && !(exists|i: int|
                0 <= i < self.protected@.len() && #[trigger] self.protected@[i]@ == ws_name@)),
    {
        let mut i: usize = 0;
        while i < self.protected.len()
            invariant
                i <= self.protected@.len(),
                forall|j: int| 0 <= j < i ==> #[trigger] self.protected@[j]@ != ws_name@,
            decreases self.protected@.len() - i,
        {
            if same_text(self.protected[i].as_str(), ws_name) {
                return false;
            }
            i = i + 1;
        }
        is_empty
    }
}

/// Which workspace a new client is moved to.
#[derive(Clone, Copy, Debug, PartialEq, Eq, Hash)]
pub enum SpawnRule<'a> {
    /// Target a client by WM_CLASS
    ClassName(&'a str, usize),
    /// Target a client by WM_NAME
    WMName(&'a str, usize),
}

/// The workspace that `rules` gives the text `s`: the last rule for it wins.
pub open spec fn rule_for(rules: Seq<(String, usize)>, s: Seq<char>) -> Option<usize>
    decreases rules.len(),
{
    if rules.len() == 0 {
        None
    } else if rules.last().0@ == s {
        Some(rules.last().1)
    } else {
        rule_for(rules.drop_last(), s)
    }
}

/// The class rules and name rules of `rules`, in order.
pub open spec fn split_rules(rules: Seq<SpawnRule>) -> (Seq<(Seq<char>, usize)>, Seq<(Seq<char>, usize)>)
    decreases rules.len(),
{
    if rules.len() == 0 {
        (seq![], seq![])
    } else {
        let (c, n) = split_rules(rules.drop_last());
        match rules.last() {
            SpawnRule::ClassName(s, i) => (c.push((s@, i)), n),
            SpawnRule::WMName(s, i) => (c, n.push((s@, i))),
        }
    }
}

/// The texts of a list of rules.
pub open spec fn rule_texts(rules: Seq<(String, usize)>) -> Seq<(Seq<char>, usize)> {
    rules.map_values(|r: (String, usize)| (r.0@, r.1))
}

/// Move clients with a matching WM_CLASS or WM_NAME to a target workspace when they
/// are spawned.
#[derive(Clone, Debug, PartialEq, Eq, Hash)]
pub struct ClientSpawnRules {
    /// Workspaces by WM_CLASS, in the order the rules were given
    pub class_rules: Vec<(String, usize)>,
    /// Workspaces by WM_NAME, in the order the rules were given
    pub name_rules: Vec<(String, usize)>,
}

/// The workspace of the last rule for the text `s`.
fn lookup_rule(rules: &Vec<(String, usize)>, s: &str) -> (r: Option<usize>)
    ensures
        r == rule_for(rules@, s@),
{
    let mut i: usize = rules.len();
    assert(rules@.take(i as int) == rules@);
    while i > 0
        invariant
            i <= rules@.len(),
            rule_for(rules@, s@) == rule_for(rules@.take(i as int), s@),
        decreases i,
    {
        proof {
            assert(rules@.take(i as int).drop_last() == rules@.take(i - 1));
            assert(rules@.take(i as int).last() == rules@[i - 1]);
        }
        i = i - 1;
        if same_text(rules[i].0.as_str(), s) {
            return Some(rules[i].1);
        }
    }
    None
}

impl ClientSpawnRules {
    /// Create a new ClientSpawnRules that is pre-boxed for adding to your workspace hooks.
    pub fn new(rules: Vec<SpawnRule<'_>>) -> (r: Box<Self>)
        ensures
            (rule_texts(r.class_rules@), rule_texts(r.name_rules@)) == split_rules(rules@),
    {
        let mut class_rules: Vec<(String, usize)> = Vec::new();
        let mut name_rules: Vec<(String, usize)> = Vec::new();
        let mut i: usize = 0;
        while i < rules.len()
            invariant
                i <= rules@.len(),
                (rule_texts(class_rules@), rule_texts(name_rules@)) == split_rules(rules@.take(i as int)),
            decreases rules@.len() - i,
        {
            proof {
                assert(rules@.take(i + 1).drop_last() == rules@.take(i as int));
                assert(rules@.take(i + 1).last() == rules@[i as int]);
            }
            let ghost before_c = class_rules@;
            let ghost before_n = name_rules@;
            match rules[i] {
                SpawnRule::ClassName(s, w) => {
                    class_rules.push((s.to_owned(), w));
                    assert(rule_texts(class_rules@) =~= rule_texts(before_c).push((s@, w)));
                },
                SpawnRule::WMName(s, w) => {
                    name_rules.push((s.to_owned(), w));
                    assert(rule_texts(name_rules@) =~= rule_texts(before_n).push((s@, w)));
                },
            }
            i = i + 1;
        }
        assert(rules@.take(rules@.len() as int) == rules@);
        Box::new(Self { class_rules, name_rules })
    }

    /// The workspace for a new client with the given WM_CLASS and WM_NAME: a class rule
    /// wins over a name rule.
    pub fn workspace_for(&self, wm_class: &str, wm_name: &str) -> (r: Option<usize>)
        ensures
            r == (match rule_for(self.class_rules@, wm_class@) {
                Some(w) => Some(w),
                None => rule_for(self.name_rules@, wm_name@),
            }),
    {
        match lookup_rule(&self.class_rules, wm_class) {
            Some(w) => Some(w),
            None => lookup_rule(&self.name_rules, wm_name),
        }
    }

    /// Move a new client to the workspace that the rules give it, if any.
    pub fn new_client(&self, c: &mut Client)
        ensures
            *final(c) == (match rule_for(self.class_rules@, class_name(old(c).wm_class@)) {
                Some(w) => Client { workspace: w, ..*old(c) },
                None => match rule_for(self.name_rules@, old(c).wm_name@) {
                    Some(w) => Client { workspace: w, ..*old(c) },
                    None => *old(c),
                },
            }),
    {
        let target = self.workspace_for(c.wm_class(), c.wm_name());
        match target {
            Some(w) => c.set_workspace(w),
            None => {},
        }
    }
}

/// Set the monitors and their positions with xrandr whenever outputs change.
#[derive(Clone, Debug)]
pub struct AutoSetMonitorsViaXrandr {
    /// The output to make primary
    pub primary: String,
    /// The other output
    pub secondary: String,
    /// Where the other output goes relative to the primary one
    pub position: RelativePosition,
}

impl AutoSetMonitorsViaXrandr {
    /// Create a new AutoSetMonitorsViaXrandr that is pre-boxed for adding to your workspace hooks.
    pub fn new(primary: String, secondary: String, position: RelativePosition) -> (r: Box<Self>)
        ensures
            r.primary == primary,
            r.secondary == secondary,
            r.position == position,
    {
        Box::new(Self { primary, secondary, position })
    }
}

/// Find and manage the normal clients that were running when the window manager started.
#[derive(Debug)]
pub struct ManageExistingClients {}

impl ManageExistingClients {
    /// Construct a pre-boxed instance of the ManageExistingClients hook
    pub fn new() -> (r: Box<Self>) {
        Box::new(Self {})
    }

    /// At startup: take on the clients that were already running; see
    /// [WmState::manage_existing].
    pub fn startup(&self, state: &mut WmState, existing: Vec<Client>) -> (r: Result<Vec<WmStep>, PenroseError>)
        requires
            old(state).wf(),
            inserts_ok(old(state).workspaces),
        ensures
            final(state).wf(),
            existing_managed(*old(state), *final(state), existing@, result_steps(r)),
    {
        state.manage_existing(existing)
    }
}

} // verus!

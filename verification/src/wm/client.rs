//! Metadata around X clients and manipulating them
use vstd::prelude::*;

use crate::wm::xconnection::property::{Prop, WmHints, WmNormalHints};
use crate::wm::xconnection::Xid;

verus! {

/// The window type a client has when it does not set one: _NET_WM_WINDOW_TYPE_NORMAL.
pub const DEFAULT_WINDOW_TYPE: &'static str = "_NET_WM_WINDOW_TYPE_NORMAL";

/// The name reported for a client whose name or class is not known.
pub const UNKNOWN: &'static str = "unknown";

/**
 * Meta-data around a client window that we are handling.
 *
 * Primarily state flags and information used when determining which clients
 * to show for a given monitor and how they are tiled.
 */
#[derive(Debug, PartialEq, Eq, Clone, Hash)]
pub struct Client {
    /// The X window ID of this client
    pub id: Xid,
    /// The workspace this client is on
    pub workspace: usize,
    /// The WM_NAME of this client
    pub wm_name: String,
    /// The WM_CLASS of this client: should always be two elements but that's not enforced
    pub wm_class: Vec<String>,
    /// The _NET_WM_WINDOW_TYPE atoms of this client
    pub wm_type: Vec<String>,
    /// The WM_PROTOCOLS atoms this client supports
    pub wm_protocols: Vec<String>,
    /// The WM_HINTS of this client, if it set them
    pub wm_hints: Option<WmHints>,
    /// The WM_NORMAL_HINTS of this client, if it set them
    pub wm_normal_hints: Option<WmNormalHints>,
    /// Whether this client accepts input focus
    pub accepts_focus: bool,
    /// Whether this client is floating
    pub floating: bool,
    /// Whether this client is fullscreen
    pub fullscreen: bool,
    /// Whether this client is currently mapped
    pub mapped: bool,
    /// Whether this client has flagged itself as urgent
    pub urgent: bool,
    /// Whether this client is managed by the window manager
    pub wm_managed: bool,
}

/// The strings of a string property, or none if the property was not a string list.
pub open spec fn strings_of(p: Option<Prop>) -> Seq<String> {
    match p {
        Some(Prop::UTF8String(strs)) => strs@,
        _ => Seq::empty(),
    }
}

/// The atoms of an atom property, if the property was an atom list.
pub open spec fn atoms_of(p: Option<Prop>) -> Option<Seq<String>> {
    match p {
        Some(Prop::Atom(atoms)) => Some(atoms@),
        _ => None,
    }
}

/// The class name of a client: the first WM_CLASS entry, or "unknown".
pub open spec fn class_name(wm_class: Seq<String>) -> Seq<char> {
    if wm_class.len() > 0 {
        wm_class[0]@
    } else {
        UNKNOWN@
    }
}

fn owned(s: &str) -> (r: String)
    ensures
        r@ == s@,
{
    s.to_owned()
}

impl Client {
    /// Track a new client window on a specific workspace.
    ///
    /// Takes what the X server reported about the client: whether it should float, whether
    /// it accepts focus, its name and the values of its WM_CLASS, _NET_WM_WINDOW_TYPE,
    /// WM_HINTS, WM_NORMAL_HINTS and WM_PROTOCOLS properties (`None` where the request
    /// failed). Missing or malformed values fall back to defaults rather than erroring as
    /// clients always need to be tracked once they are mapped.
    pub fn new(
        id: Xid,
        workspace: usize,
        floating: bool,
        accepts_focus: bool,
        wm_name: Option<String>,
        wm_class: Option<Prop>,
        wm_type: Option<Prop>,
        wm_hints: Option<Prop>,
        wm_normal_hints: Option<Prop>,
        wm_protocols: Option<Prop>,
    ) -> (r: Self)
        ensures
            r.id == id,
            r.workspace == workspace,
            r.wm_name@ == match wm_name {
                Some(n) => n@,
                None => UNKNOWN@,
            },
            r.wm_class@ == strings_of(wm_class),
            atoms_of(wm_type) matches Some(a) ==> r.wm_type@ == a,
            atoms_of(wm_type) is None ==> r.wm_type@.len() == 1 && r.wm_type@[0]@
                == DEFAULT_WINDOW_TYPE@,
            r.wm_protocols@ == match atoms_of(wm_protocols) {
                Some(a) => a,
                None => Seq::empty(),
            },
            r.wm_hints == match wm_hints {
                Some(Prop::WmHints(h)) => Some(h),
                _ => None,
            },
            r.wm_normal_hints == match wm_normal_hints {
                Some(Prop::WmNormalHints(h)) => Some(h),
                _ => None,
            },
            r.floating == floating,
            r.accepts_focus == accepts_focus,
            !r.fullscreen,
            !r.mapped,
            !r.urgent,
            r.wm_managed,
    {
        let wm_name = match wm_name {
            Some(n) => n,
            None => owned(UNKNOWN),
        };
        let wm_class = match wm_class {
            Some(Prop::UTF8String(strs)) => strs,
            _ => Vec::new(),
        };
        let wm_type = match wm_type {
            Some(Prop::Atom(atoms)) => atoms,
            _ => {
                let mut v: Vec<String> = Vec::new();
                v.push(owned(DEFAULT_WINDOW_TYPE));
                v
            },
        };
        let wm_hints = match wm_hints {
            Some(Prop::WmHints(hints)) => Some(hints),
            _ => None,
        };
        let wm_normal_hints = match wm_normal_hints {
            Some(Prop::WmNormalHints(hints)) => Some(hints),
            _ => None,
        };
        let wm_protocols = match wm_protocols {
            Some(Prop::Atom(protocols)) => protocols,
            _ => Vec::new(),
        };

        Self {
            id,
            workspace,
            wm_name,
            wm_class,
            wm_type,
            wm_protocols,
            wm_hints,
            wm_normal_hints,
            floating,
            accepts_focus,
            fullscreen: false,
            mapped: false,
            urgent: false,
            wm_managed: true,
        }
    }

    /// The X window ID of this client
    pub fn id(&self) -> (r: Xid)
        ensures
            r == self.id,
    {
        self.id
    }

    /// The WM_CLASS property of this client
    pub fn wm_class(&self) -> (r: &str)
        ensures
            r@ == class_name(self.wm_class@),
    {
        if self.wm_class.len() > 0 {
            self.wm_class[0].as_str()
        } else {
            UNKNOWN
        }
    }

    /// The WM_NAME property of this client
    pub fn wm_name(&self) -> (r: &str)
        ensures
            r@ == self.wm_name@,
    {
        self.wm_name.as_str()
    }

    /// Whether or not this client is currently fullscreen
    pub fn is_fullscreen(&self) -> (r: bool)
        ensures
            r == self.fullscreen,
    {
        self.fullscreen
    }

    /// The current workspace index that this client is showing on
    pub fn workspace(&self) -> (r: usize)
        ensures
            r == self.workspace,
    {
        self.workspace
    }

    /// Mark this window as being on a new workspace
    pub fn set_workspace(&mut self, workspace: usize)
        ensures
            *final(self) == (Client { workspace, ..*old(self) }),
    {
        self.workspace = workspace
    }

    /// Set the floating state of this client
    pub fn set_floating(&mut self, floating: bool)
        ensures
            *final(self) == (Client { floating, ..*old(self) }),
    {
        self.floating = floating
    }

    /// Record a new WM_NAME for this client
    pub fn set_name(&mut self, name: &str)
        ensures
            final(self).wm_name@ == name@,
            *final(self) == (Client { wm_name: final(self).wm_name, ..*old(self) }),
    {
        self.wm_name = owned(name)
    }

    /// The WM_CLASS of the window that this Client is tracking
    pub fn class(&self) -> (r: &str)
        ensures
            r@ == class_name(self.wm_class@),
    {
        if self.wm_class.len() > 0 {
            self.wm_class[0].as_str()
        } else {
            UNKNOWN
        }
    }

    /// Mark this client as not being managed by the WindowManager directly
    pub fn externally_managed(&mut self)
        ensures
            *final(self) == (Client { wm_managed: false, ..*old(self) }),
    {
        self.wm_managed = false;
    }

    /// Mark this client as being managed by the WindowManager directly
    pub fn internally_managed(&mut self)
        ensures
            *final(self) == (Client { wm_managed: true, ..*old(self) }),
    {
        self.wm_managed = true;
    }
}

} // verus!

verus! {

/// The window types whose clients float without being asked to: desktop, dialog,
/// dock, dropdown menu, menu, notification, popup menu, splash, toolbar and utility
/// windows.
pub open spec fn auto_float_type(t: Seq<char>) -> bool {
    ||| t == "_NET_WM_WINDOW_TYPE_DESKTOP"@
    ||| t == "_NET_WM_WINDOW_TYPE_DIALOG"@
    ||| t == "_NET_WM_WINDOW_TYPE_DOCK"@
    ||| t == "_NET_WM_WINDOW_TYPE_DROPDOWN_MENU"@
    ||| t == "_NET_WM_WINDOW_TYPE_MENU"@
    ||| t == "_NET_WM_WINDOW_TYPE_NOTIFICATION"@
    ||| t == "_NET_WM_WINDOW_TYPE_POPUP_MENU"@
    ||| t == "_NET_WM_WINDOW_TYPE_SPLASH"@
    ||| t == "_NET_WM_WINDOW_TYPE_TOOLBAR"@
    ||| t == "_NET_WM_WINDOW_TYPE_UTILITY"@
}

/// The window types whose clients the window manager leaves alone: docks and
/// toolbars.
pub open spec fn unmanaged_type(t: Seq<char>) -> bool {
    t == "_NET_WM_WINDOW_TYPE_DOCK"@ || t == "_NET_WM_WINDOW_TYPE_TOOLBAR"@
}

/// Some string of `s` has the text `t`.
pub open spec fn has_text(s: Seq<String>, t: Seq<char>) -> bool {
    exists|i: int| 0 <= i < s.len() && #[trigger] s[i]@ == t
}

/// A client floats when one of its WM_CLASS strings is one of the floating
/// classes, or one of its window types is an auto-float type.
pub open spec fn should_float(wm_class: Option<Prop>, wm_type: Option<Prop>, floating_classes: Seq<String>) -> bool {
    ||| exists|i: int| 0 <= i < strings_of(wm_class).len() && has_text(floating_classes, #[trigger] strings_of(wm_class)[i]@)
    ||| match atoms_of(wm_type) {
        Some(a) => exists|i: int| 0 <= i < a.len() && auto_float_type(#[trigger] a[i]@),
        None => false,
    }
}

/// A window is managed unless it is transient for another window or one of its
/// window types is an unmanaged type.
pub open spec fn managed_window(transient: bool, wm_type: Option<Prop>) -> bool {
    &&& !transient
    &&& match atoms_of(wm_type) {
        Some(a) => forall|i: int| 0 <= i < a.len() ==> !unmanaged_type(#[trigger] a[i]@),
        None => true,
    }
}

fn text_is(a: &String, b: &str) -> (r: bool)
    ensures
        r == (a@ == b@),
{
    a.as_str().to_owned() == b.to_owned()
}

fn is_auto_float_type(t: &String) -> (r: bool)
    ensures
        r == auto_float_type(t@),
{
    text_is(t, "_NET_WM_WINDOW_TYPE_DESKTOP") || text_is(t, "_NET_WM_WINDOW_TYPE_DIALOG") || text_is(
        t,
        "_NET_WM_WINDOW_TYPE_DOCK",
    ) || text_is(t, "_NET_WM_WINDOW_TYPE_DROPDOWN_MENU") || text_is(t, "_NET_WM_WINDOW_TYPE_MENU")
        || text_is(t, "_NET_WM_WINDOW_TYPE_NOTIFICATION") || text_is(t, "_NET_WM_WINDOW_TYPE_POPUP_MENU")
        || text_is(t, "_NET_WM_WINDOW_TYPE_SPLASH") || text_is(t, "_NET_WM_WINDOW_TYPE_TOOLBAR")
        || text_is(t, "_NET_WM_WINDOW_TYPE_UTILITY")
}

fn is_unmanaged_type(t: &String) -> (r: bool)
    ensures
        r == unmanaged_type(t@),
{
    text_is(t, "_NET_WM_WINDOW_TYPE_DOCK") || text_is(t, "_NET_WM_WINDOW_TYPE_TOOLBAR")
}

fn contains_text(s: &Vec<String>, t: &String) -> (r: bool)
    ensures
        r == has_text(s@, t@),
{
    let mut i: usize = 0;
    while i < s.len()
        invariant
            i <= s@.len(),
            forall|j: int| 0 <= j < i ==> s@[j]@ != t@,
        decreases s@.len() - i,
    {
        if text_is(&s[i], t.as_str()) {
            return true;
        }
        i = i + 1;
    }
    false
}

/// Whether a client with these WM_CLASS and _NET_WM_WINDOW_TYPE property values
/// (`None` where the property could not be read) should float rather than be tiled;
/// see [should_float].
pub fn client_should_float(wm_class: &Option<Prop>, wm_type: &Option<Prop>, floating_classes: &Vec<String>) -> (r: bool)
    ensures
        r == should_float(*wm_class, *wm_type, floating_classes@),
{
    match wm_class {
        Some(Prop::UTF8String(strs)) => {
            let mut i: usize = 0;
            while i < strs.len()
                invariant
                    strings_of(*wm_class) == strs@,
                    i <= strs@.len(),
                    forall|j: int| 0 <= j < i ==> !has_text(floating_classes@, #[trigger] strs@[j]@),
                decreases strs@.len() - i,
            {
                if contains_text(floating_classes, &strs[i]) {
                    assert(has_text(floating_classes@, strings_of(*wm_class)[i as int]@));
                    return true;
                }
                i = i + 1;
            }
        },
        _ => {},
    }
    match wm_type {
        Some(Prop::Atom(atoms)) => {
            let mut i: usize = 0;
            while i < atoms.len()
                invariant
                    atoms_of(*wm_type) == Some(atoms@),
                    i <= atoms@.len(),
                    forall|j: int| 0 <= j < i ==> !auto_float_type(#[trigger] atoms@[j]@),
                decreases atoms@.len() - i,
            {
                if is_auto_float_type(&atoms[i]) {
                    let ghost a = atoms_of(*wm_type)->0;
                    assert(auto_float_type(a[i as int]@));
                    return true;
                }
                i = i + 1;
            }
            false
        },
        _ => false,
    }
}

/// Whether a window should be managed, given whether it is transient for another
/// window and its _NET_WM_WINDOW_TYPE property value (`None` where it could not be
/// read); see [managed_window].
pub fn is_managed_client(transient: bool, wm_type: &Option<Prop>) -> (r: bool)
    ensures
        r == managed_window(transient, *wm_type),
{
    if transient {
        return false;
    }
    match wm_type {
        Some(Prop::Atom(atoms)) => {
            let mut i: usize = 0;
            while i < atoms.len()
                invariant
                    !transient,
                    atoms_of(*wm_type) == Some(atoms@),
                    i <= atoms@.len(),
                    forall|j: int| 0 <= j < i ==> !unmanaged_type(#[trigger] atoms@[j]@),
                decreases atoms@.len() - i,
            {
                if is_unmanaged_type(&atoms[i]) {
                    let ghost a = atoms_of(*wm_type)->0;
                    assert(unmanaged_type(a[i as int]@));
                    return false;
                }
                i = i + 1;
            }
            true
        },
        _ => true,
    }
}

} // verus!

//! Actions that the window manager carries out in response to events.
use vstd::prelude::*;

use crate::wm::bindings::{KeyCode, MouseEvent};
use crate::wm::data_types::{Point, Region};
use crate::wm::hooks::HookName;
use crate::wm::key_text::same_text;
use crate::wm::manager::clients::Clients;
use crate::wm::ring::Xid;
use crate::wm::xconnection::event::{ClientMessage, ConfigureEvent, PointerChange, PropertyEvent, XEvent};

verus! {

/// Actions that will be carried out by the window manager in response to each
/// event received from the X server.
///
/// Note that each action is processed independently.
#[derive(Debug, Clone, PartialEq, Eq)]
pub enum EventAction {
    /// An X window lost focus
    ClientFocusLost(Xid),
    /// An X window gained focus
    ClientFocusGained(Xid),
    /// An X window had its WM_NAME or _NET_WM_NAME property changed
    ClientNameChanged(Xid, bool),
    /// Move the given client to the workspace at the given index
    ClientToWorkspace(Xid, usize),
    /// An X window was destroyed
    DestroyClient(Xid),
    /// Screens should be redetected
    DetectScreens,
    /// A client should have focus
    FocusIn(Xid),
    /// The workspace on each screen should be layed out again
    LayoutVisible,
    /// The workspace at this index should be layed out again
    LayoutWorkspace(usize),
    /// A new X window needs to be mapped
    MapWindow(Xid),
    /// A client is requesting to be moved: honoured if the client is floating
    MoveClientIfFloating(Xid, Region),
    /// The named hook should now be run
    RunHook(HookName),
    /// A grabbed keybinding was triggered
    RunKeyBinding(KeyCode),
    /// A grabbed mouse state was triggered
    RunMouseBinding(MouseEvent),
    /// The active client should be set to this id
    SetActiveClient(Xid),
    /// The active workspace should be set to this index
    SetActiveWorkspace(usize),
    /// The active screen should be set based on point location
    SetScreenFromPoint(Option<Point>),
    /// An X window should be set fullscreen
    ToggleClientFullScreen(Xid, bool),
    /// An unknown property was changed on an X window
    UnknownPropertyChange(Xid, String, bool),
    /// A window is becoming unmapped
    Unmap(Xid),
}

/// The name of the message that activates a window.
pub const NET_ACTIVE_WINDOW: &'static str = "_NET_ACTIVE_WINDOW";
/// The name of the message that changes the current desktop.
pub const NET_CURRENT_DESKTOP: &'static str = "_NET_CURRENT_DESKTOP";
/// The name of the message that moves a window to a desktop.
pub const NET_WM_DESKTOP: &'static str = "_NET_WM_DESKTOP";
/// The name of the message that changes the state of a window.
pub const NET_WM_STATE: &'static str = "_NET_WM_STATE";
/// The name of the fullscreen window state.
pub const NET_WM_STATE_FULLSCREEN: &'static str = "_NET_WM_STATE_FULLSCREEN";
/// The name of the ICCCM window title property.
pub const WM_NAME: &'static str = "WM_NAME";
/// The name of the EWMH window title property.
pub const NET_WM_NAME: &'static str = "_NET_WM_NAME";

/// Whether one of `names` is the fullscreen state.
pub open spec fn names_fullscreen(names: Seq<String>) -> bool {
    exists|i: int| 0 <= i < names.len() && #[trigger] names[i]@ == NET_WM_STATE_FULLSCREEN@
}

/// A client message carries the data words that its type is read with.
pub open spec fn message_fits(msg: ClientMessage) -> bool {
    &&& (msg.dtype@ == NET_CURRENT_DESKTOP@ || msg.dtype@ == NET_WM_DESKTOP@) ==> msg.data@.len() >= 1
    &&& msg.dtype@ == NET_WM_STATE@ ==> msg.data@.len() >= 3
}

/// The actions for a client message, given the names of the atoms in its second and
/// third data words (those that the X server knows).
pub open spec fn client_message_actions(msg: ClientMessage, names: Seq<String>) -> Seq<EventAction> {
    if msg.dtype@ == NET_ACTIVE_WINDOW@ {
        seq![EventAction::SetActiveClient(msg.id)]
    } else if msg.dtype@ == NET_CURRENT_DESKTOP@ {
        seq![EventAction::SetActiveWorkspace(msg.data@[0] as usize)]
    } else if msg.dtype@ == NET_WM_DESKTOP@ {
        seq![EventAction::ClientToWorkspace(msg.id, msg.data@[0] as usize)]
    } else if msg.dtype@ == NET_WM_STATE@ && names_fullscreen(names) {
        // _NET_WM_STATE_ADD == 1, _NET_WM_STATE_TOGGLE == 2
        seq![EventAction::ToggleClientFullScreen(msg.id, msg.data@[0] == 1 || msg.data@[0] == 2)]
    } else {
        seq![]
    }
}

/// The actions for the pointer entering a window, given the focused client.
pub open spec fn enter_actions(p: PointerChange, focused: Option<Xid>) -> Seq<EventAction> {
    let base = seq![EventAction::ClientFocusGained(p.id), EventAction::SetScreenFromPoint(Some(p.abs))];
    match focused {
        Some(current) => if current != p.id {
            seq![EventAction::ClientFocusLost(current)] + base
        } else {
            base
        },
        None => base,
    }
}

/// The actions for an event, given the known clients and, for a client message,
/// the names of the atoms in its second and third data words.
pub open spec fn event_actions(event: XEvent, clients: Clients, names: Seq<String>) -> Seq<EventAction> {
    match event {
        XEvent::Destroy(id) => seq![EventAction::DestroyClient(id)],
        XEvent::Expose(_) => seq![],
        XEvent::FocusIn(id) => seq![EventAction::FocusIn(id)],
        XEvent::KeyPress(code) => seq![EventAction::RunKeyBinding(code)],
        XEvent::Leave(p) => seq![
            EventAction::ClientFocusLost(p.id),
            EventAction::SetScreenFromPoint(Some(p.abs)),
        ],
        XEvent::MouseEvent(evt) => seq![EventAction::RunMouseBinding(evt)],
        XEvent::RandrNotify => seq![EventAction::DetectScreens],
        XEvent::ScreenChange => seq![EventAction::SetScreenFromPoint(None)],
        XEvent::UnmapNotify(id) => seq![EventAction::Unmap(id)],
        XEvent::ClientMessage(msg) => client_message_actions(msg, names),
        XEvent::ConfigureNotify(evt) => if evt.is_root {
            seq![EventAction::DetectScreens]
        } else {
            seq![]
        },
        XEvent::ConfigureRequest(evt) => if !evt.is_root {
            seq![EventAction::MoveClientIfFloating(evt.id, evt.r)]
        } else {
            seq![]
        },
        XEvent::Enter(p) => enter_actions(p, clients.focused_client_id),
        XEvent::MapRequest(id, override_redirect) => if override_redirect
            || clients.inner@.contains_key(id) {
            seq![]
        } else {
            seq![EventAction::MapWindow(id)]
        },
        XEvent::PropertyNotify(evt) => if evt.atom@ == WM_NAME@ || evt.atom@ == NET_WM_NAME@ {
            seq![EventAction::ClientNameChanged(evt.id, evt.is_root)]
        } else {
            seq![]
        },
    }
}

/// The actions that the window manager carries out for `event`.
///
/// `names` holds the names of the atoms in the second and third data words of a
/// client message (those that the X server knows); it is not read for other events.
pub fn process_next_event(event: XEvent, clients: &Clients, names: &Vec<String>) -> (r: Vec<EventAction>)
    requires
        event matches XEvent::ClientMessage(msg) ==> message_fits(msg),
    ensures
        r@ == event_actions(event, *clients, names@),
{
    match event {
        XEvent::Destroy(id) => vec![EventAction::DestroyClient(id)],
        XEvent::Expose(_) => vec![],
        XEvent::FocusIn(id) => vec![EventAction::FocusIn(id)],
        XEvent::KeyPress(code) => vec![EventAction::RunKeyBinding(code)],
        XEvent::Leave(p) => vec![
            EventAction::ClientFocusLost(p.id),
            EventAction::SetScreenFromPoint(Some(p.abs)),
        ],
        XEvent::MouseEvent(evt) => vec![EventAction::RunMouseBinding(evt)],
        XEvent::RandrNotify => vec![EventAction::DetectScreens],
        XEvent::ScreenChange => vec![EventAction::SetScreenFromPoint(None)],
        XEvent::UnmapNotify(id) => vec![EventAction::Unmap(id)],
        XEvent::ClientMessage(msg) => process_client_message(msg, names),
        XEvent::ConfigureNotify(evt) => process_configure_notify(evt),
        XEvent::ConfigureRequest(evt) => process_configure_request(evt),
        XEvent::Enter(p) => process_enter_notify(clients.focused_client_id(), p),
        XEvent::MapRequest(id, override_redirect) => process_map_request(clients, id, override_redirect),
        XEvent::PropertyNotify(evt) => process_property_notify(evt),
    }
}

/// The actions for a client message; see [client_message_actions].
pub fn process_client_message(msg: ClientMessage, names: &Vec<String>) -> (r: Vec<EventAction>)
    requires
        message_fits(msg),
    ensures
        r@ == client_message_actions(msg, names@),
{
    if same_text(msg.dtype.as_str(), NET_ACTIVE_WINDOW) {
        vec![EventAction::SetActiveClient(msg.id)]
    } else if same_text(msg.dtype.as_str(), NET_CURRENT_DESKTOP) {
        vec![EventAction::SetActiveWorkspace(msg.data[0] as usize)]
    } else if same_text(msg.dtype.as_str(), NET_WM_DESKTOP) {
        vec![EventAction::ClientToWorkspace(msg.id, msg.data[0] as usize)]
    } else if same_text(msg.dtype.as_str(), NET_WM_STATE) && any_fullscreen(names) {
        let should_fullscreen = msg.data[0] == 1 || msg.data[0] == 2;
        vec![EventAction::ToggleClientFullScreen(msg.id, should_fullscreen)]
    } else {
        vec![]
    }
}

/// Whether one of `names` is the fullscreen state.
fn any_fullscreen(names: &Vec<String>) -> (r: bool)
    ensures
        r == names_fullscreen(names@),
{
    let mut i: usize = 0;
    while i < names.len()
        invariant
            i <= names.len(),
            forall|j: int| 0 <= j < i ==> #[trigger] names@[j]@ != NET_WM_STATE_FULLSCREEN@,
        decreases names.len() - i,
    {
        if same_text(names[i].as_str(), NET_WM_STATE_FULLSCREEN) {
            return true;
        }
        i = i + 1;
    }
    false
}

/// The actions for a configure notification: redetect the screens when the root
/// window changes.
pub fn process_configure_notify(evt: ConfigureEvent) -> (r: Vec<EventAction>)
    ensures
        r@ == (if evt.is_root {
            seq![EventAction::DetectScreens]
        } else {
            seq![]
        }),
{
    if evt.is_root {
        vec![EventAction::DetectScreens]
    } else {
        vec![]
    }
}

/// The actions for a configure request: a client window may move if it floats.
pub fn process_configure_request(evt: ConfigureEvent) -> (r: Vec<EventAction>)
    ensures
        r@ == (if !evt.is_root {
            seq![EventAction::MoveClientIfFloating(evt.id, evt.r)]
        } else {
            seq![]
        }),
{
    if !evt.is_root {
        vec![EventAction::MoveClientIfFloating(evt.id, evt.r)]
    } else {
        vec![]
    }
}

/// The actions for the pointer entering a window; see [enter_actions].
pub fn process_enter_notify(focused: Option<Xid>, p: PointerChange) -> (r: Vec<EventAction>)
    ensures
        r@ == enter_actions(p, focused),
{
    let mut actions = vec![
        EventAction::ClientFocusGained(p.id),
        EventAction::SetScreenFromPoint(Some(p.abs)),
    ];
    match focused {
        Some(current) => {
            if current != p.id {
                actions.insert(0, EventAction::ClientFocusLost(current));
            }
        },
        None => {},
    }
    actions
}

/// The actions for a map request: windows with override redirect set, and windows
/// that are already managed, are left alone.
pub fn process_map_request(clients: &Clients, id: Xid, override_redirect: bool) -> (r: Vec<EventAction>)
    ensures
        r@ == (if override_redirect || clients.inner@.contains_key(id) {
            seq![]
        } else {
            seq![EventAction::MapWindow(id)]
        }),
{
    if override_redirect || clients.is_known(id) {
        vec![]
    } else {
        vec![EventAction::MapWindow(id)]
    }
}

/// The actions for a property change: a change of title is passed on.
pub fn process_property_notify(evt: PropertyEvent) -> (r: Vec<EventAction>)
    ensures
        r@ == (if evt.atom@ == WM_NAME@ || evt.atom@ == NET_WM_NAME@ {
            seq![EventAction::ClientNameChanged(evt.id, evt.is_root)]
        } else {
            seq![]
        }),
{
    if same_text(evt.atom.as_str(), WM_NAME) || same_text(evt.atom.as_str(), NET_WM_NAME) {
        vec![EventAction::ClientNameChanged(evt.id, evt.is_root)]
    } else {
        vec![]
    }
}

} // verus!

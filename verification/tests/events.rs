use penrose::wm::client::Client;
use penrose::wm::data_types::{Point, Region};
use penrose::wm::manager::clients::Clients;
use penrose::wm::manager::event::{process_next_event, EventAction};
use penrose::wm::xconnection::event::{
    ClientMessage, ConfigureEvent, PointerChange, PropertyEvent, XEvent,
};

fn clients_with(id: u32) -> Clients {
    let mut clients = Clients::new(0xffffff, 0x000000);
    clients.insert(id, Client::new(id, 0, false, true, None, None, None, None, None, None));
    clients
}

fn message(dtype: &str, data: Vec<u32>) -> XEvent {
    XEvent::ClientMessage(ClientMessage { id: 7, dtype: dtype.to_string(), data })
}

#[test]
fn map_requests_only_for_new_managed_windows() {
    let clients = clients_with(5);
    assert_eq!(process_next_event(XEvent::MapRequest(6, false), &clients, &vec![]), vec![EventAction::MapWindow(6)]);
    assert!(process_next_event(XEvent::MapRequest(6, true), &clients, &vec![]).is_empty());
    assert!(process_next_event(XEvent::MapRequest(5, false), &clients, &vec![]).is_empty());
}

#[test]
fn entering_a_window_moves_the_focus() {
    let mut clients = clients_with(5);
    let p = PointerChange { id: 6, abs: Point::new(10, 20), relative: Point::new(1, 2) };
    assert_eq!(
        process_next_event(XEvent::Enter(p), &clients, &vec![]),
        vec![EventAction::ClientFocusGained(6), EventAction::SetScreenFromPoint(Some(Point::new(10, 20)))]
    );
    clients.set_focused(5);
    assert_eq!(
        process_next_event(XEvent::Enter(p), &clients, &vec![]),
        vec![
            EventAction::ClientFocusLost(5),
            EventAction::ClientFocusGained(6),
            EventAction::SetScreenFromPoint(Some(Point::new(10, 20))),
        ]
    );
}

#[test]
fn client_messages_become_actions() {
    let clients = clients_with(5);
    assert_eq!(
        process_next_event(message("_NET_ACTIVE_WINDOW", vec![]), &clients, &vec![]),
        vec![EventAction::SetActiveClient(7)]
    );
    assert_eq!(
        process_next_event(message("_NET_CURRENT_DESKTOP", vec![3]), &clients, &vec![]),
        vec![EventAction::SetActiveWorkspace(3)]
    );
    assert_eq!(
        process_next_event(message("_NET_WM_DESKTOP", vec![2]), &clients, &vec![]),
        vec![EventAction::ClientToWorkspace(7, 2)]
    );
    let names = vec!["_NET_WM_STATE_FULLSCREEN".to_string()];
    assert_eq!(
        process_next_event(message("_NET_WM_STATE", vec![1, 0, 0]), &clients, &names),
        vec![EventAction::ToggleClientFullScreen(7, true)]
    );
    assert_eq!(
        process_next_event(message("_NET_WM_STATE", vec![0, 0, 0]), &clients, &names),
        vec![EventAction::ToggleClientFullScreen(7, false)]
    );
    assert!(process_next_event(message("_NET_WM_STATE", vec![1, 0, 0]), &clients, &vec![]).is_empty());
    assert!(process_next_event(message("OTHER", vec![]), &clients, &vec![]).is_empty());
}

#[test]
fn configure_and_property_events() {
    let clients = clients_with(5);
    let r = Region::new(0, 0, 10, 10);
    assert_eq!(
        process_next_event(XEvent::ConfigureNotify(ConfigureEvent { id: 1, r, is_root: true }), &clients, &vec![]),
        vec![EventAction::DetectScreens]
    );
    assert!(process_next_event(XEvent::ConfigureNotify(ConfigureEvent { id: 1, r, is_root: false }), &clients, &vec![]).is_empty());
    assert_eq!(
        process_next_event(XEvent::ConfigureRequest(ConfigureEvent { id: 1, r, is_root: false }), &clients, &vec![]),
        vec![EventAction::MoveClientIfFloating(1, r)]
    );
    let name = PropertyEvent { id: 5, atom: "_NET_WM_NAME".to_string(), is_root: false };
    assert_eq!(
        process_next_event(XEvent::PropertyNotify(name), &clients, &vec![]),
        vec![EventAction::ClientNameChanged(5, false)]
    );
    let other = PropertyEvent { id: 5, atom: "WM_CLASS".to_string(), is_root: false };
    assert!(process_next_event(XEvent::PropertyNotify(other), &clients, &vec![]).is_empty());
}

#[test]
fn simple_events() {
    let clients = clients_with(5);
    assert_eq!(process_next_event(XEvent::Destroy(5), &clients, &vec![]), vec![EventAction::DestroyClient(5)]);
    assert_eq!(process_next_event(XEvent::RandrNotify, &clients, &vec![]), vec![EventAction::DetectScreens]);
    assert_eq!(process_next_event(XEvent::ScreenChange, &clients, &vec![]), vec![EventAction::SetScreenFromPoint(None)]);
    assert_eq!(process_next_event(XEvent::UnmapNotify(5), &clients, &vec![]), vec![EventAction::Unmap(5)]);
    assert_eq!(process_next_event(XEvent::FocusIn(5), &clients, &vec![]), vec![EventAction::FocusIn(5)]);
}

use penrose::wm::data_types::Region;
use penrose::wm::layout::LayoutConf;
use penrose::wm::manager::state::WmStep;
use penrose::wm::workspace::ArrangeActions;
use penrose::wm::client::{client_should_float, is_managed_client, Client};
use penrose::wm::xconnection::property::Prop;
use penrose::wm::hooks::HookName;
use penrose::wm::manager::clients::Clients;
use penrose::wm::manager::event::EventAction;
use penrose::wm::ring::Selector;
use penrose::wm::xconnection::Xid;

fn client(id: Xid, workspace: usize) -> Client {
    Client::new(id, workspace, false, true, None, None, None, None, None, None)
}

fn three_clients() -> Clients {
    let mut clients = Clients::new(0xffffff, 0x000000);
    clients.insert(30, client(30, 1));
    clients.insert(10, client(10, 0));
    clients.insert(20, client(20, 1));
    clients
}

#[test]
fn client_lost_focus_on_focused_clears_focused_client_id() {
    let mut clients = Clients::new(0xffffff, 0x000000);

    clients.focused_client_id = Some(42);
    clients.client_lost_focus(42);
    assert!(clients.focused_client_id.is_none());
}

#[test]
fn losing_focus_on_another_client_keeps_the_focus() {
    let mut clients = three_clients();
    clients.set_focused(10);
    assert!(clients.client_lost_focus(20));
    assert_eq!(clients.focused_client_id(), Some(10));
    assert!(!clients.client_lost_focus(99));
}

#[test]
fn setting_focus_returns_the_previous_focus() {
    let mut clients = three_clients();
    assert_eq!(clients.set_focused(10), None);
    assert_eq!(clients.set_focused(20), Some(10));
    assert_eq!(clients.focused_client().map(|c| c.id), Some(20));
    clients.clear_focused();
    assert_eq!(clients.focused_client_id(), None);
}

#[test]
fn clients_are_listed_by_id() {
    let clients = three_clients();
    let mut ids = clients.all_known_ids();
    ids.sort();
    assert_eq!(ids, vec![10, 20, 30]);
    let on_one: Vec<Xid> = clients.clients_for_workspace(1).iter().map(|c| c.id).collect();
    assert_eq!(on_one, vec![20, 30]);
    assert_eq!(clients.workspace_index_for_client(10), Some(0));
    assert_eq!(clients.workspace_index_for_client(11), None);
}

#[test]
fn selectors_pick_clients() {
    let mut clients = three_clients();
    assert_eq!(clients.client(&Selector::WinId(20)).map(|c| c.id), Some(20));
    assert!(clients.client(&Selector::WinId(21)).is_none());
    assert!(clients.client(&Selector::Focused).is_none());
    clients.set_focused(30);
    assert_eq!(clients.client(&Selector::Focused).map(|c| c.id), Some(30));
    let all: Vec<Xid> = clients.matching_clients(&Selector::Any).iter().map(|c| c.id).collect();
    assert_eq!(all, vec![10, 20, 30]);
}

#[test]
fn moving_a_client_to_a_workspace() {
    let mut clients = three_clients();
    clients.set_client_workspace(10, 4);
    assert_eq!(clients.workspace_index_for_client(10), Some(4));
    assert_eq!(clients.remove(10).map(|c| c.workspace), Some(4));
    assert!(!clients.is_known(10));
}

#[test]
fn a_name_change_is_recorded_and_reported() {
    let mut clients = three_clients();
    let action = clients.client_name_changed(20, false, "term".to_string());
    assert_eq!(
        action,
        EventAction::RunHook(HookName::ClientNameUpdated(20, "term".to_string(), false))
    );
    assert_eq!(clients.get(20).unwrap().wm_name, "term");
    let action = clients.client_name_changed(30, true, "root".to_string());
    assert_eq!(
        action,
        EventAction::RunHook(HookName::ClientNameUpdated(30, "root".to_string(), true))
    );
    assert_ne!(clients.get(30).unwrap().wm_name, "root");
}

#[test]
fn arranging_places_tiled_clients_then_raises_floating_ones() {
    let clients = three_clients();
    let actions = ArrangeActions {
        actions: vec![(10, Some(Region::new(0, 0, 100, 100))), (20, None)],
        floating: vec![30],
    };
    let conf = LayoutConf { gapless: false, ..LayoutConf::default() };
    assert_eq!(
        clients.apply_arrange_actions(actions.clone(), &conf, 2, 5),
        vec![
            WmStep::PositionClient(10, Region::new(5, 5, 86, 86), 2),
            WmStep::MapIfNeeded(10),
            WmStep::UnmapIfNeeded(20),
            WmStep::RaiseClient(30),
        ]
    );
    let gapless = LayoutConf { gapless: true, ..LayoutConf::default() };
    assert_eq!(
        clients.apply_arrange_actions(actions, &gapless, 2, 5)[0],
        WmStep::PositionClient(10, Region::new(0, 0, 96, 96), 2)
    );
}

fn strings(v: &[&str]) -> Vec<String> {
    v.iter().map(|s| s.to_string()).collect()
}

#[test]
fn floating_classes_and_window_types_make_clients_float() {
    let floating = strings(&["dmenu", "pinentry"]);
    let class = Some(Prop::UTF8String(strings(&["Pinentry", "pinentry"])));
    assert!(client_should_float(&class, &None, &floating));
    let other = Some(Prop::UTF8String(strings(&["firefox", "Firefox"])));
    assert!(!client_should_float(&other, &None, &floating));
    let dialog = Some(Prop::Atom(strings(&["_NET_WM_WINDOW_TYPE_DIALOG"])));
    assert!(client_should_float(&other, &dialog, &floating));
    let normal = Some(Prop::Atom(strings(&["_NET_WM_WINDOW_TYPE_NORMAL"])));
    assert!(!client_should_float(&other, &normal, &floating));
    assert!(!client_should_float(&Some(Prop::Cardinal(3)), &Some(Prop::Cardinal(1)), &floating));
}

#[test]
fn transient_windows_docks_and_toolbars_are_not_managed() {
    assert!(is_managed_client(false, &None));
    assert!(!is_managed_client(true, &None));
    let dock = Some(Prop::Atom(strings(&["_NET_WM_WINDOW_TYPE_NORMAL", "_NET_WM_WINDOW_TYPE_DOCK"])));
    assert!(!is_managed_client(false, &dock));
    let toolbar = Some(Prop::Atom(strings(&["_NET_WM_WINDOW_TYPE_TOOLBAR"])));
    assert!(!is_managed_client(false, &toolbar));
    let dialog = Some(Prop::Atom(strings(&["_NET_WM_WINDOW_TYPE_DIALOG"])));
    assert!(is_managed_client(false, &dialog));
}

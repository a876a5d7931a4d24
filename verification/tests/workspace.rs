use penrose::wm::client::Client;
use penrose::wm::data_types::{Change, Region};
use penrose::wm::layout::{Layout, LayoutConf};
use penrose::wm::manager::clients::Clients;
use penrose::wm::ring::{Direction, InsertPoint, Ring};
use penrose::wm::workspace::Workspace;
use penrose::wm::xconnection::Xid;

fn test_layouts() -> Vec<Layout> {
    vec![Layout::new("t".to_string(), LayoutConf::default(), 1)]
}

fn two_layouts() -> Vec<Layout> {
    vec![
        Layout::new("t".to_string(), LayoutConf::default(), 1),
        Layout::new(
            "f".to_string(),
            LayoutConf { floating: true, gapless: true, follow_focus: false, allow_wrapping: true },
            2,
        ),
    ]
}

fn add_n_clients(ws: &mut Workspace, n: usize) {
    for i in 0..n {
        let k = ((i + 1) * 10) as u32; // ensure win_id != index
        ws.add_client(k, &InsertPoint::First).unwrap();
    }
}

fn client(id: Xid, floating: bool) -> Client {
    Client::new(id, 1, floating, true, None, None, None, None, None, None)
}

// One region per client, stacked as rows of the screen.
fn mock_layout(clients: &[&Client], r: &Region) -> Vec<(Xid, Option<Region>)> {
    let rows = r.as_rows(clients.len() as u32);
    clients.iter().zip(rows).map(|(c, r)| (c.id, Some(r))).collect()
}

#[test]
fn ref_to_focused_client_when_empty() {
    let ws = Workspace::new("test".to_string(), test_layouts());
    assert_eq!(ws.focused_client(), None);
}

#[test]
fn ref_to_focused_client_when_populated() {
    let mut ws = Workspace::new("test".to_string(), test_layouts());
    ws.clients = Ring::new(vec![42, 123]);

    let c = ws.focused_client().expect("should have had a client for 0");
    assert_eq!(c, 42);

    ws.clients.cycle_focus(Direction::Forward);
    let c = ws.focused_client().expect("should have had a client for 1");
    assert_eq!(c, 123);
}

#[test]
fn removing_a_client_when_present() {
    let mut ws = Workspace::new("test".to_string(), test_layouts());
    ws.clients = Ring::new(vec![13, 42]);

    let removed = ws.remove_client(42).expect("should have had a client for id=42");
    assert_eq!(removed, 42);
}

#[test]
fn removing_a_client_when_not_present() {
    let mut ws = Workspace::new("test".to_string(), test_layouts());
    ws.clients = Ring::new(vec![13]);

    let removed = ws.remove_client(42);
    assert_eq!(removed, None, "got a client by the wrong ID");
}

#[test]
fn adding_a_client() {
    let mut ws = Workspace::new("test".to_string(), test_layouts());
    add_n_clients(&mut ws, 3);
    let ids: Vec<Xid> = ws.clients.iter().copied().collect();
    assert_eq!(ids, vec![30, 20, 10], "not pushing at the top of the stack")
}

#[test]
fn applying_a_layout_gives_one_action_per_client() {
    let mut ws = Workspace::new("test".to_string(), test_layouts());
    ws.clients = Ring::new(vec![1, 2, 3]);
    let mut client_map = Clients::new(0xffffff, 0x000000);
    client_map.insert(1, client(1, false));
    client_map.insert(2, client(2, false));
    client_map.insert(3, client(3, false));
    let (tiled, floating) = ws.split_floating(&client_map);
    let mut actions = mock_layout(&tiled, &Region::new(0, 0, 2000, 1000));
    actions.extend(floating.iter().map(|&id| (id, None)));
    assert_eq!(actions.len(), 3, "actions are not 1-1 for clients")
}

#[test]
fn dragging_a_client_forward() {
    let mut ws = Workspace::new("test".to_string(), test_layouts());
    ws.clients = Ring::new(vec![1, 2, 3, 4]);
    assert_eq!(ws.focused_client(), Some(1));

    assert_eq!(ws.drag_client(Direction::Forward), Some(1));
    assert_eq!(ws.clients.as_vec(), vec![2, 1, 3, 4]);

    assert_eq!(ws.drag_client(Direction::Forward), Some(1));
    assert_eq!(ws.clients.as_vec(), vec![2, 3, 1, 4]);

    assert_eq!(ws.drag_client(Direction::Forward), Some(1));
    assert_eq!(ws.clients.as_vec(), vec![2, 3, 4, 1]);

    assert_eq!(ws.drag_client(Direction::Forward), Some(1));
    assert_eq!(ws.clients.as_vec(), vec![1, 2, 3, 4]);

    assert_eq!(ws.focused_client(), Some(1));
}

#[test]
fn dragging_non_index_0_client_backward() {
    let mut ws = Workspace::new("test".to_string(), test_layouts());
    ws.clients = Ring::new(vec![1, 2, 3, 4]);
    ws.focus_client(3);
    assert_eq!(ws.focused_client(), Some(3));

    assert_eq!(ws.drag_client(Direction::Backward), Some(3));
    assert_eq!(ws.clients.as_vec(), vec![1, 3, 2, 4]);

    assert_eq!(ws.drag_client(Direction::Backward), Some(3));
    assert_eq!(ws.clients.as_vec(), vec![3, 1, 2, 4]);

    assert_eq!(ws.drag_client(Direction::Backward), Some(3));
    assert_eq!(ws.clients.as_vec(), vec![1, 2, 4, 3]);

    assert_eq!(ws.drag_client(Direction::Backward), Some(3));
    assert_eq!(ws.clients.as_vec(), vec![1, 2, 3, 4]);

    assert_eq!(ws.focused_client(), Some(3));
}

#[test]
fn adding_a_known_client_is_an_error() {
    let mut ws = Workspace::new("test".to_string(), test_layouts());
    add_n_clients(&mut ws, 2);
    let err = ws.add_client(10, &InsertPoint::First).unwrap_err();
    assert_eq!(format!("{:?}", err), "Raw(\"10 is already in this workspace\")");
    assert_eq!(ws.client_ids(), vec![20, 10]);
}

#[test]
fn floating_clients_are_split_from_tiled_ones_in_order() {
    let mut ws = Workspace::new("test".to_string(), test_layouts());
    ws.clients = Ring::new(vec![1, 2, 3, 4]);
    let mut clients = Clients::new(0xffffff, 0x000000);
    clients.insert(1, client(1, false));
    clients.insert(2, client(2, true));
    clients.insert(3, client(3, false));
    clients.insert(4, client(4, true));
    let (tiled, floating) = ws.split_floating(&clients);
    let tiled_ids: Vec<Xid> = tiled.iter().map(|c| c.id).collect();
    assert_eq!(tiled_ids, vec![1, 3]);
    assert_eq!(floating, vec![2, 4]);
}

#[test]
fn removing_the_focused_client_keeps_focus_in_range() {
    let mut ws = Workspace::new("test".to_string(), test_layouts());
    ws.clients = Ring::new(vec![1, 2, 3]);
    ws.focus_client(3);
    assert_eq!(ws.remove_focused_client(), Some(3));
    assert_eq!(ws.focused_client(), Some(2));
    assert_eq!(ws.client_ids(), vec![1, 2]);
}

#[test]
fn layouts_cycle_and_can_be_chosen_by_symbol() {
    let mut ws = Workspace::new("test".to_string(), two_layouts());
    assert_eq!(ws.layout_symbol(), "t");
    assert_eq!(ws.cycle_layout(Direction::Forward), "f");
    assert!(ws.layout_conf().floating);
    assert!(ws.try_set_layout("t").is_some());
    assert_eq!(ws.layout_symbol(), "t");
    assert!(ws.try_set_layout("missing").is_none());
    assert_eq!(ws.layout_symbol(), "t");
}

#[test]
fn max_main_changes_by_one_and_stops_at_zero() {
    let mut ws = Workspace::new("test".to_string(), test_layouts());
    ws.update_max_main(Change::More);
    assert_eq!(ws.layouts.focused().unwrap().max_main, 2);
    ws.update_max_main(Change::Less);
    ws.update_max_main(Change::Less);
    ws.update_max_main(Change::Less);
    assert_eq!(ws.layouts.focused().unwrap().max_main, 0);
}

#[test]
fn rotating_and_cycling_clients() {
    let mut ws = Workspace::new("test".to_string(), test_layouts());
    ws.clients = Ring::new(vec![1, 2, 3]);
    assert_eq!(ws.cycle_client(Direction::Forward), Some((1, 2)));
    assert_eq!(ws.focused_client(), Some(2));
    ws.rotate_clients(Direction::Forward);
    assert_eq!(ws.client_ids(), vec![3, 1, 2]);
    assert_eq!(ws.focused_client(), Some(1));
}

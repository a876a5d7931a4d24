use penrose::contrib::hooks::{ActiveClientAsRootName, LayoutSymbolAsRootName, ManageExistingClients};
use penrose::wm::client::Client;
use penrose::wm::data_types::Region;
use penrose::wm::hooks::HookName;
use penrose::wm::layout::{Layout, LayoutConf};
use penrose::wm::manager::clients::Clients;
use penrose::wm::manager::event::EventAction;
use penrose::wm::manager::screens::Screens;
use penrose::wm::manager::state::{WmState, WmStep};
use penrose::wm::manager::workspaces::Workspaces;
use penrose::wm::ring::Selector;
use penrose::wm::screen::Screen;
use penrose::wm::workspace::Workspace;
use penrose::wm::xconnection::Xid;
use penrose::PenroseError;

fn test_layouts(follow_focus: bool) -> Vec<Layout> {
    let conf = LayoutConf { follow_focus, ..Default::default() };
    vec![Layout::new("t".to_string(), conf, 1)]
}

fn test_screens() -> Vec<Screen> {
    vec![
        Screen::new(Region::new(0, 0, 1366, 768), 0),
        Screen::new(Region::new(1366, 0, 1366, 768), 0),
    ]
}

fn state_with(follow_focus: bool) -> WmState {
    let workspaces: Vec<Workspace> = ["1", "2", "3", "4", "5", "6", "7", "8", "9"]
        .iter()
        .map(|name| Workspace::new(name.to_string(), test_layouts(follow_focus)))
        .collect();
    let mut screens = Screens::new(18, true);
    screens.update_known_screens(test_screens(), 9);
    WmState {
        clients: Clients::new(0xffffff, 0x000000),
        screens,
        workspaces: Workspaces::new(workspaces),
    }
}

fn test_state() -> WmState {
    state_with(false)
}

// Carry out the steps that change the state: focusing clients and workspaces.
fn run(state: &mut WmState, steps: Vec<WmStep>) {
    for step in steps {
        match step {
            WmStep::UpdateFocus(id) => {
                let more = state.update_focus(id);
                run(state, more);
            }
            WmStep::Event(EventAction::SetActiveWorkspace(wix)) => {
                let more = state.focus_workspace(&Selector::Index(wix));
                run(state, more);
            }
            WmStep::Event(EventAction::ClientFocusLost(id)) => {
                state.clients.client_lost_focus(id);
            }
            WmStep::MapIfNeeded(id) => {
                state.clients.map_if_needed(id);
            }
            WmStep::UnmapIfNeeded(id) => {
                state.clients.unmap_if_needed(id);
            }
            _ => {}
        }
    }
}

fn map_request(state: &mut WmState, id: Xid) -> Vec<WmStep> {
    let wix = state.screens.active_ws_index();
    let c = Client::new(id, wix, false, true, None, None, None, None, None, None);
    state.clients.insert(id, c);
    state.manage_new_client(id, true, true).unwrap()
}

fn add_n_clients(state: &mut WmState, n: usize, offset: usize) {
    for i in 0..n {
        let steps = map_request(state, 10 * (i + offset + 1) as u32);
        run(state, steps);
    }
}

fn client_to_workspace(state: &mut WmState, wix: usize) {
    let steps = state.client_to_workspace(&Selector::Index(wix)).unwrap();
    run(state, steps);
}

fn focus_workspace(state: &mut WmState, wix: usize) {
    let steps = state.focus_workspace(&Selector::Index(wix));
    run(state, steps);
}

fn ids_on(state: &WmState, wix: usize) -> Vec<Xid> {
    state.workspaces.inner.elements[wix].client_ids()
}

#[test]
fn workspace_switching_with_active_clients() {
    let mut s = test_state();

    // add clients to the first workspace: final client should have focus
    add_n_clients(&mut s, 3, 0);
    assert_eq!(s.workspaces.inner.elements[0].len(), 3);
    assert_eq!(s.workspaces.inner.elements[0].focused_client(), Some(30));

    // switch and add to the second workspace: final client should have focus
    focus_workspace(&mut s, 1);
    add_n_clients(&mut s, 2, 3);
    assert_eq!(s.workspaces.inner.elements[1].len(), 2);
    assert_eq!(s.workspaces.inner.elements[1].focused_client(), Some(50));

    // switch back: clients should be the same, same client should have focus
    focus_workspace(&mut s, 0);
    assert_eq!(s.workspaces.inner.elements[0].len(), 3);
    assert_eq!(s.workspaces.inner.elements[0].focused_client(), Some(30));
}

#[test]
fn mod_client_to_workspace_inserts_at_head() {
    let mut s = test_state();
    add_n_clients(&mut s, 2, 0); // [20, 10]
    client_to_workspace(&mut s, 1); // 20 -> ws::1
    client_to_workspace(&mut s, 1); // 10 -> ws::1, [10, 20]
    focus_workspace(&mut s, 1);

    assert_eq!(ids_on(&s, 1), vec![10, 20]);
}

#[test]
fn mod_client_to_workspace_sets_focus() {
    let mut s = test_state();
    add_n_clients(&mut s, 2, 0); // [20, 10]
    client_to_workspace(&mut s, 1); // 20 -> ws::1
    client_to_workspace(&mut s, 1); // 10 -> ws::1, [10, 20]
    focus_workspace(&mut s, 1);

    assert_eq!(s.workspaces.inner.elements[1].focused_client(), Some(10));
}

#[test]
fn mod_client_to_invalid_workspace_is_noop() {
    let mut s = test_state();
    add_n_clients(&mut s, 1, 0);

    assert_eq!(s.clients.workspace_index_for_client(10), Some(0));
    client_to_workspace(&mut s, 42);
    assert_eq!(s.clients.workspace_index_for_client(10), Some(0));
}

#[test]
fn mod_client_to_screen_sets_correct_workspace() {
    let mut s = test_state();
    add_n_clients(&mut s, 1, 0);

    let steps = s.client_to_screen(&Selector::Index(1)).unwrap();
    run(&mut s, steps);
    assert_eq!(s.clients.workspace_index_for_client(10), Some(1));
}

#[test]
fn mod_client_to_invalid_screen_is_noop() {
    let mut s = test_state();
    add_n_clients(&mut s, 1, 0);

    assert_eq!(s.clients.workspace_index_for_client(10), Some(0));
    let steps = s.client_to_screen(&Selector::Index(5)).unwrap();
    assert!(steps.is_empty());
    assert_eq!(s.clients.workspace_index_for_client(10), Some(0));
}

#[test]
fn mod_x_focus_events_set_workspace_focus() {
    let mut s = test_state();
    add_n_clients(&mut s, 5, 0); // focus on last client: 50
    let steps = s.update_focus(10);
    run(&mut s, steps);

    assert_eq!(s.workspaces.inner.elements[0].focused_client(), Some(10));
}

#[test]
fn mod_focus_workspace_sets_focus_in_ring() {
    let mut s = test_state();
    assert_eq!(s.workspaces.inner.focused_index(), 0);
    assert_eq!(s.workspaces.inner.focused_index(), s.screens.active_ws_index());
    focus_workspace(&mut s, 3);
    assert_eq!(s.workspaces.inner.focused_index(), 3);
    assert_eq!(s.workspaces.inner.focused_index(), s.screens.active_ws_index());
}

#[test]
fn mod_selector_screen() {
    let mut s = test_state();
    add_n_clients(&mut s, 1, 0);

    assert_eq!(s.screen(&Selector::Focused), Some(s.screens.focused()));
    assert_eq!(s.screen(&Selector::Index(1)), s.screens.get(1));
    assert_eq!(s.screen(&Selector::WinId(10)), s.screens.get(0));
    assert_eq!(s.screen(&Selector::Condition(&|sc: &Screen| sc.wix == 1)), s.screens.get(1));
}

#[test]
fn unmanaged_window_types_are_not_added_to_workspaces() {
    let mut s = test_state();
    let c = Client::new(10, 0, false, true, None, None, None, None, None, None);
    s.clients.insert(10, c);
    let steps = s.manage_new_client(10, false, true).unwrap(); // should not be tiled
    assert_eq!(steps, vec![WmStep::MapWindow(10)]);
    assert!(s.clients.get(10).is_some());
    assert!(s.workspaces.inner.elements[0].is_empty());
}

#[test]
fn focusing_a_workspace_shown_elsewhere_swaps_the_screens() {
    let mut s = test_state();
    add_n_clients(&mut s, 1, 0);
    let steps = s.focus_workspace(&Selector::Index(1));
    assert_eq!(
        steps,
        vec![
            WmStep::ApplyLayout(0),
            WmStep::ApplyLayout(1),
            WmStep::SetCurrentWorkspace(1),
            WmStep::Event(EventAction::RunHook(HookName::WorkspaceChange(0, 1))),
        ]
    );
    assert_eq!(s.screens.visible_workspaces(), vec![1, 0]);
    assert_eq!(s.workspaces.previous_workspace, 0);
    let back = s.toggle_workspace();
    assert_eq!(back.len(), 5);
    assert_eq!(back[3], WmStep::UpdateFocus(10));
    assert_eq!(s.screens.visible_workspaces(), vec![0, 1]);
}

#[test]
fn focusing_a_hidden_workspace_hides_and_shows_clients() {
    let mut s = test_state();
    add_n_clients(&mut s, 2, 0); // [20, 10] on workspace 0
    let steps = s.focus_workspace(&Selector::Index(4));
    assert_eq!(
        steps,
        vec![
            WmStep::UnmapIfNeeded(20),
            WmStep::UnmapIfNeeded(10),
            WmStep::ApplyLayout(4),
            WmStep::SetCurrentWorkspace(4),
            WmStep::Event(EventAction::RunHook(HookName::WorkspaceChange(0, 4))),
        ]
    );
    assert_eq!(s.screens.visible_workspaces(), vec![4, 1]);
    assert!(s.focus_workspace(&Selector::Index(4)).is_empty());
    assert!(s.focus_workspace(&Selector::Index(99)).is_empty());
}

#[test]
fn mapping_a_client_on_the_active_workspace() {
    let mut s = test_state();
    let steps = map_request(&mut s, 10);
    assert_eq!(
        steps,
        vec![
            WmStep::SetClientWorkspace(10, 0),
            WmStep::Event(EventAction::RunHook(HookName::ClientAddedToWorkspace(10, 0))),
            WmStep::MarkNewClient(10),
            WmStep::UpdateFocus(10),
            WmStep::UpdateKnownClients,
            WmStep::ApplyLayout(0),
            WmStep::MapIfNeeded(10),
            WmStep::WarpCursor(Some(10)),
        ]
    );
    // mapping the same window twice is an error from its workspace
    let err = s.manage_new_client(10, true, true).unwrap_err();
    assert!(matches!(err, PenroseError::Raw(_)));
}

#[test]
fn floating_clients_are_placed_on_their_screen() {
    let mut s = test_state();
    let c = Client::new(7, 1, true, true, None, None, None, None, None, None);
    s.clients.insert(7, c);
    let steps = s.manage_new_client(7, true, false).unwrap();
    assert_eq!(
        steps,
        vec![
            WmStep::SetClientWorkspace(7, 1),
            WmStep::Event(EventAction::RunHook(HookName::ClientAddedToWorkspace(7, 1))),
            WmStep::PositionFloating(7, Region::new(1366, 0, 1366, 768)),
            WmStep::MarkNewClient(7),
            WmStep::UpdateFocus(7),
            WmStep::UpdateKnownClients,
        ]
    );
}

#[test]
fn untracked_clients_are_not_managed() {
    let mut s = test_state();
    assert!(s.manage_new_client(5, true, true).unwrap().is_empty());
    assert!(s.workspaces.inner.elements[0].is_empty());
}

#[test]
fn removing_a_client_lays_out_its_workspace() {
    let mut s = test_state();
    add_n_clients(&mut s, 2, 0);
    let steps = s.remove_client(10);
    assert_eq!(
        steps,
        vec![
            WmStep::ApplyLayout(0),
            WmStep::UpdateKnownClients,
            WmStep::Event(EventAction::RunHook(HookName::RemoveClient(10))),
        ]
    );
    assert_eq!(ids_on(&s, 0), vec![20]);
    assert!(s.remove_client(10).is_empty());
}

#[test]
fn focus_falls_back_to_the_active_workspace() {
    let mut s = test_state();
    assert_eq!(s.update_focus(99), vec![WmStep::FocusRoot]);
    add_n_clients(&mut s, 2, 0);
    let steps = s.update_focus(99);
    assert_eq!(steps[0], WmStep::SetCurrentWorkspace(0));
    assert_eq!(steps[1], WmStep::SetXFocus(20, true));
    assert_eq!(s.clients.focused_client_id(), Some(20));
}

#[test]
fn focus_follows_into_the_layout_when_asked() {
    let mut s = state_with(true);
    add_n_clients(&mut s, 2, 0);
    let steps = s.update_focus(10);
    assert_eq!(
        steps,
        vec![
            WmStep::Event(EventAction::ClientFocusLost(20)),
            WmStep::SetCurrentWorkspace(0),
            WmStep::SetXFocus(10, true),
            WmStep::ApplyLayout(0),
            WmStep::Event(EventAction::RunHook(HookName::FocusChange(10))),
        ]
    );
}

#[test]
fn moving_an_unknown_client_is_an_error() {
    let mut s = test_state();
    let err = s.move_client_to_workspace(77, 1).unwrap_err();
    assert!(matches!(err, PenroseError::UnknownClient(77)));
}

#[test]
fn fullscreen_hides_the_other_clients_and_back() {
    let mut s = test_state();
    add_n_clients(&mut s, 3, 0); // [30, 20, 10]
    let steps = s.set_fullscreen(20, true).unwrap();
    assert_eq!(
        steps,
        vec![
            WmStep::ToggleFullscreen(20, false),
            WmStep::UnmapIfNeeded(30),
            WmStep::PositionClient(20, Region::new(0, 0, 1366, 768), 0),
            WmStep::MapIfNeeded(20),
            WmStep::UnmapIfNeeded(10),
        ]
    );
    assert!(s.clients.get(20).unwrap().fullscreen);
    assert!(s.set_fullscreen(20, true).unwrap().is_empty());
    let steps = s.toggle_client_fullscreen(&Selector::WinId(20)).unwrap();
    assert_eq!(
        steps,
        vec![
            WmStep::ToggleFullscreen(20, true),
            WmStep::MapIfNeeded(30),
            WmStep::MapIfNeeded(10),
            WmStep::Event(EventAction::LayoutWorkspace(0)),
        ]
    );
    assert!(!s.clients.get(20).unwrap().fullscreen);
    assert!(matches!(s.set_fullscreen(5, true), Err(PenroseError::UnknownClient(5))));
}

#[test]
fn mapped_flags_only_change_once() {
    let mut s = test_state();
    add_n_clients(&mut s, 1, 0);
    assert_eq!(s.clients.map_if_needed(10), None);
    assert_eq!(s.clients.unmap_if_needed(10), Some(10));
    assert_eq!(s.clients.unmap_if_needed(10), None);
    assert_eq!(s.clients.map_if_needed(10), Some(10));
    assert_eq!(s.clients.map_if_needed(11), None);
}

#[test]
fn mod_dragging_clients_forward_from_index_0() {
    let mut s = test_state();
    add_n_clients(&mut s, 5, 0); // focus on last client (50) ix == 0

    let steps = s.drag_client(penrose::wm::ring::Direction::Forward);
    run(&mut s, steps);
    assert_eq!(s.clients.focused_client_id(), Some(50));
    assert_eq!(ids_on(&s, 0), vec![40, 50, 30, 20, 10]);

    let steps = s.drag_client(penrose::wm::ring::Direction::Forward);
    run(&mut s, steps);
    assert_eq!(s.clients.focused_client_id(), Some(50));
    assert_eq!(ids_on(&s, 0), vec![40, 30, 50, 20, 10]);

    let steps = s.update_focus(20);
    run(&mut s, steps);
    let steps = s.drag_client(penrose::wm::ring::Direction::Forward);
    run(&mut s, steps);
    assert_eq!(s.clients.focused_client_id(), Some(20));
    assert_eq!(ids_on(&s, 0), vec![40, 30, 50, 10, 20]);
}

#[test]
fn cycling_clients_moves_the_focus() {
    let mut s = test_state();
    add_n_clients(&mut s, 3, 0); // [30, 20, 10], focus on 30
    let steps = s.cycle_client(penrose::wm::ring::Direction::Forward);
    assert_eq!(
        steps,
        vec![
            WmStep::Event(EventAction::ClientFocusLost(30)),
            WmStep::UpdateFocus(20),
            WmStep::WarpCursor(Some(20)),
        ]
    );
    run(&mut s, steps);
    assert_eq!(s.clients.focused_client_id(), Some(20));
    assert_eq!(s.workspaces.inner.elements[0].focused_client(), Some(20));
}

#[test]
fn nothing_to_drag_without_focus() {
    let mut s = test_state();
    assert!(s.drag_client(penrose::wm::ring::Direction::Forward).is_empty());
    assert!(s.cycle_client(penrose::wm::ring::Direction::Forward).is_empty());
}

// A state with `n_screens` screens, nine workspaces with the layouts "first" and
// "second", and clients 0..n_clients mapped in order on the first workspace.
fn example_state(n_screens: usize, n_clients: u32) -> WmState {
    let conf = LayoutConf::default();
    let layouts = vec![Layout::new("first".to_string(), conf, 1), Layout::new("second".to_string(), conf, 1)];
    let workspaces: Vec<Workspace> =
        (1..=9).map(|i| Workspace::new(format!("{}", i), layouts.clone())).collect();
    let mut screens = Screens::new(18, true);
    screens.update_known_screens(test_screens().into_iter().take(n_screens).collect(), 9);
    let mut s = WmState {
        clients: Clients::new(0xffffff, 0x000000),
        screens,
        workspaces: Workspaces::new(workspaces),
    };
    for id in 0..n_clients {
        let steps = map_request(&mut s, id);
        run(&mut s, steps);
    }
    s
}

fn focused_client_id(s: &WmState) -> Option<Xid> {
    s.clients.focused_client_id()
}

#[test]
fn focus_client() {
    let mut s = example_state(1, 3);
    let (id, steps) = s.focus_client(&Selector::WinId(0)).unwrap();
    assert_eq!(id, 0);
    assert_eq!(steps.last(), Some(&WmStep::WarpCursor(Some(0))));
    assert!(matches!(s.focus_client(&Selector::WinId(42)), Err(PenroseError::NoMatchingElement)));
    let (id, _) = s.focus_client(&Selector::WinId(1)).unwrap();
    assert_eq!(id, 1);
    assert!(s.focus_client(&Selector::WinId(42)).is_err());
}

#[test]
fn focus_client_no_clients() {
    let mut s = example_state(1, 0);
    assert!(s.focus_client(&Selector::WinId(0)).is_err());
}

#[test]
fn cycle_client_updates_focus() {
    let mut s = example_state(1, 3);
    let (_, steps) = s.focus_client(&Selector::WinId(0)).unwrap();
    run(&mut s, steps);

    assert_eq!(focused_client_id(&s), Some(0));
    for expected in [1, 2, 0] {
        let steps = s.cycle_client(penrose::wm::ring::Direction::Backward);
        run(&mut s, steps);
        assert_eq!(focused_client_id(&s), Some(expected));
    }
}

#[test]
fn cycle_screen_updates_active() {
    let mut s = example_state(2, 0);

    assert_eq!(s.screens.active_screen_index(), 0);
    let steps = s.cycle_screen(penrose::wm::ring::Direction::Forward);
    assert_eq!(
        steps,
        vec![
            WmStep::WarpCursor(None),
            WmStep::Event(EventAction::SetActiveWorkspace(1)),
            WmStep::Event(EventAction::RunHook(HookName::ScreenChange)),
        ]
    );
    run(&mut s, steps);
    assert_eq!(s.screens.active_screen_index(), 1);
    assert!(s.cycle_screen(penrose::wm::ring::Direction::Forward).is_empty());
    assert_eq!(s.screens.active_screen_index(), 1);
}

#[test]
fn client() {
    let s = example_state(1, 3);
    assert_eq!(s.client(&Selector::Focused).unwrap().id, 2);
    assert_eq!(s.client(&Selector::Index(2)).unwrap().id, 0);
    assert!(s.client(&Selector::Index(3)).is_none());
}

#[test]
fn client_mut() {
    let mut s = example_state(1, 3);
    assert_eq!(s.client(&Selector::Focused).map(|c| c.workspace), Some(0));
    s.client_mut(&Selector::Focused).unwrap().set_workspace(5);
    assert_eq!(s.client(&Selector::Focused).map(|c| c.workspace), Some(5));
}

#[test]
fn mod_selector_client() {
    let mut s = test_state();
    add_n_clients(&mut s, 4, 0);

    assert_eq!(s.client(&Selector::Focused), s.clients.get(40));
    assert_eq!(s.client(&Selector::Index(2)), s.clients.get(20));
    assert_eq!(s.client(&Selector::WinId(30)), s.clients.get(30));
    assert_eq!(s.client(&Selector::Condition(&|c: &Client| c.id == 10)), s.clients.get(10));
}

#[test]
fn modify_changes_only_the_named_client() {
    let mut s = example_state(1, 2);
    s.clients.modify(1, |c: &mut Client| c.workspace = 7);
    assert_eq!(s.clients.get(1).map(|c| c.workspace), Some(7));
    assert_eq!(s.clients.get(0).map(|c| c.workspace), Some(0));
    s.clients.modify(9, |c: &mut Client| c.workspace = 7);
    assert!(s.clients.get(9).is_none());
}

fn existing(id: Xid, wix: usize) -> Client {
    let mut c = Client::new(id, wix, false, true, None, None, None, None, None, None);
    c.mapped = true;
    c
}

#[test]
fn existing_clients_are_taken_on_and_focused() {
    let mut s = test_state();
    let steps = s.manage_existing(vec![existing(10, 0), existing(20, 0), existing(30, 2), existing(40, 99)]).unwrap();
    assert_eq!(
        steps,
        vec![
            WmStep::SetClientWorkspace(10, 0),
            WmStep::Event(EventAction::RunHook(HookName::ClientAddedToWorkspace(10, 0))),
            WmStep::UnmapIfNeeded(10),
            WmStep::MarkNewClient(10),
            WmStep::SetClientWorkspace(20, 0),
            WmStep::Event(EventAction::RunHook(HookName::ClientAddedToWorkspace(20, 0))),
            WmStep::UnmapIfNeeded(20),
            WmStep::MarkNewClient(20),
            WmStep::SetClientWorkspace(30, 2),
            WmStep::Event(EventAction::RunHook(HookName::ClientAddedToWorkspace(30, 2))),
            WmStep::UnmapIfNeeded(30),
            WmStep::MarkNewClient(30),
            WmStep::UnmapIfNeeded(40),
            WmStep::MarkNewClient(40),
            WmStep::UpdateFocus(20),
            WmStep::UpdateKnownClients,
            WmStep::Event(EventAction::LayoutVisible),
        ]
    );
    assert_eq!(ids_on(&s, 0), vec![20, 10]);
    assert_eq!(ids_on(&s, 2), vec![30]);
    assert!(s.clients.is_known(40));
}

#[test]
fn taking_on_an_existing_client_twice_is_an_error() {
    let mut s = test_state();
    let r = s.manage_existing(vec![existing(10, 1), existing(10, 1), existing(20, 1)]);
    match r {
        Err(PenroseError::Raw(m)) => assert_eq!(m, "10 is already in this workspace"),
        other => panic!("unexpected: {:?}", other),
    }
    assert_eq!(ids_on(&s, 1), vec![10]);
    assert!(!s.clients.is_known(20));
}

#[test]
fn focus_in_and_floating_follow_the_tracked_client() {
    let mut s = test_state();
    let mut c = Client::new(10, 0, true, false, None, None, None, None, None, None);
    c.floating = true;
    s.clients.insert(10, c);
    assert_eq!(s.focus_in(10), WmStep::SetXFocus(10, false));
    assert_eq!(s.focus_in(77), WmStep::SetXFocus(77, true));
    assert!(s.is_floating(10));
    assert!(!s.is_floating(77));
}

#[test]
fn activating_a_client_focuses_it_or_fails_for_an_unknown_one() {
    let mut s = test_state();
    add_n_clients(&mut s, 2, 0);
    assert!(matches!(s.set_active_client(99), Err(PenroseError::UnknownClient(99))));
    let steps = s.set_active_client(10).unwrap();
    assert_eq!(steps.last(), Some(&WmStep::WarpCursor(Some(10))));
    assert_eq!(s.clients.focused_client_id(), Some(10));
}

#[test]
fn well_formedness_and_insert_points_are_checked() {
    let mut s = test_state();
    assert!(s.is_wf());
    assert!(s.insert_point_fits());
    s.workspaces.set_client_insert_point(penrose::wm::ring::InsertPoint::Index(3));
    assert!(!s.insert_point_fits());
    s.workspaces.inner.focused = 42;
    assert!(!s.is_wf());
}

#[test]
fn contributed_hooks_name_the_root_window() {
    let mut s = test_state();
    let c = Client::new(10, 0, false, true, Some("term".to_string()), None, None, None, None, None);
    s.clients.insert(10, c);
    assert_eq!(ActiveClientAsRootName::new().new_client(&s, 10), vec![WmStep::SetRootWindowName("term".to_string())]);
    assert_eq!(LayoutSymbolAsRootName::new().layout_change(&s), vec![WmStep::SetRootWindowName("t".to_string())]);
    let mut s = test_state();
    let steps = ManageExistingClients::new().startup(&mut s, vec![existing(10, 0)]).unwrap();
    assert_eq!(steps.len(), 7);
    assert_eq!(ids_on(&s, 0), vec![10]);
}

#[test]
fn focusing_a_workspace_equal_to_the_active_one_does_nothing() {
    let layouts = test_layouts(false);
    let workspaces = vec![
        Workspace::new("a".to_string(), layouts.clone()),
        Workspace::new("a".to_string(), layouts.clone()),
        Workspace::new("b".to_string(), layouts.clone()),
    ];
    let mut screens = Screens::new(18, true);
    screens.update_known_screens(test_screens().into_iter().take(1).collect(), 3);
    let mut s = WmState { clients: Clients::new(0xffffff, 0x000000), screens, workspaces: Workspaces::new(workspaces) };
    assert!(s.focus_workspace(&Selector::Index(1)).is_empty());
    assert_eq!(s.screens.visible_workspaces(), vec![0]);
    assert!(!s.focus_workspace(&Selector::Index(2)).is_empty());
    assert_eq!(s.screens.visible_workspaces(), vec![2]);
}

#[test]
fn drag_workspace_move_focused_workspaces_between_screens() {
    let mut s = example_state(2, 0);
    assert_eq!(s.focused_workspaces(), vec![0, 1]);
    let steps = s.drag_workspace(penrose::wm::ring::Direction::Forward);
    assert_eq!(steps[0], WmStep::WarpCursor(None));
    assert_eq!(s.focused_workspaces(), vec![1, 0]);
    assert!(s.drag_workspace(penrose::wm::ring::Direction::Forward).is_empty());
    assert_eq!(s.focused_workspaces(), vec![1, 0]);
}

#[test]
fn mod_getting_all_clients_on_workspace() {
    let mut s = test_state();
    add_n_clients(&mut s, 3, 0);
    focus_workspace(&mut s, 1);
    add_n_clients(&mut s, 2, 3);

    let ws_0 = |c: &Client| c.workspace == 0;
    let ws_1 = |c: &Client| c.workspace == 1;
    assert_eq!(s.all_clients(&Selector::Condition(&ws_0)).len(), 3);
    assert_eq!(s.all_clients(&Selector::Condition(&ws_1)).len(), 2);
    let second: Vec<Xid> = s.all_clients(&Selector::Index(1)).iter().map(|c| c.id).collect();
    assert_eq!(second, vec![40]);
    assert!(s.all_clients(&Selector::Index(7)).is_empty());
}

#[test]
fn killing_a_client_does_not_remove_it_from_the_workspace() {
    let mut s = test_state();
    add_n_clients(&mut s, 1, 0);
    assert_eq!(s.kill_client(), vec![WmStep::KillClient(10)]);
    assert_eq!(s.workspaces.inner.elements[0].len(), 1);
    assert_eq!(s.layout_screen(1), vec![WmStep::ApplyLayout(1)]);
    assert!(s.layout_screen(5).is_empty());
}

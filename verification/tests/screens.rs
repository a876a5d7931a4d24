use penrose::wm::data_types::Region;
use penrose::wm::hooks::HookName;
use penrose::wm::manager::event::EventAction;
use penrose::wm::manager::screens::Screens;
use penrose::wm::ring::{Direction, Selector};
use penrose::wm::screen::Screen;

fn raw_screens() -> Vec<Screen> {
    vec![
        Screen::new(Region::new(0, 0, 1366, 768), 0),
        Screen::new(Region::new(1366, 0, 1366, 768), 1),
    ]
}

#[test]
fn update_known_screens_generates_events_when_there_is_a_change() {
    let mut s = Screens::new(10, true);
    let events = s.update_known_screens(raw_screens(), 10);

    assert_eq!(
        events,
        vec![
            EventAction::LayoutVisible,
            EventAction::RunHook(HookName::ScreenUpdated),
        ]
    )
}

#[test]
fn update_known_screens_doesnt_generates_events_when_screens_are_unchanged() {
    let mut s = Screens::new(10, true);
    s.update_known_screens(raw_screens(), 10);
    let events = s.update_known_screens(raw_screens(), 10);

    assert!(events.is_empty());
}

#[test]
fn changing_focus_generates_event_actions() {
    let mut s = Screens::new(10, true);
    s.update_known_screens(raw_screens(), 10);
    let events = s.focus_screen(&Selector::Index(1));

    assert_eq!(
        events,
        vec![
            EventAction::SetActiveWorkspace(1),
            EventAction::RunHook(HookName::ScreenChange)
        ]
    )
}

#[test]
fn changing_focus_only_generates_event_actions_on_change() {
    let mut s = Screens::new(10, true);
    s.update_known_screens(raw_screens(), 10);
    let events = s.focus_screen(&Selector::Index(0));

    assert!(events.is_empty());
}

#[test]
fn cycle_screen_generates_event_actions() {
    let mut s = Screens::new(10, true);
    s.update_known_screens(raw_screens(), 10);
    let events = s.cycle_screen(Direction::Forward);

    assert_eq!(
        events,
        vec![
            EventAction::SetActiveWorkspace(1),
            EventAction::RunHook(HookName::ScreenChange)
        ]
    )
}

#[test]
fn cycle_screen_does_not_generate_event_actions_when_unable_to_cycle() {
    let mut s = Screens::new(10, true);
    s.update_known_screens(raw_screens(), 10);
    let events = s.cycle_screen(Direction::Backward);

    assert!(events.is_empty())
}

#[test]
fn new_screens_take_the_lowest_workspaces_not_yet_visible() {
    let mut s = Screens::new(10, true);
    s.update_known_screens(raw_screens(), 10);
    s.focus_screen(&Selector::Index(1));
    assert_eq!(s.visible_workspaces(), vec![0, 1]);
    let mut three = raw_screens();
    three.push(Screen::new(Region::new(2732, 0, 1366, 768), 7));
    let events = s.update_known_screens(three, 10);
    assert_eq!(
        events,
        vec![
            EventAction::LayoutVisible,
            EventAction::RunHook(HookName::ScreenUpdated),
        ]
    );
    assert_eq!(s.visible_workspaces(), vec![0, 1, 2]);
    assert_eq!(s.n_screens(), 3);
    assert_eq!(s.active_screen_index(), 0);
}

#[test]
fn fewer_screens_keep_the_workspaces_from_the_left() {
    let mut s = Screens::new(10, true);
    s.update_known_screens(raw_screens(), 10);
    let one = vec![Screen::new(Region::new(0, 0, 1366, 768), 5)];
    s.update_known_screens(one, 10);
    assert_eq!(s.visible_workspaces(), vec![0]);
    assert_eq!(s.indexed_screen_for_workspace(1).map(|(i, _)| i), None);
    assert_eq!(s.indexed_screen_for_workspace(0).map(|(i, _)| i), Some(0));
}

#[test]
fn screen_size_leaves_room_for_the_bar() {
    let mut s = Screens::new(10, true);
    s.update_known_screens(raw_screens(), 10);
    assert_eq!(s.screen_size(1, true), Some(Region::new(1366, 10, 1366, 758)));
    assert_eq!(s.screen_size(1, false), Some(Region::new(1366, 0, 1366, 768)));
    assert_eq!(s.screen_size(2, true), None);
}

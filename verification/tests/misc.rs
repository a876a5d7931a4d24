use penrose::example_helpers::example_screens;
use penrose::pure::geometry::Rect;
use penrose::wm::data_types::Region;
use penrose::wm::key_bindings::{names_in_order, KeyBindingError};
use penrose::wm::layout::{Layout, LayoutConf};
use penrose::wm::manager::event::EventAction;
use penrose::wm::manager::workspaces::Workspaces;
use penrose::wm::hooks::HookName;
use penrose::wm::ring::{Direction, Selector};
use penrose::wm::workspace::Workspace;
use penrose::wm::{left_to_right, top_to_bottom};
use penrose::wm::xconnection::property::{WmHints, STATE_HINT};
use penrose::builtin::layout::messages::Hide;
use penrose::wm::layout::ShutDown;
use penrose::wm::xcb::{WinAttr, WinConfig};
use penrose::wm::xconnection::{ClientAttr, ClientConfig};
use penrose::{decimal_string, Error, PenroseError};
use std::cmp::Ordering;

#[test]
fn decimal_text_of_numbers() {
    assert_eq!(decimal_string(0), "0");
    assert_eq!(decimal_string(7), "7");
    assert_eq!(decimal_string(1234567), "1234567");
}

#[test]
fn error_messages() {
    assert_eq!(Error::Custom("boom".to_string()).message(), "boom");
    assert_eq!(Error::UnknownModifier { name: "X".to_string() }.message(), "'X' is not a known modifier key");
    assert_eq!(Error::UnknownMouseButton { button: 9 }.message(), "9 is not a supported mouse button");
    let e = Error::InvalidKeyBindings {
        errors: vec![
            KeyBindingError { binding: "M-q".to_string(), error: Error::UnknownKeyName { name: "q".to_string() } },
            KeyBindingError { binding: "M-w".to_string(), error: Error::Custom("no keys in binding".to_string()) },
        ],
    };
    assert_eq!(e.summary(), "invalid key bindings");
    assert_eq!(
        e.message(),
        "invalid key bindings: 'M-q': 'q' is not a known key name, 'M-w': no keys in binding"
    );
}

#[test]
fn names_are_ordered_by_their_bytes() {
    assert!(names_in_order("a", "b"));
    assert!(names_in_order("a", "ab"));
    assert!(!names_in_order("b", "a"));
    assert!(!names_in_order("a", "a"));
    assert!(names_in_order("Z", "a"));
}

#[test]
fn screens_sort_left_to_right_and_top_to_bottom() {
    let a = Rect::new(0, 100, 10, 10);
    let b = Rect::new(100, 0, 10, 10);
    assert_eq!(left_to_right(&a, &b), Ordering::Less);
    assert_eq!(top_to_bottom(&a, &b), Ordering::Greater);
    assert_eq!(left_to_right(&a, &a), Ordering::Equal);
}

#[test]
fn example_screens_show_one_workspace_each() {
    let screens = example_screens(2);
    assert_eq!(screens.len(), 2);
    assert_eq!(screens[1].wix, 1);
    assert_eq!(screens[0].true_region, Region::new(2160, 1600, 1080, 800));
}

fn workspaces(n: usize) -> Workspaces {
    let layouts = vec![Layout::new("t".to_string(), LayoutConf::default(), 1)];
    Workspaces::new((0..n).map(|i| Workspace::new(format!("{}", i + 1), layouts.clone())).collect())
}

#[test]
fn workspaces_hold_clients_once() {
    let mut ws = workspaces(3);
    assert_eq!(
        ws.add_client(1, 42).unwrap(),
        Some(EventAction::RunHook(HookName::ClientAddedToWorkspace(42, 1)))
    );
    assert_eq!(ws.add_client(7, 42).unwrap(), None);
    assert!(matches!(ws.add_client(1, 42), Err(PenroseError::Raw(_))));
    assert_eq!(ws.client_ids(1).unwrap(), vec![42]);
    assert!(matches!(ws.client_ids(9), Err(PenroseError::Raw(_))));
    ws.remove_client(1, 42);
    assert!(ws.client_ids(1).unwrap().is_empty());
}

#[test]
fn workspaces_cycle_and_rename() {
    let mut ws = workspaces(3);
    assert_eq!(ws.cycle_workspace(Direction::Backward), 2);
    assert_eq!(ws.workspace_names(), vec!["1", "2", "3"]);
    ws.set_workspace_name("web".to_string(), 1);
    assert_eq!(ws.workspace_names(), vec!["1", "web", "3"]);
    assert_eq!(ws.current_layout_symbol(0), "t");
    assert_eq!(ws.current_layout_symbol(8), "???");
    assert_eq!(ws.workspace(&Selector::Index(1)).map(|w| w.name.clone()), Some("web".to_string()));
}

#[test]
fn error_texts_name_the_offending_values() {
    let r = Region::new(0, 0, 10, 10);
    match r.split_at_width(20) {
        Err(PenroseError::Raw(m)) => assert_eq!(m, "Region split is out of range: 20 >= 10"),
        other => panic!("unexpected: {:?}", other),
    }
    match WmHints::try_from_bytes(&[0, 1]) {
        Err(PenroseError::InvalidHints(m)) => {
            assert_eq!(m, "raw bytes should be [u32; 9] for WmHints, got [u32; 2]")
        }
        other => panic!("unexpected: {:?}", other),
    }
    let raw: [u32; 9] = [STATE_HINT, 0, 7, 0, 0, 0, 0, 0, 0];
    match WmHints::try_from_bytes(&raw) {
        Err(PenroseError::InvalidHints(m)) => assert_eq!(m, "initial state flag should be 0, 1, 2: got 7"),
        other => panic!("unexpected: {:?}", other),
    }
}

#[test]
fn window_changes_as_protocol_data() {
    assert_eq!(WinConfig::BorderPx(3).as_data(), vec![(16u16, 3u32)]);
    assert_eq!(
        WinConfig::Position(Region::new(1, 2, 3, 4)).as_data(),
        vec![(1u16, 1u32), (2, 2), (4, 3), (8, 4)]
    );
    assert_eq!(WinConfig::StackAbove.as_data(), vec![(64u16, 0u32)]);
    assert_eq!(WinAttr::BorderColor(0xff00ff).as_data(), vec![(8u32, 0xff00ffu32)]);
    assert_eq!(WinAttr::ClientEventMask.as_data(), vec![(2048u32, 4325424u32)]);
    assert_eq!(WinAttr::RootEventMask.as_data(), vec![(2048u32, 5775360u32)]);
    let _ = (ClientConfig::StackAbove, ClientAttr::RootEventMask, ShutDown, Hide);
}

#[test]
fn would_focus_compares_the_selected_workspaces() {
    let ws = workspaces(3);
    assert!(ws.would_focus(0, &Selector::Focused));
    assert!(ws.would_focus(2, &Selector::Index(2)));
    assert!(!ws.would_focus(1, &Selector::Index(2)));
    assert!(!ws.would_focus(5, &Selector::Index(5)));
}

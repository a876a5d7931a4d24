use penrose::contrib::extensions::scratchpad::{ScratchpadState, ScratchpadStep};

#[test]
fn toggling_spawns_then_shows_and_hides() {
    let mut s = ScratchpadState::new();
    assert_eq!(s.toggle(), ScratchpadStep::Spawn);
    assert!(s.pending);
    assert_eq!(s.new_client(7), Some(ScratchpadStep::Show(7)));
    assert_eq!(s.shown_client(), Some(7));
    assert_eq!(s.new_client(8), None);
    assert_eq!(s.toggle(), ScratchpadStep::Hide(7));
    assert_eq!(s.shown_client(), None);
    assert_eq!(s.toggle(), ScratchpadStep::Show(7));
}

#[test]
fn losing_the_client_spawns_again() {
    let mut s = ScratchpadState::new();
    assert_eq!(s.new_client(3), None);
    s.toggle();
    s.new_client(3);
    s.remove_client(4);
    assert_eq!(s.client, Some(3));
    s.remove_client(3);
    assert_eq!(s.client, None);
    assert!(!s.visible);
    assert_eq!(s.toggle(), ScratchpadStep::Spawn);
}

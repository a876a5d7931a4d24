use penrose::data_types::{Direction, Ring};

#[test]
fn data_types_rotate_holds_focus_but_permutes_order() {
    let mut r = Ring::new(vec![1, 2, 3]);

    r.rotate(Direction::Forward);
    assert_eq!(r.as_vec(), vec![3, 1, 2]);
    assert_eq!(r.focused(), Some(&3));

    r.rotate(Direction::Backward);
    assert_eq!(r.as_vec(), vec![1, 2, 3]);
    assert_eq!(r.focused(), Some(&1));
}

#[test]
fn data_types_dragging_an_element_forward() {
    let mut r = Ring::new(vec![1, 2, 3, 4]);
    assert_eq!(r.focused(), Some(&1));

    assert_eq!(r.drag_focused(Direction::Forward), Some(&1));
    assert_eq!(r.elements, vec![2, 1, 3, 4]);

    assert_eq!(r.drag_focused(Direction::Forward), Some(&1));
    assert_eq!(r.elements, vec![2, 3, 1, 4]);

    assert_eq!(r.drag_focused(Direction::Forward), Some(&1));
    assert_eq!(r.elements, vec![2, 3, 4, 1]);

    assert_eq!(r.drag_focused(Direction::Forward), Some(&1));
    assert_eq!(r.elements, vec![1, 2, 3, 4]);

    assert_eq!(r.focused(), Some(&1));
}

#[test]
fn data_types_dragging_an_element_backward() {
    let mut r = Ring::new(vec![1, 2, 3, 4]);
    assert_eq!(r.focused(), Some(&1));

    assert_eq!(r.drag_focused(Direction::Backward), Some(&1));
    assert_eq!(r.elements, vec![2, 3, 4, 1]);

    assert_eq!(r.drag_focused(Direction::Backward), Some(&1));
    assert_eq!(r.elements, vec![2, 3, 1, 4]);

    assert_eq!(r.drag_focused(Direction::Backward), Some(&1));
    assert_eq!(r.elements, vec![2, 1, 3, 4]);

    assert_eq!(r.drag_focused(Direction::Backward), Some(&1));
    assert_eq!(r.elements, vec![1, 2, 3, 4]);

    assert_eq!(r.focused(), Some(&1));
}

#[test]
fn data_types_remove_focused() {
    let mut r = Ring::new(vec![1, 2, 3]);
    r.focused = 2;
    assert_eq!(r.focused(), Some(&3));
    assert_eq!(r.remove_focused(), Some(3));
    assert_eq!(r.focused(), Some(&2));
    assert_eq!(r.remove_focused(), Some(2));
    assert_eq!(r.focused(), Some(&1));
    assert_eq!(r.remove_focused(), Some(1));
    assert_eq!(r.focused(), None);
    assert_eq!(r.remove_focused(), None);
}

#[test]
fn remove_by() {
    let mut r = Ring::new(vec![1, 2, 3, 4, 5, 6]);
    r.focused = 3;
    assert_eq!(r.focused(), Some(&4));
    assert_eq!(r.remove_by(|e| e % 2 == 0), Some(2));
    assert_eq!(r.focused(), Some(&5));
}

#[test]
fn focus_by() {
    let mut r = Ring::new(vec![1, 2, 3, 4, 5, 6]);
    assert_eq!(r.focus_by(|e| e % 2 == 0), Some(&2));
    assert_eq!(r.focus_by(|e| e % 7 == 0), None);
}

#[test]
fn data_types_cycle_focus() {
    let mut r = Ring::new(vec![1, 2, 3]);
    assert_eq!(r.cycle_focus(Direction::Forward), Some(&2));
    assert_eq!(r.as_vec(), vec![1, 2, 3]);
    assert_eq!(r.cycle_focus(Direction::Backward), Some(&1));
    assert_eq!(r.as_vec(), vec![1, 2, 3]);
}

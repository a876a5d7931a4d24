use penrose::wm::ring::{Direction, InsertPoint, Ring, Selector};

#[test]
fn ring_rotate_holds_focus_but_permutes_order() {
    let mut r = Ring::new(vec![1, 2, 3]);

    r.rotate(Direction::Forward);
    assert_eq!(r.as_vec(), vec![3, 1, 2]);
    assert_eq!(r.focused(), Some(&3));

    r.rotate(Direction::Backward);
    assert_eq!(r.as_vec(), vec![1, 2, 3]);
    assert_eq!(r.focused(), Some(&1));
}

#[test]
fn ring_dragging_an_element_forward() {
    let mut r = Ring::new(vec![1, 2, 3, 4]);
    assert_eq!(r.focused(), Some(&1));

    assert_eq!(r.drag_focused(Direction::Forward), Some(&1));
    assert_eq!(r.elements, vec![2, 1, 3, 4]);

    assert_eq!(r.drag_focused(Direction::Forward), Some(&1));
    assert_eq!(r.elements, vec![2, 3, 1, 4]);

    assert_eq!(r.drag_focused(Direction::Forward), Some(&1));
    assert_eq!(r.elements, vec![2, 3, 4, 1]);

    assert_eq!(r.drag_focused(Direction::Forward), Some(&1));
    assert_eq!(r.elements, vec![1, 2, 3, 4]);

    assert_eq!(r.focused(), Some(&1));
}

#[test]
fn ring_dragging_an_element_backward() {
    let mut r = Ring::new(vec![1, 2, 3, 4]);
    assert_eq!(r.focused(), Some(&1));

    assert_eq!(r.drag_focused(Direction::Backward), Some(&1));
    assert_eq!(r.elements, vec![2, 3, 4, 1]);

    assert_eq!(r.drag_focused(Direction::Backward), Some(&1));
    assert_eq!(r.elements, vec![2, 3, 1, 4]);

    assert_eq!(r.drag_focused(Direction::Backward), Some(&1));
    assert_eq!(r.elements, vec![2, 1, 3, 4]);

    assert_eq!(r.drag_focused(Direction::Backward), Some(&1));
    assert_eq!(r.elements, vec![1, 2, 3, 4]);

    assert_eq!(r.focused(), Some(&1));
}

#[test]
fn ring_remove_focused() {
    let mut r = Ring::new(vec![1, 2, 3]);
    r.focused = 2;
    assert_eq!(r.focused(), Some(&3));
    assert_eq!(r.remove(&Selector::Focused), Some(3));
    assert_eq!(r.focused_index(), 1);
    assert_eq!(r.focused(), Some(&2));
    assert_eq!(r.remove(&Selector::Focused), Some(2));
    assert_eq!(r.focused(), Some(&1));
    assert_eq!(r.remove(&Selector::Focused), Some(1));
    assert_eq!(r.focused(), None);
    assert_eq!(r.remove(&Selector::Focused), None);
}

#[test]
fn indices_are_in_bounds() {
    let r = Ring::new(vec![1, 2, 3, 4, 5, 6]);
    assert_eq!(r.index(&Selector::Index(2)), Some(2));
    assert_eq!(r.index(&Selector::Index(42)), None);
}

#[test]
fn remove() {
    let mut r = Ring::new(vec![1, 2, 3, 4, 5, 6]);
    r.focused = 3;
    assert_eq!(r.focused(), Some(&4));
    assert_eq!(r.remove(&Selector::Condition(&|e: &i32| e % 2 == 0)), Some(2));
    assert_eq!(r.focused(), Some(&5));
}

#[test]
fn focus() {
    let mut r = Ring::new(vec![1, 2, 3, 4, 5, 6]);
    assert_eq!(r.focused, 0);
    assert_eq!(
        r.focus(&Selector::Condition(&|e: &i32| e % 2 == 0)),
        Some((true, &2)) // focus point updated
    );
    assert_eq!(
        r.focus(&Selector::Condition(&|e: &i32| e % 2 == 0)),
        Some((false, &2)) // no focus change this time
    );
    assert_eq!(r.focus(&Selector::Condition(&|e: &i32| e % 7 == 0)), None);
}

#[test]
fn ring_cycle_focus() {
    let mut r = Ring::new(vec![1, 2, 3]);
    assert_eq!(r.cycle_focus(Direction::Forward), Some(&2));
    assert_eq!(r.as_vec(), vec![1, 2, 3]);
    assert_eq!(r.cycle_focus(Direction::Backward), Some(&1));
    assert_eq!(r.as_vec(), vec![1, 2, 3]);
}

#[test]
fn element() {
    let mut r = Ring::new(vec![1, 2, 3, 4]);
    assert_eq!(r.element(&Selector::Condition(&|e: &i32| e % 2 == 0)), Some(&2));
    assert_eq!(
        r.element_mut(&Selector::Condition(&|e: &i32| e % 2 == 0)),
        Some(&mut 2)
    );

    assert_eq!(r.element(&Selector::Index(2)), Some(&3));
    assert_eq!(r.element_mut(&Selector::Index(2)), Some(&mut 3));
    assert_eq!(r.element(&Selector::Index(50)), None);
    assert_eq!(r.element_mut(&Selector::Index(50)), None);

    r.focus(&Selector::Index(1));
    assert_eq!(r.element(&Selector::Focused), Some(&2));
    assert_eq!(r.element_mut(&Selector::Focused), Some(&mut 2));

    assert_eq!(r.element(&Selector::WinId(42)), None);
    assert_eq!(r.element_mut(&Selector::WinId(69)), None);

    assert_eq!(r.as_vec(), vec![1, 2, 3, 4]);
}

#[test]
fn indexed_element() {
    let r = Ring::new(vec![2, 3, 5, 7, 11]);
    assert_eq!(r.indexed_element(&Selector::Focused), Some((0, &2)));
    assert_eq!(r.indexed_element(&Selector::Index(3)), Some((3, &7)));
    assert_eq!(
        r.indexed_element(&Selector::Condition(&|n: &i32| n % 5 == 0)),
        Some((2, &5))
    );
}

#[test]
fn all_elements() {
    let mut r = Ring::new(vec![1, 2, 3, 4]);
    assert_eq!(
        r.all_elements(&Selector::Condition(&|e: &i32| e % 2 == 0)),
        vec![&2, &4]
    );

    assert_eq!(r.all_elements(&Selector::Index(2)), vec![&3]);
    assert_eq!(r.all_elements(&Selector::Index(50)), vec![&0; 0]);

    r.focus(&Selector::Index(1));
    assert_eq!(r.all_elements(&Selector::Focused), vec![&2]);

    assert_eq!(r.all_elements(&Selector::WinId(42)), vec![&0; 0]);

    assert_eq!(r.as_vec(), vec![1, 2, 3, 4]);
}

#[test]
fn insert_points() {
    let mut r = Ring::new(vec![0, 0]);
    r.insert_at(&InsertPoint::First, 1);
    assert_eq!(r.as_vec(), vec![1, 0, 0]);
    r.insert_at(&InsertPoint::Last, 2);
    assert_eq!(r.as_vec(), vec![1, 0, 0, 2]);
    r.insert_at(&InsertPoint::Index(3), 3);
    assert_eq!(r.as_vec(), vec![1, 0, 0, 3, 2]);
    r.focus(&Selector::Index(1));
    r.insert_at(&InsertPoint::Focused, 4);
    assert_eq!(r.as_vec(), vec![1, 4, 0, 0, 3, 2]);
    r.insert_at(&InsertPoint::AfterFocused, 5);
    assert_eq!(r.as_vec(), vec![1, 4, 5, 0, 0, 3, 2]);
    r.focus(&Selector::Index(6));
    r.insert_at(&InsertPoint::AfterFocused, 6);
    assert_eq!(r.as_vec(), vec![1, 4, 5, 0, 0, 3, 2, 6]);
}

#[test]
fn vec_map() {
    let contents = vec!["this", "is", "a", "lot", "nicer"];
    let r = Ring::new(contents.clone());
    let lens = r.vec_map(|s| s.len());
    assert_eq!(lens, vec![4, 2, 1, 3, 5]);
    assert_eq!(r.as_vec(), contents);
}

#[test]
fn apply_to() {
    let contents = vec!["original", "original", "original"];
    let mut r = Ring::new(contents.clone());
    r.apply_to(&Selector::Index(2), |s| *s = "mutated");
    assert_eq!(r.as_vec(), vec!["original", "original", "mutated"]);
}

#[test]
fn cycling_from_a_focus_out_of_range_selects_nothing() {
    let mut r = Ring { elements: vec![1, 2, 3], focused: 7 };
    assert_eq!(r.cycle_focus(Direction::Forward), None);
    assert_eq!(r.focused, 8);
    assert_eq!(r.cycle_focus(Direction::Backward), None);
    assert_eq!(r.focused, 7);
    let mut r = Ring { elements: vec![1, 2, 3], focused: 3 };
    assert_eq!(r.cycle_focus(Direction::Backward), Some(&3));
}

#[test]
fn apply_to_changes_only_the_selected_element() {
    let mut r = Ring::new(vec![1, 2, 3]);
    r.apply_to(&Selector::Index(1), |x: &mut i32| *x *= 10);
    assert_eq!(r.as_vec(), vec![1, 20, 3]);
    r.apply_to(&Selector::Index(9), |x: &mut i32| *x = 0);
    assert_eq!(r.as_vec(), vec![1, 20, 3]);
}

use penrose::builtin::layout::messages::{inc_main, IncMain};
use penrose::builtin::layout::tiling::{
    layout_bottom, layout_grid, layout_horizontal, layout_side, layout_vertical, Grid, Monocle,
};
use penrose::pure::geometry::Rect;
use penrose::Xid;

fn ids(n: u32) -> Vec<Xid> {
    (1..=n).map(Xid).collect()
}

#[test]
fn side_stack_beside_the_main_area() {
    let r = Rect::new(0, 0, 1000, 600);
    assert_eq!(
        layout_side(&ids(3), r, 1, false, 600, false),
        vec![
            (Xid(1), Rect::new(0, 0, 600, 600)),
            (Xid(2), Rect::new(600, 0, 400, 300)),
            (Xid(3), Rect::new(600, 300, 400, 300)),
        ]
    );
    assert_eq!(
        layout_side(&ids(3), r, 1, false, 600, true),
        vec![
            (Xid(1), Rect::new(600, 0, 400, 600)),
            (Xid(2), Rect::new(0, 0, 600, 300)),
            (Xid(3), Rect::new(0, 300, 600, 300)),
        ]
    );
    assert_eq!(layout_side(&ids(1), r, 1, false, 600, false), vec![(Xid(1), r)]);
    assert_eq!(
        layout_side(&ids(2), r, 1, true, 600, false),
        vec![(Xid(1), Rect::new(0, 0, 1000, 300)), (Xid(2), Rect::new(0, 300, 1000, 300))]
    );
    assert!(layout_side(&[], r, 1, false, 600, false).is_empty());
}

#[test]
fn bottom_stack_below_the_main_area() {
    let r = Rect::new(0, 0, 1000, 600);
    assert_eq!(
        layout_bottom(&ids(3), r, 1, false, 400, false),
        vec![
            (Xid(1), Rect::new(0, 0, 1000, 400)),
            (Xid(2), Rect::new(0, 400, 500, 200)),
            (Xid(3), Rect::new(500, 400, 500, 200)),
        ]
    );
    assert_eq!(
        layout_bottom(&ids(2), r, 0, false, 400, false),
        vec![(Xid(1), Rect::new(0, 0, 500, 600)), (Xid(2), Rect::new(500, 0, 500, 600))]
    );
}

#[test]
fn centered_main_with_stacks_either_side() {
    let r = Rect::new(0, 0, 1000, 600);
    assert_eq!(
        layout_vertical(&ids(5), r, 1, false, 600, 800),
        vec![
            (Xid(1), Rect::new(200, 0, 600, 600)),
            (Xid(2), Rect::new(0, 0, 200, 300)),
            (Xid(3), Rect::new(0, 300, 200, 300)),
            (Xid(4), Rect::new(800, 0, 200, 300)),
            (Xid(5), Rect::new(800, 300, 200, 300)),
        ]
    );
    assert_eq!(layout_vertical(&ids(1), r, 1, false, 600, 800), vec![(Xid(1), r)]);
}

#[test]
fn centered_main_with_stacks_above_and_below() {
    let r = Rect::new(0, 0, 1000, 600);
    assert_eq!(
        layout_horizontal(&ids(3), r, 1, false, 240, 450),
        vec![
            (Xid(1), Rect::new(0, 150, 1000, 300)),
            (Xid(2), Rect::new(0, 0, 1000, 150)),
            (Xid(3), Rect::new(0, 450, 1000, 150)),
        ]
    );
}

#[test]
fn grid_fills_rows_of_equal_cells() {
    let r = Rect::new(0, 0, 900, 600);
    assert_eq!(
        layout_grid(&ids(5), r),
        vec![
            (Xid(1), Rect::new(0, 0, 300, 300)),
            (Xid(2), Rect::new(300, 0, 300, 300)),
            (Xid(3), Rect::new(600, 0, 300, 300)),
            (Xid(4), Rect::new(0, 300, 300, 300)),
            (Xid(5), Rect::new(300, 300, 300, 300)),
        ]
    );
    assert_eq!(layout_grid(&ids(1), r), vec![(Xid(1), r)]);
    assert_eq!(
        layout_grid(&ids(4), r),
        vec![
            (Xid(1), Rect::new(0, 0, 450, 300)),
            (Xid(2), Rect::new(450, 0, 450, 300)),
            (Xid(3), Rect::new(0, 300, 450, 300)),
            (Xid(4), Rect::new(450, 300, 450, 300)),
        ]
    );
    assert!(layout_grid(&[], r).is_empty());
}

#[test]
fn message_handling() {
    assert_eq!(inc_main(1, IncMain(2)), 3);
    assert_eq!(inc_main(3, IncMain(-1)), 2);
    assert_eq!(inc_main(1, IncMain(-5)), 0);
}

#[test]
fn monocle_gives_the_focused_client_the_screen() {
    let r = Rect::new(5, 10, 300, 200);
    assert_eq!(Monocle.name(), "Mono");
    assert_eq!(Monocle.layout(Xid(4), r), vec![(Xid(4), r)]);
}

#[test]
fn grid_struct_lays_out_as_the_grid_function() {
    let r = Rect::new(0, 0, 90, 60);
    assert_eq!(Grid.name(), "Grid");
    assert_eq!(Grid.layout(&ids(5), r), layout_grid(&ids(5), r));
    assert_eq!(
        Grid.layout(&ids(2), r),
        vec![(Xid(1), Rect::new(0, 0, 45, 60)), (Xid(2), Rect::new(45, 0, 45, 60))]
    );
}

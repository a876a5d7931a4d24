use penrose::builtin::layout::transformers;
use penrose::pure::geometry::Rect;
use penrose::Xid;

#[test]
fn reflect_horizontal() {
    let cases = [
        (Rect::new(0, 0, 100, 200), Rect::new(0, 0, 100, 200)), // fullscreen is idempotent
        (Rect::new(0, 0, 40, 100), Rect::new(60, 0, 40, 100)),  // not crossing midpoint left
        (Rect::new(60, 0, 40, 100), Rect::new(0, 0, 40, 100)),  // not crossing midpoint right
        (Rect::new(0, 0, 60, 100), Rect::new(40, 0, 60, 100)),  // crossing midpoint
        (Rect::new(0, 0, 50, 100), Rect::new(50, 0, 50, 100)),  // on midpoint
    ];
    for (original, expected) in cases {
        let r = Rect::new(0, 0, 100, 200);
        let transformed = transformers::reflect_horizontal(r, vec![(Xid(1), original)]);

        assert_eq!(transformed, vec![(Xid(1), expected)]);
    }
}

#[test]
fn reflect_vertical() {
    let cases = [
        (Rect::new(0, 0, 100, 200), Rect::new(0, 0, 100, 200)), // fullscreen is idempotent
        (Rect::new(0, 0, 50, 80), Rect::new(0, 120, 50, 80)),   // not crossing midpoint above
        (Rect::new(0, 120, 50, 80), Rect::new(0, 0, 50, 80)),   // not crossing midpoint below
        (Rect::new(0, 0, 50, 120), Rect::new(0, 80, 50, 120)),  // crossing midpoint
        (Rect::new(0, 0, 50, 100), Rect::new(0, 100, 50, 100)), // on midpoint
    ];
    for (original, expected) in cases {
        let r = Rect::new(0, 0, 100, 200);
        let transformed = transformers::reflect_vertical(r, vec![(Xid(1), original)]);

        assert_eq!(transformed, vec![(Xid(1), expected)]);
    }
}

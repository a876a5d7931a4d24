use penrose::common::geometry::{Point, Region};

#[test]
fn contains_region() {
    let r1 = Region::new(10, 10, 50, 50);
    let r2 = Region::new(0, 0, 100, 100);

    assert!(r2.contains(&r1));
    assert!(!r1.contains(&r2));
}

#[test]
fn contains_point() {
    let cases = [
        (Point::new(0, 0), false),   // outside
        (Point::new(30, 20), true),  // inside
        (Point::new(10, 20), true),  // top left
        (Point::new(40, 20), true),  // top right
        (Point::new(10, 60), true),  // bottom left
        (Point::new(40, 60), true),  // bottom right
    ];
    for (p, expected) in cases {
        let r = Region::new(10, 20, 30, 40);

        assert_eq!(r.contains_point(&p), expected);
    }
}

#[test]
fn as_rows() {
    let cases = [
        (Region::new(0, 0, 100, 100), 1), // simple single
        (Region::new(0, 0, 100, 100), 4), // simple even
        (Region::new(0, 0, 100, 100), 7), // simple odd
        (Region::new(0, 0, 79, 57), 1),   // awkward single
        (Region::new(0, 0, 79, 57), 4),   // awkward even
        (Region::new(0, 0, 79, 57), 7),   // awkward odd
    ];
    for (r, n_rows) in cases {
        let regions = r.as_rows(n_rows);
        let h = regions[0].h;

        assert_eq!(regions.len(), n_rows as usize);
        assert!(regions.iter().all(|r| r.h == h));
    }
}

#[test]
fn as_columns() {
    let cases = [
        (Region::new(0, 0, 100, 100), 1), // simple single
        (Region::new(0, 0, 100, 100), 4), // simple even
        (Region::new(0, 0, 100, 100), 7), // simple odd
        (Region::new(0, 0, 79, 57), 1),   // awkward single
        (Region::new(0, 0, 79, 57), 4),   // awkward even
        (Region::new(0, 0, 79, 57), 7),   // awkward odd
    ];
    for (r, n_cols) in cases {
        let regions = r.as_rows(n_cols);
        let w = regions[0].w;

        assert_eq!(regions.len(), n_cols as usize);
        assert!(regions.iter().all(|r| r.w == w));
    }
}

#[test]
fn centered_in() {
    let cases = [
        (Region::new(0, 0, 10, 10), Some(Region::new(5, 5, 10, 10))),     // fits
        (Region::new(10, 10, 10, 10), Some(Region::new(5, 5, 10, 10))),   // fits overlaping
        (Region::new(100, 100, 10, 10), Some(Region::new(5, 5, 10, 10))), // fits but not contained
        (Region::new(0, 0, 100, 100), None),                              // doesn't fit
    ];
    for (inner, expected) in cases {
        let outer = Region::new(0, 0, 20, 20);

        let res = inner.centered_in(&outer);

        if let Some(r) = expected {
            assert!(res.is_ok());
            assert_eq!(res.unwrap(), r);
        } else {
            assert!(res.is_err());
        }
    }
}

#[test]
fn split_at_width() {
    let cases = [
        (0, 50, Some((50, 50))),  // half width
        (10, 50, Some((60, 40))), // offset half width
        (0, 100, None),           // at width
        (0, 200, None),           // out of range
    ];
    for (offset, p, expected) in cases {
        let r = Region::new(offset, 0, 100, 100);
        let res = r.split_at_width(p + offset);

        if let Some((w1, w2)) = expected {
            assert!(res.is_ok());

            let (r1, r2) = res.unwrap();
            assert_eq!(r1, Region::new(offset, 0, w1, 100));
            assert_eq!(r2, Region::new(offset + w1, 0, w2, 100));
        } else {
            assert!(res.is_err());
        }
    }
}

#[test]
fn split_at_height() {
    let cases = [
        (0, 50, Some((50, 50))),  // half height
        (10, 50, Some((60, 40))), // offset half height
        (0, 100, None),           // at height
        (0, 200, None),           // out of range
    ];
    for (offset, p, expected) in cases {
        let r = Region::new(0, offset, 100, 100);
        let res = r.split_at_height(p + offset);

        if let Some((h1, h2)) = expected {
            assert!(res.is_ok());

            let (r1, r2) = res.unwrap();
            assert_eq!(r1, Region::new(0, offset, 100, h1));
            assert_eq!(r2, Region::new(0, offset + h1, 100, h2));
        } else {
            assert!(res.is_err());
        }
    }
}

#[test]
fn centering_a_region_that_does_not_fit_names_both_regions() {
    let outer = Region::new(0, 0, 10, 10);
    let inner = Region::new(1, 2, 20, 5);
    assert_eq!(
        inner.centered_in(&outer),
        Err("enclosing does not conatain self: Region { x: 0, y: 0, w: 10, h: 10 } Region { x: 1, y: 2, w: 20, h: 5 }"
            .to_string())
    );
    let wm_outer = penrose::wm::data_types::Region::new(0, 0, 10, 10);
    let wm_inner = penrose::wm::data_types::Region::new(0, 0, 4, 40);
    match wm_inner.centered_in(&wm_outer) {
        Err(penrose::PenroseError::Raw(m)) => assert_eq!(
            m,
            "enclosing does not conatain self: Region { x: 0, y: 0, w: 10, h: 10 } Region { x: 0, y: 0, w: 4, h: 40 }"
        ),
        other => panic!("unexpected: {:?}", other),
    }
}

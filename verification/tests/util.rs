use penrose::wm::data_types::Region;
use penrose::wm::manager::util::pad_region;

#[test]
fn pad_region_centered() {
    let r = Region::new(0, 0, 200, 100);
    let g = 10;
    let b = 3;
    assert_eq!(pad_region(&r, false, g, b), Region::new(10, 10, 174, 74));
    assert_eq!(pad_region(&r, true, g, b), Region::new(0, 0, 194, 94));
}

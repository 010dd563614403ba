use bez_editor::geom::{DPoint, DVec2, ScreenPoint, ViewPort};
use bez_editor::guides::{Guide, GuideLine, GUIDE_PATH};
use bez_editor::path::IdGen;

#[test]
fn guides_get_fresh_reserved_ids() {
    let mut ids = IdGen::new();
    let a = Guide::horiz(&mut ids, DPoint::new(0, 5));
    let b = Guide::vertical(&mut ids, DPoint::new(3, 0));
    assert_eq!(a.id.path, GUIDE_PATH);
    assert_ne!(a.id, b.id);
}

#[test]
fn nudging_moves_along_the_free_axis_only() {
    let mut ids = IdGen::new();
    let mut h = Guide::horiz(&mut ids, DPoint::new(0, 5));
    h.nudge(DVec2::new(7, 2));
    assert_eq!(h.guide, GuideLine::Horiz(DPoint::new(0, 7)));
    let mut v = Guide::vertical(&mut ids, DPoint::new(3, 0));
    v.nudge(DVec2::new(7, 2));
    assert_eq!(v.guide, GuideLine::Vertical(DPoint::new(10, 0)));
    let mut a = Guide::angle(&mut ids, DPoint::new(0, 0), DPoint::new(1, 1));
    a.nudge(DVec2::new(-1, 2));
    assert_eq!(a.guide, GuideLine::Angle { p1: DPoint::new(-1, 2), p2: DPoint::new(0, 3) });
}

#[test]
fn toggling_swaps_horizontal_and_vertical() {
    let mut ids = IdGen::new();
    let mut g = Guide::horiz(&mut ids, DPoint::new(0, 5));
    g.toggle_vertical_horiz(DPoint::new(9, 9));
    assert_eq!(g.guide, GuideLine::Vertical(DPoint::new(9, 9)));
    g.toggle_vertical_horiz(DPoint::new(1, 1));
    assert_eq!(g.guide, GuideLine::Horiz(DPoint::new(1, 1)));
}

#[test]
fn nearness_is_measured_to_the_infinite_line() {
    let mut ids = IdGen::new();
    let v = ViewPort::identity();
    let h = Guide::horiz(&mut ids, DPoint::new(0, 100));
    assert!(h.is_near(v, ScreenPoint::from_pixels(5000, 108)));
    assert!(!h.is_near(v, ScreenPoint::from_pixels(0, 111)));
    let a = Guide::angle(&mut ids, DPoint::new(0, 0), DPoint::new(10, 10));
    assert!(a.is_near(v, ScreenPoint::from_pixels(1000, 1005)));
    assert!(!a.is_near(v, ScreenPoint::from_pixels(1000, 1020)));
    let zoomed = ViewPort { offset_x: 0, offset_y: 0, zoom_num: 2, zoom_den: 1 };
    assert!(!h.is_near(zoomed, ScreenPoint::from_pixels(0, 216)));
    assert!(h.is_near(zoomed, ScreenPoint::from_pixels(0, 208)));
}

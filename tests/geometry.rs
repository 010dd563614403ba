use bez_editor::geom::{
    clamp, integer_sqrt, screen_dist_within, tangent_partner_of, DPoint, DVec2, ScreenPoint,
    ViewPort, DESIGN_MAX,
};

fn vp(ox: i64, oy: i64, num: u64, den: u64) -> ViewPort {
    ViewPort { offset_x: ox, offset_y: oy, zoom_num: num, zoom_den: den }
}

#[test]
fn design_to_screen_and_back_is_exact() {
    let views = [vp(0, 0, 1, 1), vp(200, -30, 3, 2), vp(-7, 11, 1, 3), vp(5, 5, 4096, 7)];
    let points = [DPoint::new(0, 0), DPoint::new(-13, 27), DPoint::new(1000, -999), DPoint::new(DESIGN_MAX, -DESIGN_MAX)];
    for v in views.iter() {
        for d in points.iter() {
            let s = v.design_to_screen(*d);
            assert_eq!(v.screen_to_design(s), *d);
        }
    }
}

#[test]
fn design_to_screen_values() {
    let v = vp(200, 10, 3, 2);
    let s = v.design_to_screen(DPoint::new(10, -4));
    assert_eq!(s, ScreenPoint { x: 10 * 3 + 200 * 2, y: -4 * 3 + 10 * 2, scale: 2 });
}

#[test]
fn screen_to_design_rounds_half_away_from_zero() {
    let v = vp(0, 0, 2, 1);
    assert_eq!(v.screen_to_design(ScreenPoint::from_pixels(3, -3)), DPoint::new(2, -2));
    assert_eq!(v.screen_to_design(ScreenPoint::from_pixels(5, -1)), DPoint::new(3, -1));
    assert_eq!(v.screen_to_design(ScreenPoint::from_pixels(4, 2)), DPoint::new(2, 1));
}

#[test]
fn design_points_are_clamped() {
    assert_eq!(clamp(i128::from(DESIGN_MAX) + 5), DESIGN_MAX);
    assert_eq!(clamp(-i128::from(DESIGN_MAX) - 5), -DESIGN_MAX);
    assert_eq!(DPoint::new(i64::MAX, 3), DPoint { x: DESIGN_MAX, y: 3 });
    assert_eq!(DPoint::new(5, 6).translate(DVec2::new(-10, 1)), DPoint { x: -5, y: 7 });
    assert_eq!(DPoint::new(100, 0).mirror(DPoint::new(120, -20)), DPoint { x: 80, y: 20 });
}

#[test]
fn screen_distance_threshold() {
    let a = ScreenPoint::from_pixels(0, 0);
    assert!(screen_dist_within(a, ScreenPoint::from_pixels(6, 8), 10));
    assert!(!screen_dist_within(a, ScreenPoint::from_pixels(6, 9), 10));
    let half = ScreenPoint { x: 21, y: 0, scale: 2 };
    assert!(!screen_dist_within(a, half, 10));
    assert!(screen_dist_within(a, ScreenPoint { x: 20, y: 0, scale: 2 }, 10));
}

#[test]
fn integer_square_roots() {
    assert_eq!(integer_sqrt(0), 0);
    assert_eq!(integer_sqrt(1), 1);
    assert_eq!(integer_sqrt(15), 3);
    assert_eq!(integer_sqrt(16), 4);
    assert_eq!(integer_sqrt(1 << 80), 1 << 40);
}

#[test]
fn partner_handle_mirrors_at_whole_ratio() {
    // The moved handle is 5 away along (3, 4); the partner was 10 away.
    let on = DPoint::new(100, 100);
    let moved = DPoint::new(97, 96);
    let partner = DPoint::new(100, 110);
    let r = tangent_partner_of(on, moved, partner);
    assert_eq!(r, DPoint::new(106, 108));
}

#[test]
fn partner_handle_keeps_length_approximately() {
    let on = DPoint::new(0, 0);
    let moved = DPoint::new(-10, 0);
    let partner = DPoint::new(0, 7);
    assert_eq!(tangent_partner_of(on, moved, partner), DPoint::new(7, 0));
    // A handle on the point gives no direction: the partner stays.
    assert_eq!(tangent_partner_of(on, on, partner), partner);
}

use bez_editor::doc::{Contents, DRect};
use bez_editor::geom::{DPoint, DVec2, ScreenPoint, ViewPort};
use bez_editor::path::PointId;

fn pt(x: i64, y: i64) -> DPoint {
    DPoint::new(x, y)
}

fn doc_with_two_paths() -> Contents {
    let mut c = Contents::new(ViewPort::identity());
    c.add_point(pt(0, 0));
    c.add_point(pt(10, 0));
    c.clear_selection();
    c.add_point(pt(100, 100));
    c
}

#[test]
fn add_point_starts_then_extends_a_path() {
    let mut c = Contents::new(ViewPort::identity());
    c.add_point(pt(0, 0));
    assert_eq!(c.paths().len(), 1);
    assert_eq!(c.selection().len(), 1);
    assert_eq!(c.selection().get(0), PointId { path: 0, point: 1 });
    c.add_point(pt(10, 0));
    assert_eq!(c.paths().len(), 1);
    assert_eq!(c.paths()[0].points().len(), 2);
    assert_eq!(c.selection().get(0), PointId { path: 0, point: 2 });
}

#[test]
fn without_single_selection_a_new_path_starts() {
    let c = doc_with_two_paths();
    assert_eq!(c.paths().len(), 2);
    assert_eq!(c.paths()[1].points()[0].id, PointId { path: 3, point: 4 });
}

#[test]
fn delete_selection_purges_selection_and_empty_paths() {
    let mut c = doc_with_two_paths();
    c.select_all();
    assert_eq!(c.selection().len(), 3);
    c.delete_selection();
    assert_eq!(c.selection().len(), 0);
    assert_eq!(c.paths().len(), 0);
}

#[test]
fn delete_selection_spans_paths() {
    let mut c = doc_with_two_paths();
    let a = c.paths()[0].points()[0].id;
    let b = c.paths()[1].points()[0].id;
    c.clear_selection();
    c.toggle_selected(a, false);
    c.toggle_selected(b, false);
    c.delete_selection();
    assert_eq!(c.paths().len(), 1);
    assert_eq!(c.paths()[0].points()[0].point, pt(10, 0));
    assert_eq!(c.selection().len(), 0);
}

#[test]
fn nudge_selection_moves_only_selected() {
    let mut c = doc_with_two_paths();
    c.nudge_selection(DVec2::new(3, 4));
    assert_eq!(c.paths()[1].points()[0].point, pt(103, 104));
    assert_eq!(c.paths()[0].points()[0].point, pt(0, 0));
}

#[test]
fn toggle_selected_flips_membership() {
    let mut c = doc_with_two_paths();
    let a = c.paths()[0].points()[0].id;
    c.toggle_selected(a, true);
    assert!(c.selection().contains(a));
    c.toggle_selected(a, true);
    assert!(!c.selection().contains(a));
    c.toggle_selected(a, false);
    c.toggle_selected(a, false);
    assert!(c.selection().contains(a));
}

#[test]
fn points_in_rectangle() {
    let c = doc_with_two_paths();
    let sel = c.points_in_rect(DRect::from_points(pt(-1, 5), pt(10, -5)));
    assert_eq!(sel.len(), 2);
    let none = c.points_in_rect(DRect::from_points(pt(50, 50), pt(60, 60)));
    assert_eq!(none.len(), 0);
}

#[test]
fn hit_point_takes_the_first_point_in_tolerance() {
    let c = doc_with_two_paths();
    let hit = c.hit_point(ScreenPoint::from_pixels(12, 0)).map(|p| p.point);
    assert_eq!(hit, Some(pt(10, 0)));
    let hit = c.hit_point(ScreenPoint::from_pixels(5, 0)).map(|p| p.point);
    assert_eq!(hit, Some(pt(0, 0)));
    assert!(c.hit_point(ScreenPoint::from_pixels(50, 50)).is_none());
}

#[test]
fn select_path_by_curve_and_toggle() {
    let mut c = doc_with_two_paths();
    c.clear_selection();
    assert!(c.select_path(ScreenPoint::from_pixels(5, 8), false));
    assert_eq!(c.selection().len(), 2);
    assert!(c.select_path(ScreenPoint::from_pixels(5, 8), true));
    assert_eq!(c.selection().len(), 0);
    assert!(!c.select_path(ScreenPoint::from_pixels(5, 20), false));
}

#[test]
fn update_for_drag_without_active_path_does_nothing() {
    let mut c = doc_with_two_paths();
    c.clear_selection();
    c.update_for_drag(pt(5, 5));
    assert_eq!(c.paths()[0].points().len(), 2);
    assert_eq!(c.paths()[1].trailing(), None);
}

use bez_editor::geom::{DPoint, DVec2};
use bez_editor::path::{IdGen, Path, PathEl, PointId, PointType};

fn pt(x: i64, y: i64) -> DPoint {
    DPoint::new(x, y)
}

fn polyline(ids: &mut IdGen, coords: &[(i64, i64)]) -> Path {
    let id = ids.fresh();
    let first = ids.fresh();
    let mut p = Path::new(id, first, pt(coords[0].0, coords[0].1));
    for c in &coords[1..] {
        p.append_point(ids, pt(c.0, c.1));
    }
    p
}

fn types(p: &Path) -> Vec<PointType> {
    p.points().iter().map(|q| q.typ).collect()
}

/// An open path: corner, handle, handle, smooth, handle, handle, smooth.
fn curvy(ids: &mut IdGen) -> Path {
    let mut p = polyline(ids, &[(0, 0)]);
    p.append_point(ids, pt(100, 0));
    p.update_for_drag(ids, pt(120, 0));
    p.update_for_drag(ids, pt(130, 0));
    p.append_point(ids, pt(200, 0));
    p.update_for_drag(ids, pt(220, 10));
    p
}

#[test]
fn new_path_has_one_corner() {
    let p = Path::new(7, 8, pt(1, 2));
    assert_eq!(p.points().len(), 1);
    assert_eq!(p.points()[0].id, PointId { path: 7, point: 8 });
    assert_eq!(p.points()[0].typ, PointType::OnCurve);
    assert!(!p.is_closed());
    assert!(p.should_draw_trailing());
    assert_eq!(p.start_point().point, pt(1, 2));
}

#[test]
fn append_gives_fresh_ids() {
    let mut ids = IdGen::new();
    let p = polyline(&mut ids, &[(0, 0), (10, 0), (10, 10)]);
    let got: Vec<u64> = p.points().iter().map(|q| q.id.point).collect();
    assert_eq!(got, vec![1, 2, 3]);
    assert!(p.points().iter().all(|q| q.id.path == 0));
}

#[test]
fn clicking_the_start_closes_without_new_points() {
    let mut ids = IdGen::new();
    let mut p = polyline(&mut ids, &[(0, 0), (10, 0), (10, 10)]);
    let start = p.points()[0].id;
    let r = p.append_point(&mut ids, pt(0, 0));
    assert_eq!(r, start);
    assert!(p.is_closed());
    assert_eq!(p.points().len(), 3);
    assert_eq!(p.points()[2].id, start);
    assert_eq!(p.start_point().id, start);
}

#[test]
fn bezier_of_open_and_closed_paths() {
    let mut ids = IdGen::new();
    let mut p = polyline(&mut ids, &[(0, 0), (10, 0), (10, 10)]);
    assert_eq!(p.bezier(), vec![PathEl::MoveTo(pt(0, 0)), PathEl::LineTo(pt(10, 0)), PathEl::LineTo(pt(10, 10))]);
    p.append_point(&mut ids, pt(0, 0));
    assert_eq!(
        p.bezier(),
        vec![
            PathEl::MoveTo(pt(0, 0)),
            PathEl::LineTo(pt(10, 0)),
            PathEl::LineTo(pt(10, 10)),
            PathEl::LineTo(pt(0, 0)),
            PathEl::ClosePath,
        ]
    );
}

#[test]
fn drag_converts_then_updates_the_handle() {
    let mut ids = IdGen::new();
    let mut p = polyline(&mut ids, &[(0, 0), (100, 0)]);
    p.update_for_drag(&mut ids, pt(120, -20));
    assert_eq!(types(&p), vec![PointType::OnCurve, PointType::OffCurve, PointType::OffCurve, PointType::OnCurveSmooth]);
    assert_eq!(p.points()[2].point, pt(80, 20));
    assert!(p.last_segment_is_curve());
    p.update_for_drag(&mut ids, pt(130, 0));
    assert_eq!(p.points().len(), 4);
    assert_eq!(p.points()[2].point, pt(70, 0));
    assert_eq!(p.trailing(), Some(pt(130, 0)));
    assert_eq!(
        p.bezier(),
        vec![PathEl::MoveTo(pt(0, 0)), PathEl::CurveTo(pt(0, 0), pt(70, 0), pt(100, 0))]
    );
}

#[test]
fn first_handle_starts_at_previous_trailing_handle() {
    let mut ids = IdGen::new();
    let p = curvy(&mut ids);
    let pts = p.points();
    assert_eq!(pts.len(), 7);
    assert_eq!(pts[4].point, pt(130, 0));
    assert_eq!(pts[5].point, pt(180, -10));
}

#[test]
fn drag_on_a_lone_point_only_sets_trailing() {
    let mut ids = IdGen::new();
    let mut p = polyline(&mut ids, &[(5, 5)]);
    p.update_for_drag(&mut ids, pt(9, 9));
    assert_eq!(p.points().len(), 1);
    assert_eq!(p.trailing(), Some(pt(9, 9)));
    p.clear_trailing();
    assert_eq!(p.trailing(), None);
}

#[test]
fn nudging_a_smooth_point_moves_its_handles() {
    let mut ids = IdGen::new();
    let mut p = curvy(&mut ids);
    let smooth = p.points()[3].id;
    p.nudge_points(&[smooth], DVec2::new(5, -5));
    let pts = p.points();
    assert_eq!(pts[2].point, pt(75, -5));
    assert_eq!(pts[3].point, pt(105, -5));
    assert_eq!(pts[4].point, pt(135, -5));
    assert_eq!(pts[0].point, pt(0, 0));
}

#[test]
fn nudging_one_handle_reaims_the_other() {
    let mut ids = IdGen::new();
    let mut p = curvy(&mut ids);
    // Smooth point at (100, 0); handles at (70, 0) and (130, 0).
    let h = p.points()[2].id;
    p.nudge_points(&[h], DVec2::new(30, -40));
    let pts = p.points();
    assert_eq!(pts[2].point, pt(100, -40));
    assert_eq!(pts[3].point, pt(100, 0));
    assert_eq!(pts[4].point, pt(100, 30));
}

#[test]
fn nudging_unknown_ids_changes_nothing() {
    let mut ids = IdGen::new();
    let mut p = curvy(&mut ids);
    let before: Vec<DPoint> = p.points().iter().map(|q| q.point).collect();
    p.nudge_points(&[PointId { path: 99, point: 1 }], DVec2::new(1, 1));
    let after: Vec<DPoint> = p.points().iter().map(|q| q.point).collect();
    assert_eq!(before, after);
}

#[test]
fn deleting_a_handle_removes_its_sibling() {
    let mut ids = IdGen::new();
    let mut p = curvy(&mut ids);
    let h = p.points()[1].id;
    p.delete_points(&[h]);
    assert_eq!(
        types(&p),
        vec![PointType::OnCurve, PointType::OnCurveSmooth, PointType::OffCurve, PointType::OffCurve, PointType::OnCurveSmooth]
    );
}

#[test]
fn deleting_the_only_point_empties_the_path() {
    let mut ids = IdGen::new();
    let mut p = polyline(&mut ids, &[(1, 1)]);
    let id = p.points()[0].id;
    p.delete_points(&[id]);
    assert_eq!(p.points().len(), 0);
}

#[test]
fn deleting_from_four_points_keeps_on_curve_only() {
    let mut ids = IdGen::new();
    let mut p = polyline(&mut ids, &[(0, 0), (100, 0)]);
    p.update_for_drag(&mut ids, pt(120, -20));
    let first = p.points()[0].id;
    p.delete_points(&[first]);
    assert_eq!(p.points().len(), 1);
    assert_eq!(p.points()[0].point, pt(100, 0));
    assert_eq!(p.points()[0].typ, PointType::OnCurve);
}

#[test]
fn deleting_a_line_point_and_reopening() {
    let mut ids = IdGen::new();
    let mut p = polyline(&mut ids, &[(0, 0), (10, 0), (10, 10)]);
    p.append_point(&mut ids, pt(0, 0));
    assert!(p.is_closed());
    let id = p.points()[0].id;
    p.delete_points(&[id]);
    assert_eq!(p.points().len(), 2);
    assert!(!p.is_closed());
}

#[test]
fn deleting_a_smooth_point_takes_both_handles() {
    let mut ids = IdGen::new();
    let mut p = curvy(&mut ids);
    let smooth = p.points()[3].id;
    p.delete_points(&[smooth]);
    let pts = p.points();
    assert_eq!(types(&p), vec![PointType::OnCurve, PointType::OffCurve, PointType::OffCurve, PointType::OnCurveSmooth]);
    assert_eq!(pts[1].point, pt(0, 0));
    assert_eq!(pts[2].point, pt(180, -10));
    assert!(!p.is_closed() || pts.len() >= 3);
}

#[test]
fn smooth_point_between_corners_becomes_corner() {
    let mut ids = IdGen::new();
    let mut p = curvy(&mut ids);
    // Drop the second curve's handles: the last point keeps only line neighbours.
    let h = p.points()[5].id;
    p.delete_points(&[h]);
    assert_eq!(p.points()[4].typ, PointType::OnCurve);
    let h = p.points()[1].id;
    p.delete_points(&[h]);
    assert_eq!(types(&p), vec![PointType::OnCurve, PointType::OnCurve, PointType::OnCurve]);
}

#[test]
fn toggling_needs_a_handle() {
    let mut ids = IdGen::new();
    let mut p = curvy(&mut ids);
    let smooth = p.points()[3].id;
    p.toggle_on_curve_point_type(smooth);
    assert_eq!(p.points()[3].typ, PointType::OnCurve);
    p.toggle_on_curve_point_type(smooth);
    assert_eq!(p.points()[3].typ, PointType::OnCurveSmooth);
    let mut q = polyline(&mut ids, &[(0, 0), (5, 0), (5, 5)]);
    let mid = q.points()[1].id;
    q.toggle_on_curve_point_type(mid);
    assert_eq!(q.points()[1].typ, PointType::OnCurve);
}

#[test]
fn neighbours_wrap_around() {
    let mut ids = IdGen::new();
    let p = polyline(&mut ids, &[(0, 0), (10, 0), (10, 10)]);
    let a = p.points()[0].id;
    let c = p.points()[2].id;
    assert_eq!(p.prev_point(a).id, c);
    assert_eq!(p.next_point(c).id, a);
    assert_eq!(p.path_point_for_id(PointId { path: 5, point: 5 }).map(|q| q.id), None);
    assert!(p.is_terminal(0) && p.is_terminal(2) && !p.is_terminal(1));
}

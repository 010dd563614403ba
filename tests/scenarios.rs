use bez_editor::editor::Canvas;
use bez_editor::geom::{DPoint, ScreenPoint, ViewPort};
use bez_editor::mouse::{Button, Modifiers, MouseEvent, PointerEvent};
use bez_editor::path::PointType;
use bez_editor::tools::{KeyCode, KeyEvent, ToolKind};

fn ev(x: i64, y: i64, count: u8, shift: bool) -> MouseEvent {
    MouseEvent {
        pos: ScreenPoint::from_pixels(x, y),
        button: Button::Left,
        count,
        mods: Modifiers { shift, meta: false },
    }
}

fn click(c: &mut Canvas, x: i64, y: i64, count: u8) {
    c.pointer(PointerEvent::Down(ev(x, y, count, false)));
    c.pointer(PointerEvent::Up(ev(x, y, count, false)));
}

fn pt(x: i64, y: i64) -> DPoint {
    DPoint { x, y }
}

#[test]
fn pen_clicks_close_a_triangle() {
    let mut c = Canvas::new(ViewPort::identity(), ToolKind::Pen);
    click(&mut c, 0, 0, 1);
    click(&mut c, 100, 0, 1);
    click(&mut c, 100, 100, 1);
    click(&mut c, 3, 4, 1);
    let paths = c.contents.paths();
    assert_eq!(paths.len(), 1);
    let path = &paths[0];
    assert!(path.is_closed());
    let pts = path.points();
    assert_eq!(pts.len(), 3);
    assert!(pts.iter().all(|p| p.typ == PointType::OnCurve));
    assert_eq!(pts[0].point, pt(100, 0));
    assert_eq!(pts[1].point, pt(100, 100));
    assert_eq!(pts[2].point, pt(0, 0));
    assert_eq!(c.contents.selection().len(), 0);
    assert_eq!(path.trailing(), None);
}

#[test]
fn pen_drag_makes_a_smooth_point() {
    let mut c = Canvas::new(ViewPort::identity(), ToolKind::Pen);
    click(&mut c, 0, 0, 1);
    c.pointer(PointerEvent::Down(ev(100, 0, 1, false)));
    c.pointer(PointerEvent::Moved(ev(110, -10, 1, false)));
    c.pointer(PointerEvent::Moved(ev(120, -20, 1, false)));
    c.pointer(PointerEvent::Up(ev(120, -20, 1, false)));
    let path = &c.contents.paths()[0];
    let pts = path.points();
    assert_eq!(pts.len(), 4);
    assert_eq!(pts[0].typ, PointType::OnCurve);
    assert_eq!(pts[0].point, pt(0, 0));
    assert_eq!(pts[1].typ, PointType::OffCurve);
    assert_eq!(pts[1].point, pt(0, 0));
    assert_eq!(pts[2].typ, PointType::OffCurve);
    assert_eq!(pts[2].point, pt(80, 20));
    assert_eq!(pts[3].typ, PointType::OnCurveSmooth);
    assert_eq!(pts[3].point, pt(100, 0));
    assert_eq!(path.trailing(), Some(pt(120, -20)));
    assert!(!path.is_closed());
}

#[test]
fn shift_rectangle_toggles_two_points_into_empty_selection() {
    let mut c = Canvas::new(ViewPort::identity(), ToolKind::Pen);
    click(&mut c, 0, 0, 1);
    click(&mut c, 100, 0, 1);
    click(&mut c, 500, 500, 1);
    c.set_tool(ToolKind::Select);
    c.key(KeyEvent { code: KeyCode::Escape, mods: Modifiers { shift: false, meta: false } });
    assert_eq!(c.contents.selection().len(), 0);
    c.pointer(PointerEvent::Down(ev(-50, -50, 1, true)));
    c.pointer(PointerEvent::Moved(ev(-30, -30, 1, true)));
    c.pointer(PointerEvent::Moved(ev(150, 50, 1, true)));
    c.pointer(PointerEvent::Up(ev(150, 50, 1, true)));
    let pts = c.contents.paths()[0].points();
    let sel = c.contents.selection();
    assert_eq!(sel.len(), 2);
    assert_eq!(sel.get(0), pts[0].id);
    assert_eq!(sel.get(1), pts[1].id);
}

#[test]
fn double_click_toggles_smooth_and_corner() {
    let mut c = Canvas::new(ViewPort::identity(), ToolKind::Pen);
    click(&mut c, 0, 0, 1);
    c.pointer(PointerEvent::Down(ev(100, 0, 1, false)));
    c.pointer(PointerEvent::Moved(ev(110, -10, 1, false)));
    c.pointer(PointerEvent::Moved(ev(120, -20, 1, false)));
    c.pointer(PointerEvent::Up(ev(120, -20, 1, false)));
    c.set_tool(ToolKind::Select);
    click(&mut c, 100, 0, 1);
    assert_eq!(c.contents.selection().len(), 1);
    assert_eq!(c.contents.paths()[0].points()[3].typ, PointType::OnCurveSmooth);
    click(&mut c, 100, 0, 2);
    assert_eq!(c.contents.paths()[0].points()[3].typ, PointType::OnCurve);
    click(&mut c, 100, 0, 2);
    assert_eq!(c.contents.paths()[0].points()[3].typ, PointType::OnCurveSmooth);
}

#[test]
fn double_click_on_corner_without_handles_keeps_it() {
    let mut c = Canvas::new(ViewPort::identity(), ToolKind::Pen);
    click(&mut c, 0, 0, 1);
    click(&mut c, 100, 0, 1);
    c.set_tool(ToolKind::Select);
    click(&mut c, 100, 0, 1);
    click(&mut c, 100, 0, 2);
    assert_eq!(c.contents.paths()[0].points()[1].typ, PointType::OnCurve);
}

#[test]
fn pen_double_click_ends_path() {
    let mut c = Canvas::new(ViewPort::identity(), ToolKind::Pen);
    click(&mut c, 0, 0, 1);
    click(&mut c, 50, 0, 2);
    assert_eq!(c.contents.selection().len(), 0);
    click(&mut c, 200, 200, 1);
    assert_eq!(c.contents.paths().len(), 2);
}

#[test]
fn backspace_deletes_and_removes_empty_paths() {
    let mut c = Canvas::new(ViewPort::identity(), ToolKind::Pen);
    click(&mut c, 0, 0, 1);
    c.set_tool(ToolKind::Select);
    click(&mut c, 0, 0, 1);
    assert_eq!(c.contents.selection().len(), 1);
    let handled = c.key(KeyEvent { code: KeyCode::Backspace, mods: Modifiers { shift: false, meta: false } });
    assert!(handled);
    assert_eq!(c.contents.paths().len(), 0);
    assert_eq!(c.contents.selection().len(), 0);
}

#[test]
fn arrow_keys_nudge_by_one_ten_and_hundred() {
    let mut c = Canvas::new(ViewPort::identity(), ToolKind::Pen);
    click(&mut c, 0, 0, 1);
    c.set_tool(ToolKind::Select);
    click(&mut c, 0, 0, 1);
    let none = Modifiers { shift: false, meta: false };
    let shift = Modifiers { shift: true, meta: false };
    let meta = Modifiers { shift: false, meta: true };
    c.key(KeyEvent { code: KeyCode::ArrowRight, mods: none });
    assert_eq!(c.contents.paths()[0].points()[0].point, pt(1, 0));
    c.key(KeyEvent { code: KeyCode::ArrowDown, mods: shift });
    assert_eq!(c.contents.paths()[0].points()[0].point, pt(1, 10));
    c.key(KeyEvent { code: KeyCode::ArrowLeft, mods: meta });
    assert_eq!(c.contents.paths()[0].points()[0].point, pt(-99, 10));
}

#[test]
fn select_all_and_tab_through_points() {
    let mut c = Canvas::new(ViewPort::identity(), ToolKind::Pen);
    click(&mut c, 0, 0, 1);
    click(&mut c, 100, 0, 1);
    click(&mut c, 100, 100, 1);
    c.set_tool(ToolKind::Select);
    let meta = Modifiers { shift: false, meta: true };
    assert!(c.key(KeyEvent { code: KeyCode::Char('a'), mods: meta }));
    assert_eq!(c.contents.selection().len(), 3);
    c.key(KeyEvent { code: KeyCode::Escape, mods: Modifiers { shift: false, meta: false } });
    click(&mut c, 100, 100, 1);
    let ids: Vec<_> = c.contents.paths()[0].points().iter().map(|p| p.id).collect();
    assert_eq!(c.contents.selection().len(), 1);
    let none = Modifiers { shift: false, meta: false };
    c.key(KeyEvent { code: KeyCode::Tab, mods: none });
    assert_eq!(c.contents.selection().get(0), ids[0]);
    let shift = Modifiers { shift: true, meta: false };
    c.key(KeyEvent { code: KeyCode::Tab, mods: shift });
    assert_eq!(c.contents.selection().get(0), ids[2]);
}

#[test]
fn dragging_a_selected_point_moves_it() {
    let mut c = Canvas::new(ViewPort::identity(), ToolKind::Pen);
    click(&mut c, 0, 0, 1);
    click(&mut c, 100, 0, 1);
    c.set_tool(ToolKind::Select);
    c.pointer(PointerEvent::Down(ev(100, 0, 1, false)));
    c.pointer(PointerEvent::Moved(ev(120, 0, 1, false)));
    c.pointer(PointerEvent::Moved(ev(130, 5, 1, false)));
    c.pointer(PointerEvent::Up(ev(130, 5, 1, false)));
    assert_eq!(c.contents.paths()[0].points()[1].point, pt(110, 5));
    assert_eq!(c.contents.paths()[0].points()[0].point, pt(0, 0));
}

#[test]
fn cancel_restores_selection_before_rectangle() {
    let mut c = Canvas::new(ViewPort::identity(), ToolKind::Pen);
    click(&mut c, 0, 0, 1);
    click(&mut c, 100, 0, 1);
    c.set_tool(ToolKind::Select);
    assert_eq!(c.contents.selection().len(), 1);
    c.pointer(PointerEvent::Down(ev(-50, -50, 1, true)));
    c.pointer(PointerEvent::Moved(ev(-30, -30, 1, false)));
    c.pointer(PointerEvent::Moved(ev(150, 50, 1, false)));
    assert_eq!(c.contents.selection().len(), 2);
    c.cancel();
    assert_eq!(c.contents.selection().len(), 1);
}

#[test]
fn double_click_on_curve_selects_whole_path() {
    let mut c = Canvas::new(ViewPort::identity(), ToolKind::Pen);
    click(&mut c, 0, 0, 1);
    click(&mut c, 100, 0, 1);
    click(&mut c, 100, 100, 1);
    c.set_tool(ToolKind::Select);
    c.key(KeyEvent { code: KeyCode::Escape, mods: Modifiers { shift: false, meta: false } });
    click(&mut c, 50, 3, 2);
    assert_eq!(c.contents.selection().len(), 3);
}

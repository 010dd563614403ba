//! The editing tools: the pen, which places points and pulls handles, and the
//! selection tool, which picks, drags and deletes points.
use crate::doc::{
    path_select_post, doc_in_rect, first_hit, step_target, with_drag, with_new_path, with_nudge, with_trailing_cleared,
    Contents, DocModel, DRect, Selection,
};
use crate::path::toggled;
use crate::geom::{DPoint, DVec2, ViewPort};
use crate::mouse::{Button, Drag, Gesture, Modifiers, MouseEvent};
use crate::path::{appended, lemma_click_start_closes, on_curve_count, PointId};
use vstd::prelude::*;

verus! {

/// The keys the tools respond to.
#[derive(Debug, Clone, Copy, PartialEq, Eq, Structural)]
pub enum KeyCode {
    ArrowLeft,
    ArrowRight,
    ArrowUp,
    ArrowDown,
    Backspace,
    Tab,
    Escape,
    /// A key that types a character.
    Char(char),
    Other,
}

#[derive(Debug, Clone, Copy, PartialEq, Eq, Structural)]
pub struct KeyEvent {
    pub code: KeyCode,
    pub mods: Modifiers,
}

/// `point` moved onto the horizontal or vertical line through `prev`,
/// whichever is nearer.
pub open spec fn axis_locked(point: DPoint, prev: DPoint) -> DPoint {
    let dx = prev.x - point.x;
    let dy = prev.y - point.y;
    if (if dx < 0 { -dx } else { dx }) > (if dy < 0 { -dy } else { dy }) {
        DPoint { x: point.x, y: prev.y }
    } else {
        DPoint { x: prev.x, y: point.y }
    }
}

/// Computes [`axis_locked`].
pub fn axis_locked_point(point: DPoint, prev: DPoint) -> (r: DPoint)
    requires
        point.wf(),
        prev.wf(),
    ensures
        r == axis_locked(point, prev),
        r.wf(),
{
    let dx: i64 = prev.x - point.x;
    let dy: i64 = prev.y - point.y;
    let ax: i64 = if dx < 0 {
        -dx
    } else {
        dx
    };
    let ay: i64 = if dy < 0 {
        -dy
    } else {
        dy
    };
    if ax > ay {
        DPoint { x: point.x, y: prev.y }
    } else {
        DPoint { x: prev.x, y: point.y }
    }
}

/// Where a pen click at `e` puts its point: onto the active path's start
/// when drawn within the click tolerance of it, onto the nearer axis through
/// the last point when shift is held, else under the pointer.
pub open spec fn pen_point(m: DocModel, e: MouseEvent) -> DPoint {
    let d = m.vport.to_design_spec(e.pos);
    match m.active() {
        Some(k) => {
            let path = m.paths[k];
            if crate::geom::screen_within(
                m.vport.to_screen_spec(path.start().point),
                e.pos,
                crate::geom::MIN_POINT_DISTANCE as int,
            ) {
                path.start().point
            } else if e.mods.shift {
                axis_locked(d, path.points.last().point)
            } else {
                d
            }
        },
        None => d,
    }
}

/// The document after a pen press at `e`: a single click places a point
/// (see [`pen_point`]), a double click ends the path by clearing the
/// selection.
pub open spec fn pen_down(m: DocModel, e: MouseEvent) -> DocModel {
    if e.count == 1 {
        let p = pen_point(m, e);
        match m.active() {
            None => with_new_path(m, p),
            Some(k) => if m.next + 2 < u64::MAX {
                let (pm, id, nx) = appended(m.paths[k], m.next, p);
                DocModel { paths: m.paths.update(k, pm), selection: seq![id], next: nx, ..m }
            } else {
                m
            },
        }
    } else if e.count == 2 {
        DocModel { selection: Seq::empty(), ..m }
    } else {
        m
    }
}

/// The document after the pen's button goes up: the active path drops its
/// trailing handle when it is closed or its last segment is a line, and a
/// closed path stops being the active one.
pub open spec fn pen_up(m: DocModel) -> DocModel {
    let m1 = match m.active() {
        Some(k) => if m.paths[k].closed || (m.paths[k].points.len() > 1 && !m.paths[k].last_is_curve()) {
            with_trailing_cleared(m)
        } else {
            m
        },
        None => m,
    };
    match m1.active() {
        Some(k) => if m1.paths[k].closed {
            DocModel { selection: Seq::empty(), ..m1 }
        } else {
            m1
        },
        None => m1,
    }
}

/// Where a pen drag puts the handle: under the pointer, or, with shift, on
/// the nearer axis through the press.
pub open spec fn pen_handle(v: ViewPort, drag: Drag) -> DPoint {
    let current = v.to_design_spec(drag.current.pos);
    if drag.current.mods.shift {
        axis_locked(current, v.to_design_spec(drag.start.pos))
    } else {
        current
    }
}

/// The selection after a single click of the selection tool at `e`.
pub open spec fn select_click(m: DocModel, e: MouseEvent) -> Set<PointId> {
    let sel = m.selection.to_set();
    match first_hit(m, e.pos) {
        Some(p) => if !e.mods.shift {
            if sel.contains(p.id) {
                sel
            } else {
                set![p.id]
            }
        } else if sel.contains(p.id) {
            sel.remove(p.id)
        } else {
            sel.insert(p.id)
        },
        None => if !e.mods.shift {
            Set::empty()
        } else {
            sel
        },
    }
}

/// The vector an arrow key nudges by: one unit, ten with shift, a hundred
/// with meta.
pub open spec fn nudge_vector(e: KeyEvent) -> DVec2 {
    let f: i64 = if e.mods.meta {
        100
    } else if e.mods.shift {
        10
    } else {
        1
    };
    match e.code {
        KeyCode::ArrowLeft => DVec2 { x: (-f) as i64, y: 0 },
        KeyCode::ArrowRight => DVec2 { x: f, y: 0 },
        KeyCode::ArrowUp => DVec2 { x: 0, y: (-f) as i64 },
        _ => DVec2 { x: 0, y: f },
    }
}

/// The document after the selection tool toggles the type of the single
/// selected point.
pub open spec fn toggle_doc(m: DocModel) -> DocModel {
    match m.active() {
        Some(k) => if crate::path::has_id(m.paths[k].points, m.selection[0]) {
            DocModel { paths: m.paths.update(k, toggled(m.paths[k], m.selection[0])), ..m }
        } else {
            m
        },
        None => m,
    }
}

/// What a press of the selection tool at `e` does to the document.
pub open spec fn select_down_post(m0: DocModel, e: MouseEvent, m1: DocModel) -> bool {
    &&& m1.next == m0.next
    &&& m1.vport == m0.vport
    &&& e.count == 1 ==> m1.paths == m0.paths && m1.selection.to_set() == select_click(m0, e)
    &&& e.count == 2 ==> if first_hit(m0, e.pos) is Some && first_hit(m0, e.pos).unwrap().on_curve() {
        m1 == toggle_doc(m0)
    } else {
        exists|r: bool| path_select_post(m0, e.pos, e.mods.shift, m1, r)
    }
    &&& (e.count != 1 && e.count != 2) ==> m1 == m0
}

/// The rectangle a selection drag spans, from its start to its current
/// position, in design space.
pub open spec fn drag_rect_of(v: ViewPort, drag: Drag) -> DRect {
    let current = v.to_design_spec(drag.current.pos);
    let start = v.to_design_spec(drag.start.pos);
    DRect {
        x0: if current.x <= start.x { current.x } else { start.x },
        y0: if current.y <= start.y { current.y } else { start.y },
        x1: if current.x <= start.x { start.x } else { current.x },
        y1: if current.y <= start.y { start.y } else { current.y },
    }
}

/// What the start of a drag does to the selection tool: a drag from a point
/// forgets any snapshot (the drag will move the selection); a drag from
/// elsewhere keeps a snapshot of the selection (it will draw a rectangle).
pub open spec fn select_began_post(s0: Select, m0: DocModel, d: Drag, s1: Select) -> bool {
    &&& s1.drag_rect == s0.drag_rect
    &&& (s1.prev_selection is None <==> first_hit(m0, d.start.pos) is Some)
    &&& match s1.prev_selection {
        Some(p) => p@ == m0.selection && p.wf(),
        None => true,
    }
}

/// What a drag step does: with a snapshot, the selection becomes the
/// snapshot combined with the points in the rectangle (toggled with shift,
/// added otherwise); without one, the selection moves by the pointer's step.
pub open spec fn select_drag_post(s0: Select, m0: DocModel, drag: Drag, s1: Select, m1: DocModel) -> bool {
    let v = m0.vport;
    &&& s1.prev_selection == s0.prev_selection
    &&& match s0.prev_selection {
        Some(prev) => {
            let rect = drag_rect_of(v, drag);
            let inside = Set::new(|x: PointId| doc_in_rect(m0.paths, m0.paths.len() as int, rect, x));
            &&& s1.drag_rect == Some(rect)
            &&& m1.paths == m0.paths
            &&& m1.next == m0.next
            &&& m1.vport == m0.vport
            &&& m1.selection.to_set() == if drag.current.mods.shift {
                prev.set().difference(inside).union(inside.difference(prev.set()))
            } else {
                prev.set().union(inside)
            }
        },
        None => {
            let current = v.to_design_spec(drag.current.pos);
            let before = v.to_design_spec(drag.prev.pos);
            &&& s1.drag_rect == s0.drag_rect
            &&& m1 == with_nudge(m0, DVec2 { x: (current.x - before.x) as i64, y: (current.y - before.y) as i64 })
        },
    }
}

/// What a cancel does to the selection tool: a rectangle drag's snapshot
/// comes back as the selection, and the drag state is cleared.
pub open spec fn select_cancel_post(s0: Select, m0: DocModel, s1: Select, m1: DocModel) -> bool {
    &&& s1.prev_selection is None
    &&& s1.drag_rect is None
    &&& m1 == match s0.prev_selection {
        Some(s) => DocModel { selection: s@, ..m0 },
        None => m0,
    }
}

/// Whether the selection tool handles key `e`.
pub open spec fn select_key_handled(e: KeyEvent) -> bool {
    match e.code {
        KeyCode::ArrowLeft | KeyCode::ArrowRight | KeyCode::ArrowUp | KeyCode::ArrowDown
        | KeyCode::Backspace | KeyCode::Tab => true,
        KeyCode::Char(c) => c == 'a' && e.mods.meta && !e.mods.shift,
        _ => false,
    }
}

/// What key `e` does to the document under the selection tool.
pub open spec fn select_key_post(m0: DocModel, e: KeyEvent, m1: DocModel) -> bool {
    match e.code {
        KeyCode::ArrowLeft | KeyCode::ArrowRight | KeyCode::ArrowUp | KeyCode::ArrowDown =>
            m1 == with_nudge(m0, nudge_vector(e)),
        KeyCode::Backspace => {
            &&& m1.selection.len() == 0
            &&& m1.next == m0.next
            &&& m1.vport == m0.vport
            &&& m1.paths == m0.paths.map_values(
                |m: crate::path::PathModel| crate::path::delete_all(m, m0.selection),
            ).filter(|m: crate::path::PathModel| m.points.len() > 0)
        },
        KeyCode::Tab => m1 == if m0.selection.len() == 1 {
            DocModel { selection: seq![step_target(m0, m0.selection[0], !e.mods.shift)], ..m0 }
        } else {
            m0
        },
        KeyCode::Char(c) => if c == 'a' && e.mods.meta && !e.mods.shift {
            &&& m1.paths == m0.paths
            &&& m1.next == m0.next
            &&& m1.vport == m0.vport
            &&& m1.selection.to_set() == Set::new(|x: PointId| crate::doc::in_paths(m0.paths, x))
        } else {
            m1 == m0
        },
        _ => m1 == m0,
    }
}

/// What a gesture does to the document under the pen.
pub open spec fn pen_gesture(m: DocModel, g: Gesture) -> DocModel {
    match g {
        Gesture::Down(Button::Left, e) => pen_down(m, e),
        Gesture::Up(Button::Left, _) => pen_up(m),
        Gesture::DragChanged(Button::Left, d) => with_drag(m, pen_handle(m.vport, d)),
        Gesture::Cancel => DocModel { selection: Seq::empty(), ..m },
        _ => m,
    }
}

/// Whether a tool of kind `k` handles gesture `g`.
pub open spec fn handled(k: ToolKind, g: Gesture) -> bool {
    match g {
        Gesture::Down(Button::Left, _) => true,
        Gesture::Up(Button::Left, _) => true,
        Gesture::DragChanged(Button::Left, _) => true,
        Gesture::DragBegan(Button::Left, _) => k == ToolKind::Select,
        _ => false,
    }
}

/// What gesture `g` does to tool `t0` and document `m0`, giving `t1` and
/// `m1`.
pub open spec fn tool_gesture(t0: Tool, m0: DocModel, g: Gesture, t1: Tool, m1: DocModel) -> bool {
    match t0 {
        Tool::Pen(_) => t1 == t0 && m1 == pen_gesture(m0, g),
        Tool::Select(s0) => match t1 {
            Tool::Select(s1) => s1.wf() && match g {
                Gesture::Down(Button::Left, e) => s1 == s0 && select_down_post(m0, e, m1),
                Gesture::Up(Button::Left, _) => s1.prev_selection is None && s1.drag_rect is None
                    && m1 == m0,
                Gesture::DragBegan(Button::Left, d) => select_began_post(s0, m0, d, s1) && m1 == m0,
                Gesture::DragChanged(Button::Left, d) => select_drag_post(s0, m0, d, s1, m1),
                Gesture::Cancel => select_cancel_post(s0, m0, s1, m1),
                _ => s1 == s0 && m1 == m0,
            },
            Tool::Pen(_) => false,
        },
    }
}

/// What key `e` does under a tool of kind `k`: the pen ignores keys.
pub open spec fn tool_key(k: ToolKind, m0: DocModel, e: KeyEvent, m1: DocModel, r: bool) -> bool {
    match k {
        ToolKind::Pen => !r && m1 == m0,
        ToolKind::Select => r == select_key_handled(e) && select_key_post(m0, e, m1),
    }
}

/// The pen: clicks add corner points, drags pull out smooth handles.
#[derive(Debug, Clone, Copy, PartialEq, Eq, Structural)]
pub struct Pen {}

impl Pen {
    pub fn new() -> (r: Pen) {
        Pen {  }
    }

    pub fn left_down(&mut self, canvas: &mut Contents, event: &MouseEvent) -> (r: bool)
        requires
            old(canvas).wf(),
            event.pos.wf(),
        ensures
            final(canvas).wf(),
            final(canvas)@ == pen_down(old(canvas)@, *event),
            r,
    {
        if event.count == 1 {
            let vport = canvas.vport();
            let d = vport.screen_to_design(event.pos);
            let point = match canvas.active_path() {
                Some(path) => {
                    let start = path.start_point();
                    assert(start.point.wf());
                    if crate::geom::screen_dist_within(
                        vport.design_to_screen(start.point),
                        event.pos,
                        crate::geom::MIN_POINT_DISTANCE,
                    ) {
                        start.point
                    } else if event.mods.shift {
                        let pts = path.points();
                        let last = pts[pts.len() - 1];
                        assert(last.point.wf());
                        axis_locked_point(d, last.point)
                    } else {
                        d
                    }
                },
                None => d,
            };
            canvas.add_point(point);
        } else if event.count == 2 {
            canvas.clear_selection();
        }
        true
    }

    /// Ends a click or drag: the trailing handle is dropped when the path
    /// just closed or its last segment is a line, and a closed path stops
    /// being drawn into.
    pub fn left_up(&mut self, canvas: &mut Contents) -> (r: bool)
        requires
            old(canvas).wf(),
        ensures
            final(canvas).wf(),
            final(canvas)@ == pen_up(old(canvas)@),
            r,
    {
        let drop_trailing = match canvas.active_path() {
            Some(path) => path.is_closed() || (path.len() > 1 && !path.last_segment_is_curve()),
            None => false,
        };
        if drop_trailing {
            canvas.clear_active_trailing();
        }
        let closed = match canvas.active_path() {
            Some(path) => path.is_closed(),
            None => false,
        };
        if closed {
            canvas.clear_selection();
        }
        true
    }

    /// Pulls the handle of the point just placed to the pointer (locked to
    /// an axis through the press when shift is held).
    pub fn left_drag_changed(&mut self, canvas: &mut Contents, drag: &Drag) -> (r: bool)
        requires
            old(canvas).wf(),
            drag.start.pos.wf(),
            drag.current.pos.wf(),
        ensures
            final(canvas).wf(),
            final(canvas)@ == with_drag(old(canvas)@, pen_handle(old(canvas)@.vport, *drag)),
            r,
    {
        let vport = canvas.vport();
        let current = vport.screen_to_design(drag.current.pos);
        let handle = if drag.current.mods.shift {
            axis_locked_point(current, vport.screen_to_design(drag.start.pos))
        } else {
            current
        };
        canvas.update_for_drag(handle);
        true
    }

    pub fn cancel(&mut self, canvas: &mut Contents)
        requires
            old(canvas).wf(),
        ensures
            final(canvas).wf(),
            final(canvas)@ == (DocModel { selection: Seq::empty(), ..old(canvas)@ }),
    {
        canvas.clear_selection();
    }
}

/// The selection tool. While a rectangle drag is in progress it remembers
/// the selection from before the drag, and the rectangle.
#[derive(Debug, Clone)]
pub struct Select {
    pub prev_selection: Option<Selection>,
    pub drag_rect: Option<DRect>,
}

impl Select {
    pub fn new() -> (r: Select)
        ensures
            r.prev_selection is None,
            r.drag_rect is None,
    {
        Select { prev_selection: None, drag_rect: None }
    }

    pub open spec fn wf(&self) -> bool {
        match self.prev_selection {
            Some(s) => s.wf(),
            None => true,
        }
    }

    /// The selection for a rectangle drag: the points in `rect` added to
    /// `prev`, or, with shift, toggled in it.
    pub fn update_selection_for_drag(canvas: &mut Contents, prev: &Selection, rect: DRect, shift: bool)
        requires
            old(canvas).wf(),
            prev.wf(),
        ensures
            final(canvas).wf(),
            final(canvas)@.paths == old(canvas)@.paths,
            final(canvas)@.next == old(canvas)@.next,
            final(canvas)@.vport == old(canvas)@.vport,
            ({
                let inside = Set::new(
                    |x: PointId| doc_in_rect(old(canvas)@.paths, old(canvas)@.paths.len() as int, rect, x),
                );
                final(canvas)@.selection.to_set() == if shift {
                    prev.set().difference(inside).union(inside.difference(prev.set()))
                } else {
                    prev.set().union(inside)
                }
            }),
    {
        let inside = canvas.points_in_rect(rect);
        let ghost ins = inside.set();
        let mut sel = prev.clone_selection();
        let n = inside.len();
        let mut i: usize = 0;
        while i < n
            invariant
                n == inside@.len(),
                inside.wf(),
                ins == inside.set(),
                i <= n,
                sel.wf(),
                sel.set() == if shift {
                    prev.set().difference(inside@.take(i as int).to_set()).union(
                        inside@.take(i as int).to_set().difference(prev.set()),
                    )
                } else {
                    prev.set().union(inside@.take(i as int).to_set())
                },
            decreases n - i,
        {
            let id = inside.get(i);
            let ghost before = sel.set();
            proof {
                crate::doc::lemma_sorted_take_push(inside@, i as int);
            }
            if shift {
                if !sel.insert(id) {
                    sel.remove(id);
                }
            } else {
                sel.insert(id);
            }
            proof {
                let t0 = inside@.take(i as int).to_set();
                assert(!t0.contains(id));
                if shift {
                    assert(before.contains(id) == prev.set().contains(id));
                    assert(sel.set() =~= prev.set().difference(inside@.take(i + 1).to_set()).union(
                        inside@.take(i + 1).to_set().difference(prev.set()),
                    ));
                } else {
                    assert(sel.set() =~= prev.set().union(inside@.take(i + 1).to_set()));
                }
            }
            i += 1;
        }
        proof {
            assert(inside@.take(n as int) =~= inside@);
        }
        canvas.set_selection(sel);
    }

    /// A press: a single click picks the point under the pointer (shift
    /// toggles it; a click on nothing without shift clears the selection); a
    /// double click switches an on-curve point between corner and smooth, or
    /// else selects the path under the pointer.
    pub fn left_down(&self, canvas: &mut Contents, event: &MouseEvent) -> (r: bool)
        requires
            old(canvas).wf(),
            event.pos.wf(),
        ensures
            final(canvas).wf(),
            select_down_post(old(canvas)@, *event, final(canvas)@),
            r,
    {
        if event.count == 1 {
            Select::single_click(canvas, event);
        } else if event.count == 2 {
            Select::double_click(canvas, event);
        }
        true
    }

    fn single_click(canvas: &mut Contents, event: &MouseEvent)
        requires
            old(canvas).wf(),
            event.pos.wf(),
        ensures
            final(canvas).wf(),
            final(canvas)@.next == old(canvas)@.next,
            final(canvas)@.vport == old(canvas)@.vport,
            final(canvas)@.paths == old(canvas)@.paths,
            final(canvas)@.selection.to_set() == select_click(old(canvas)@, *event),
    {
        match canvas.hit_point(event.pos) {
            Some(p) => {
                if !event.mods.shift {
                    if !canvas.selection().contains(p.id) {
                        canvas.select_only(p.id);
                        assert forall|x: PointId| #[trigger] canvas@.selection.to_set().contains(x) == (x == p.id) by {
                            assert(canvas@.selection[0] == p.id);
                        }
                        assert(canvas@.selection.to_set() =~= set![p.id]);
                    }
                } else {
                    canvas.toggle_selected(p.id, true);
                }
            },
            None => {
                if !event.mods.shift {
                    canvas.clear_selection();
                    assert(canvas@.selection.to_set() =~= Set::<PointId>::empty());
                }
            },
        }
    }

    fn double_click(canvas: &mut Contents, event: &MouseEvent)
        requires
            old(canvas).wf(),
            event.pos.wf(),
        ensures
            final(canvas).wf(),
            final(canvas)@.next == old(canvas)@.next,
            final(canvas)@.vport == old(canvas)@.vport,
            if first_hit(old(canvas)@, event.pos) is Some && first_hit(old(canvas)@, event.pos).unwrap().on_curve() {
                final(canvas)@ == toggle_doc(old(canvas)@)
            } else {
                exists|r: bool| path_select_post(old(canvas)@, event.pos, event.mods.shift, final(canvas)@, r)
            },
    {
        let on_point = match canvas.hit_point(event.pos) {
            Some(p) => p.is_on_curve(),
            None => false,
        };
        if on_point {
            canvas.toggle_selected_on_curve_type();
        } else {
            let r = canvas.select_path(event.pos, event.mods.shift);
            assert(path_select_post(old(canvas)@, event.pos, event.mods.shift, canvas@, r));
        }
    }

    pub fn left_up(&mut self) -> (r: bool)
        ensures
            final(self).prev_selection is None,
            final(self).drag_rect is None,
            r,
    {
        self.prev_selection = None;
        self.drag_rect = None;
        true
    }

    /// A drag that starts on a point moves the selection; one that starts
    /// elsewhere draws a selection rectangle, and the selection before it is
    /// kept to compute the new one from.
    pub fn left_drag_began(&mut self, canvas: &Contents, drag: &Drag) -> (r: bool)
        requires
            canvas.wf(),
            drag.start.pos.wf(),
        ensures
            final(self).wf(),
            select_began_post(*old(self), canvas@, *drag, *final(self)),
            r,
    {
        self.prev_selection = match canvas.hit_point(drag.start.pos) {
            Some(_) => None,
            None => Some(canvas.selection().clone_selection()),
        };
        true
    }

    pub fn left_drag_changed(&mut self, canvas: &mut Contents, drag: &Drag) -> (r: bool)
        requires
            old(self).wf(),
            old(canvas).wf(),
            drag.start.pos.wf(),
            drag.prev.pos.wf(),
            drag.current.pos.wf(),
        ensures
            final(self).wf(),
            final(canvas).wf(),
            select_drag_post(*old(self), old(canvas)@, *drag, *final(self), final(canvas)@),
            r,
    {
        let vport = canvas.vport();
        let current = vport.screen_to_design(drag.current.pos);
        match &self.prev_selection {
            Some(prev) => {
                let start = vport.screen_to_design(drag.start.pos);
                let rect = DRect::from_points(current, start);
                Select::update_selection_for_drag(canvas, prev, rect, drag.current.mods.shift);
                self.drag_rect = Some(rect);
            },
            None => {
                let before = vport.screen_to_design(drag.prev.pos);
                canvas.nudge_selection(DVec2::new(current.x - before.x, current.y - before.y));
            },
        }
        true
    }

    /// Abandons a rectangle drag: the selection from before it comes back.
    pub fn cancel(&mut self, canvas: &mut Contents)
        requires
            old(self).wf(),
            old(canvas).wf(),
        ensures
            final(canvas).wf(),
            select_cancel_post(*old(self), old(canvas)@, *final(self), final(canvas)@),
    {
        match self.prev_selection.take() {
            Some(prev) => canvas.set_selection(prev),
            None => {},
        }
        self.drag_rect = None;
    }

    fn nudge(canvas: &mut Contents, event: &KeyEvent)
        requires
            old(canvas).wf(),
        ensures
            final(canvas).wf(),
            final(canvas)@ == with_nudge(old(canvas)@, nudge_vector(*event)),
    {
        let (x, y): (i64, i64) = match event.code {
            KeyCode::ArrowLeft => (-1, 0),
            KeyCode::ArrowRight => (1, 0),
            KeyCode::ArrowUp => (0, -1),
            _ => (0, 1),
        };
        let factor: i64 = if event.mods.meta {
            100
        } else if event.mods.shift {
            10
        } else {
            1
        };
        canvas.nudge_selection(DVec2::new(x * factor, y * factor));
    }

    /// Arrows nudge the selection by 1 unit (10 with shift, 100 with meta);
    /// backspace deletes it; meta-a selects everything; tab moves a single
    /// selected point along its path (backwards with shift).
    pub fn key_down(&self, canvas: &mut Contents, event: &KeyEvent) -> (r: bool)
        requires
            old(canvas).wf(),
        ensures
            final(canvas).wf(),
            r == select_key_handled(*event),
            select_key_post(old(canvas)@, *event, final(canvas)@),
    {
        match event.code {
            KeyCode::ArrowLeft | KeyCode::ArrowRight | KeyCode::ArrowUp | KeyCode::ArrowDown => {
                Select::nudge(canvas, event);
                true
            },
            KeyCode::Backspace => {
                canvas.delete_selection();
                true
            },
            KeyCode::Char(c) => {
                if c == 'a' && event.mods.meta && !event.mods.shift {
                    canvas.select_all();
                    true
                } else {
                    false
                }
            },
            KeyCode::Tab => {
                if event.mods.shift {
                    canvas.select_prev();
                } else {
                    canvas.select_next();
                }
                true
            },
            _ => false,
        }
    }

    /// The rectangle of a selection drag in progress.
    pub fn selection_rect(&self) -> (r: Option<DRect>)
        ensures
            r == self.drag_rect,
    {
        self.drag_rect
    }
}

/// Which tool is active.
#[derive(Debug, Clone, Copy, PartialEq, Eq, Structural)]
pub enum ToolKind {
    Pen,
    Select,
}

/// The active tool: exactly one at a time.
#[derive(Debug, Clone)]
pub enum Tool {
    Pen(Pen),
    Select(Select),
}

impl Tool {
    pub open spec fn wf(&self) -> bool {
        match self {
            Tool::Select(s) => s.wf(),
            Tool::Pen(_) => true,
        }
    }

    pub open spec fn kind_of(&self) -> ToolKind {
        match self {
            Tool::Pen(_) => ToolKind::Pen,
            Tool::Select(_) => ToolKind::Select,
        }
    }

    /// A fresh tool of kind `kind`.
    pub fn new(kind: ToolKind) -> (r: Tool)
        ensures
            r.wf(),
            r.kind_of() == kind,
    {
        match kind {
            ToolKind::Pen => Tool::Pen(Pen::new()),
            ToolKind::Select => Tool::Select(Select::new()),
        }
    }

    pub fn kind(&self) -> (r: ToolKind)
        ensures
            r == self.kind_of(),
    {
        match self {
            Tool::Pen(_) => ToolKind::Pen,
            Tool::Select(_) => ToolKind::Select,
        }
    }

    pub fn name(&self) -> (r: &'static str) {
        match self {
            Tool::Pen(_) => "pen",
            Tool::Select(_) => "select",
        }
    }

    pub fn selection_rect(&self) -> (r: Option<DRect>)
        ensures
            match self {
                Tool::Select(s) => r == s.drag_rect,
                Tool::Pen(_) => r is None,
            },
    {
        match self {
            Tool::Select(s) => s.selection_rect(),
            Tool::Pen(_) => None,
        }
    }

    /// Hands one recognized gesture to the tool; returns whether it was
    /// handled. The tools respond to the left button only.
    pub fn gesture(&mut self, canvas: &mut Contents, g: &Gesture) -> (r: bool)
        requires
            old(self).wf(),
            old(canvas).wf(),
            gesture_wf(*g),
        ensures
            final(self).wf(),
            final(canvas).wf(),
            final(self).kind_of() == old(self).kind_of(),
            tool_gesture(*old(self), old(canvas)@, *g, *final(self), final(canvas)@),
            r == handled(old(self).kind_of(), *g),
    {
        if self.kind() == ToolKind::Pen {
            let mut pen = Pen::new();
            return match g {
                Gesture::Down(Button::Left, e) => pen.left_down(canvas, e),
                Gesture::Up(Button::Left, _) => pen.left_up(canvas),
                Gesture::DragChanged(Button::Left, d) => pen.left_drag_changed(canvas, d),
                Gesture::Cancel => {
                    pen.cancel(canvas);
                    false
                },
                _ => false,
            };
        }
        match self {
            Tool::Pen(_) => false,
            Tool::Select(sel) => match g {
                Gesture::Down(Button::Left, e) => sel.left_down(canvas, e),
                Gesture::Up(Button::Left, _) => sel.left_up(),
                Gesture::DragBegan(Button::Left, d) => sel.left_drag_began(canvas, d),
                Gesture::DragChanged(Button::Left, d) => sel.left_drag_changed(canvas, d),
                Gesture::Cancel => {
                    sel.cancel(canvas);
                    false
                },
                _ => false,
            },
        }
    }

    /// Hands a key press to the tool; returns whether it was handled.
    pub fn key_down(&mut self, canvas: &mut Contents, event: &KeyEvent) -> (r: bool)
        requires
            old(self).wf(),
            old(canvas).wf(),
        ensures
            final(self).wf(),
            final(canvas).wf(),
            *final(self) == *old(self),
            tool_key(old(self).kind_of(), old(canvas)@, *event, final(canvas)@, r),
    {
        if self.kind() == ToolKind::Pen {
            return false;
        }
        match self {
            Tool::Pen(_) => false,
            Tool::Select(sel) => sel.key_down(canvas, event),
        }
    }
}

/// Every screen position a gesture carries is valid.
pub open spec fn gesture_wf(g: Gesture) -> bool {
    match g {
        Gesture::Moved(e) => e.pos.wf(),
        Gesture::Down(_, e) => e.pos.wf(),
        Gesture::Up(_, e) => e.pos.wf(),
        Gesture::Click(_, e) => e.pos.wf(),
        Gesture::DragBegan(_, d) => d.start.pos.wf() && d.prev.pos.wf() && d.current.pos.wf(),
        Gesture::DragChanged(_, d) => d.start.pos.wf() && d.prev.pos.wf() && d.current.pos.wf(),
        Gesture::DragEnded(_, d) => d.start.pos.wf() && d.prev.pos.wf() && d.current.pos.wf(),
        Gesture::Cancel => true,
    }
}

/// A pen click drawn within the click tolerance of the start of the open
/// path being drawn closes that path, and adds no on-curve point to it.
pub proof fn lemma_pen_click_near_start_closes(m: DocModel, e: MouseEvent)
    requires
        m.wf(),
        e.count == 1,
        m.active() is Some,
        !m.paths[m.active().unwrap()].closed,
        crate::geom::screen_within(
            m.vport.to_screen_spec(m.paths[m.active().unwrap()].points[0].point),
            e.pos,
            crate::geom::MIN_POINT_DISTANCE as int,
        ),
        m.next + 2 < u64::MAX,
    ensures
        pen_down(m, e).paths[m.active().unwrap()].closed,
        on_curve_count(pen_down(m, e).paths[m.active().unwrap()].points) == on_curve_count(
            m.paths[m.active().unwrap()].points,
        ),
{
    let k = m.active().unwrap();
    assert(0 <= k < m.paths.len());
    assert(m.paths[k].wf());
    assert(pen_point(m, e) == m.paths[k].points[0].point);
    lemma_click_start_closes(m.paths[k], m.next);
}

} // verus!

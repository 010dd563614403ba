//! The editor: a document, the active tool, and the gesture recognizer that
//! feeds it, driven by raw pointer and key events.
use crate::doc::Contents;
use crate::geom::{ScreenPoint, ViewPort};
use crate::mouse::{step, Button, Gesture, Modifiers, Mouse, MouseEvent, PointerEvent};
use crate::doc::DocModel;
use crate::tools::{gesture_wf, handled, tool_gesture, tool_key, KeyCode, KeyEvent, Tool, ToolKind};
use vstd::prelude::*;

verus! {

/// Every screen position a pointer event carries is valid.
pub open spec fn pointer_wf(e: PointerEvent) -> bool {
    match e {
        PointerEvent::Down(m) => m.pos.wf(),
        PointerEvent::Up(m) => m.pos.wf(),
        PointerEvent::Moved(m) => m.pos.wf(),
    }
}

proof fn lemma_step_gestures_wf(s: crate::mouse::MouseState, e: PointerEvent)
    requires
        s.wf(),
        pointer_wf(e),
    ensures
        forall|i: int| 0 <= i < step(s, e).1.len() ==> gesture_wf(#[trigger] step(s, e).1[i]),
        step(s, e).0.wf(),
{
}

/// The states `ts`, `ms` a tool and its document pass through as the
/// callbacks `gs` are handed to the tool in order.
pub open spec fn tool_trace(ts: Seq<Tool>, ms: Seq<DocModel>, gs: Seq<Gesture>) -> bool {
    &&& ts.len() == gs.len() + 1
    &&& ms.len() == gs.len() + 1
    &&& forall|i: int|
        0 <= i < gs.len() ==> tool_gesture(ts[i], ms[i], #[trigger] gs[i], ts[i + 1], ms[i + 1])
}

/// What the callbacks `gs`, handed in order to tool `t0` on document `m0`,
/// leave behind: tool `t1` and document `m1`.
pub open spec fn tool_run(t0: Tool, m0: DocModel, gs: Seq<Gesture>, t1: Tool, m1: DocModel) -> bool {
    exists|ts: Seq<Tool>, ms: Seq<DocModel>|
        #[trigger] tool_trace(ts, ms, gs) && ts[0] == t0 && ms[0] == m0 && ts.last() == t1 && ms.last() == m1
}

/// Whether a tool of kind `k` handles any of the callbacks `gs`.
pub open spec fn any_handled(k: ToolKind, gs: Seq<Gesture>) -> bool {
    exists|i: int| 0 <= i < gs.len() && handled(k, #[trigger] gs[i])
}

pub struct Canvas {
    pub tool: Tool,
    pub contents: Contents,
    pub mouse: Mouse,
}

impl Canvas {
    pub open spec fn wf(&self) -> bool {
        &&& self.tool.wf()
        &&& self.contents.wf()
        &&& self.mouse.state.wf()
    }

    /// An empty document seen through `vport`, with tool `kind` active.
    pub fn new(vport: ViewPort, kind: ToolKind) -> (r: Canvas)
        requires
            vport.wf(),
        ensures
            r.wf(),
            r.tool.kind_of() == kind,
            r.contents@.paths.len() == 0,
    {
        let rest = MouseEvent {
            pos: ScreenPoint { x: 0, y: 0, scale: 1 },
            button: Button::Left,
            count: 0,
            mods: Modifiers { shift: false, meta: false },
        };
        Canvas { tool: Tool::new(kind), contents: Contents::new(vport), mouse: Mouse::new(rest) }
    }

    /// Makes `kind` the active tool; a tool that is already active keeps its
    /// state.
    pub fn set_tool(&mut self, kind: ToolKind)
        requires
            old(self).wf(),
        ensures
            final(self).wf(),
            final(self).tool.kind_of() == kind,
            final(self).contents@ == old(self).contents@,
            final(self).mouse == old(self).mouse,
            old(self).tool.kind_of() == kind ==> final(self).tool == old(self).tool,
    {
        if self.tool.kind() != kind {
            self.tool = Tool::new(kind);
        }
    }

    /// Feeds a pointer event through the recognizer to the active tool.
    /// Returns whether the tool handled any of the resulting callbacks.
    pub fn pointer(&mut self, event: PointerEvent) -> (r: bool)
        requires
            old(self).wf(),
            pointer_wf(event),
        ensures
            final(self).wf(),
            final(self).mouse.state == step(old(self).mouse.state, event).0,
            final(self).tool.kind_of() == old(self).tool.kind_of(),
            tool_run(
                old(self).tool,
                old(self).contents@,
                step(old(self).mouse.state, event).1,
                final(self).tool,
                final(self).contents@,
            ),
            r == any_handled(old(self).tool.kind_of(), step(old(self).mouse.state, event).1),
    {
        proof {
            lemma_step_gestures_wf(self.mouse.state, event);
        }
        let gestures = self.mouse.handle(event);
        let ghost gs = gestures@;
        let ghost t0 = self.tool;
        let ghost m0 = self.contents@;
        let ghost k = self.tool.kind_of();
        let mut any = false;
        let mut i: usize = 0;
        let ghost mut ts: Seq<Tool> = seq![t0];
        let ghost mut ms: Seq<DocModel> = seq![m0];
        proof {
            assert(gs.take(0) =~= Seq::<Gesture>::empty());
        }
        while i < gestures.len()
            invariant
                gs == gestures@,
                gs == step(old(self).mouse.state, event).1,
                t0 == old(self).tool,
                m0 == old(self).contents@,
                k == t0.kind_of(),
                i <= gs.len(),
                forall|j: int| 0 <= j < gs.len() ==> gesture_wf(#[trigger] gs[j]),
                self.wf(),
                self.mouse.state == step(old(self).mouse.state, event).0,
                self.tool.kind_of() == k,
                tool_trace(ts, ms, gs.take(i as int)),
                ts[0] == t0,
                ms[0] == m0,
                ts.last() == self.tool,
                ms.last() == self.contents@,
                any == any_handled(k, gs.take(i as int)),
            decreases gs.len() - i,
        {
            let ghost tb = self.tool;
            let ghost mb = self.contents@;
            let h = self.tool.gesture(&mut self.contents, &gestures[i]);
            any = any || h;
            proof {
                let ti = gs.take(i + 1);
                assert(gestures@[i as int] == gs[i as int]);
                assert(tool_gesture(tb, mb, gs[i as int], self.tool, self.contents@));
                let ts2 = ts.push(self.tool);
                let ms2 = ms.push(self.contents@);
                assert forall|j: int| 0 <= j < ti.len() implies tool_gesture(ts2[j], ms2[j], #[trigger] ti[j], ts2[j + 1], ms2[j + 1]) by {
                    if j < i {
                        assert(ti[j] == gs.take(i as int)[j]);
                        assert(ts2[j] == ts[j] && ts2[j + 1] == ts[j + 1]);
                        assert(ms2[j] == ms[j] && ms2[j + 1] == ms[j + 1]);
                    } else {
                        assert(ti[j] == gs[i as int]);
                    }
                }
                ts = ts2;
                ms = ms2;
                assert(any == any_handled(k, ti)) by {
                    if any_handled(k, ti) && !h {
                        let j = choose|j: int| 0 <= j < ti.len() && handled(k, #[trigger] ti[j]);
                        assert(j < i);
                        assert(gs.take(i as int)[j] == ti[j]);
                    }
                    if any_handled(k, gs.take(i as int)) {
                        let j = choose|j: int| 0 <= j < gs.take(i as int).len() && handled(k, #[trigger] gs.take(i as int)[j]);
                        assert(ti[j] == gs.take(i as int)[j]);
                    }
                    if h {
                        assert(ti[i as int] == gs[i as int]);
                    }
                }
            }
            i += 1;
        }
        proof {
            assert(gs.take(gs.len() as int) =~= gs);
            assert(tool_trace(ts, ms, gs));
        }
        any
    }

    /// A key press: escape clears the selection; anything else goes to the
    /// active tool.
    pub fn key(&mut self, event: KeyEvent) -> (r: bool)
        requires
            old(self).wf(),
        ensures
            final(self).wf(),
            final(self).tool == old(self).tool,
            final(self).mouse == old(self).mouse,
            event.code == KeyCode::Escape ==> r && final(self).contents@ == (DocModel {
                selection: Seq::empty(),
                ..old(self).contents@
            }),
            event.code != KeyCode::Escape ==> tool_key(
                old(self).tool.kind_of(),
                old(self).contents@,
                event,
                final(self).contents@,
                r,
            ),
    {
        if event.code == KeyCode::Escape {
            self.contents.clear_selection();
            return true;
        }
        self.tool.key_down(&mut self.contents, &event)
    }

    /// Abandons the gesture in progress (focus was lost, say).
    pub fn cancel(&mut self)
        requires
            old(self).wf(),
        ensures
            final(self).wf(),
            final(self).mouse.state == crate::mouse::MouseState::Up(old(self).mouse.state.last_event()),
            tool_gesture(old(self).tool, old(self).contents@, Gesture::Cancel, final(self).tool, final(self).contents@),
    {
        let g = self.mouse.cancel();
        self.tool.gesture(&mut self.contents, &g);
    }
}

} // verus!

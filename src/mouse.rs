//! The pointer gesture recognizer: a state machine that turns raw button and
//! move events into down, up, click and drag callbacks.
use crate::geom::{screen_dist_within, screen_within, ScreenPoint, MIN_POINT_DISTANCE};
use vstd::prelude::*;

verus! {

#[derive(Debug, Clone, Copy, PartialEq, Eq, Structural)]
pub enum Button {
    Left,
    Right,
    Other,
}

/// Modifier keys held during an event.
#[derive(Debug, Clone, Copy, PartialEq, Eq, Structural)]
pub struct Modifiers {
    pub shift: bool,
    pub meta: bool,
}

/// A pointer event: where, which button, how many clicks, which modifiers.
#[derive(Debug, Clone, Copy, PartialEq, Eq, Structural)]
pub struct MouseEvent {
    pub pos: ScreenPoint,
    pub button: Button,
    pub count: u8,
    pub mods: Modifiers,
}

/// A drag in progress: where it started, the previous and the current event.
#[derive(Debug, Clone, Copy, PartialEq, Eq, Structural)]
pub struct Drag {
    pub start: MouseEvent,
    pub prev: MouseEvent,
    pub current: MouseEvent,
}

#[derive(Debug, Clone, Copy, PartialEq, Eq, Structural)]
pub enum MouseState {
    /// No button is pressed; the last event seen.
    Up(MouseEvent),
    /// A button is pressed and the pointer has not moved far.
    Down(MouseEvent),
    /// A button is pressed and the pointer has moved beyond the threshold.
    Drag { start: MouseEvent, current: MouseEvent },
}

/// A raw pointer event.
#[derive(Debug, Clone, Copy, PartialEq, Eq, Structural)]
pub enum PointerEvent {
    Down(MouseEvent),
    Up(MouseEvent),
    Moved(MouseEvent),
}

/// A callback to the active tool, with the button it is about.
#[derive(Debug, Clone, Copy, PartialEq, Eq, Structural)]
pub enum Gesture {
    Moved(MouseEvent),
    Down(Button, MouseEvent),
    Up(Button, MouseEvent),
    Click(Button, MouseEvent),
    DragBegan(Button, Drag),
    DragChanged(Button, Drag),
    DragEnded(Button, Drag),
    Cancel,
}

/// The kind of a callback, without its data.
#[derive(Debug, Clone, Copy, PartialEq, Eq, Structural)]
pub enum GestureKind {
    Moved,
    Down,
    Up,
    Click,
    DragBegan,
    DragChanged,
    DragEnded,
    Cancel,
}

pub open spec fn kind(g: Gesture) -> GestureKind {
    match g {
        Gesture::Moved(_) => GestureKind::Moved,
        Gesture::Down(..) => GestureKind::Down,
        Gesture::Up(..) => GestureKind::Up,
        Gesture::Click(..) => GestureKind::Click,
        Gesture::DragBegan(..) => GestureKind::DragBegan,
        Gesture::DragChanged(..) => GestureKind::DragChanged,
        Gesture::DragEnded(..) => GestureKind::DragEnded,
        Gesture::Cancel => GestureKind::Cancel,
    }
}

pub open spec fn kinds(gs: Seq<Gesture>) -> Seq<GestureKind> {
    gs.map_values(|g: Gesture| kind(g))
}

/// Whether a move from `a` to `b` stays within the click threshold.
pub open spec fn near(a: MouseEvent, b: MouseEvent) -> bool {
    screen_within(a.pos, b.pos, MIN_POINT_DISTANCE as int)
}

/// One transition: the next state and the callbacks to fire, in order.
pub open spec fn step(s: MouseState, e: PointerEvent) -> (MouseState, Seq<Gesture>) {
    match e {
        PointerEvent::Moved(ev) => match s {
            MouseState::Up(_) => (MouseState::Up(ev), seq![Gesture::Moved(ev)]),
            MouseState::Down(prev) => if near(prev, ev) {
                (s, Seq::empty())
            } else {
                (
                    MouseState::Drag { start: prev, current: ev },
                    seq![Gesture::DragBegan(prev.button, Drag { start: prev, prev, current: ev })],
                )
            },
            MouseState::Drag { start, current } => (
                MouseState::Drag { start, current: ev },
                seq![Gesture::DragChanged(start.button, Drag { start, prev: current, current: ev })],
            ),
        },
        PointerEvent::Down(ev) => match s {
            MouseState::Up(_) => (MouseState::Down(ev), seq![Gesture::Down(ev.button, ev)]),
            _ => (s, Seq::empty()),
        },
        PointerEvent::Up(ev) => match s {
            MouseState::Up(_) => (MouseState::Up(ev), Seq::empty()),
            MouseState::Down(prev) => if ev.button == prev.button {
                (MouseState::Up(ev), seq![Gesture::Up(prev.button, ev), Gesture::Click(prev.button, ev)])
            } else {
                (s, Seq::empty())
            },
            MouseState::Drag { start, current } => if ev.button == start.button {
                (
                    MouseState::Up(ev),
                    seq![
                        Gesture::Up(start.button, ev),
                        Gesture::DragEnded(start.button, Drag { start, prev: current, current: ev }),
                    ],
                )
            } else {
                (s, Seq::empty())
            },
        },
    }
}

/// A run of events from state `s`: the final state and every callback.
pub open spec fn run(s: MouseState, es: Seq<PointerEvent>) -> (MouseState, Seq<Gesture>)
    decreases es.len(),
{
    if es.len() == 0 {
        (s, Seq::empty())
    } else {
        let (s1, out1) = run(s, es.drop_last());
        let (s2, out2) = step(s1, es.last());
        (s2, out1 + out2)
    }
}

impl MouseState {
    /// Every event the state holds has a valid position.
    pub open spec fn wf(self) -> bool {
        match self {
            MouseState::Up(e) => e.pos.wf(),
            MouseState::Down(e) => e.pos.wf(),
            MouseState::Drag { start, current } => start.pos.wf() && current.pos.wf(),
        }
    }

    /// The last event seen.
    pub open spec fn last_event(self) -> MouseEvent {
        match self {
            MouseState::Up(e) => e,
            MouseState::Down(e) => e,
            MouseState::Drag { current, .. } => current,
        }
    }
}

/// One recognizer per pointer.
#[derive(Debug, Clone, Copy)]
pub struct Mouse {
    pub state: MouseState,
}

impl Mouse {
    /// A recognizer with no button pressed.
    pub fn new(initial: MouseEvent) -> (r: Mouse)
        ensures
            r.state == MouseState::Up(initial),
    {
        Mouse { state: MouseState::Up(initial) }
    }

    pub fn pos(&self) -> (r: ScreenPoint)
        ensures
            r == self.state.last_event().pos,
    {
        match self.state {
            MouseState::Up(e) => e.pos,
            MouseState::Down(e) => e.pos,
            MouseState::Drag { current, .. } => current.pos,
        }
    }

    /// Feeds `event` to the machine and returns the callbacks it fires.
    pub fn handle(&mut self, event: PointerEvent) -> (r: Vec<Gesture>)
        requires
            match event {
                PointerEvent::Moved(ev) => ev.pos.wf() && old(self).state.last_event().pos.wf(),
                _ => true,
            },
        ensures
            (final(self).state, r@) == step(old(self).state, event),
    {
        let mut out: Vec<Gesture> = Vec::new();
        let next = match event {
            PointerEvent::Moved(ev) => match self.state {
                MouseState::Up(_) => {
                    out.push(Gesture::Moved(ev));
                    MouseState::Up(ev)
                },
                MouseState::Down(prev) => {
                    if screen_dist_within(prev.pos, ev.pos, MIN_POINT_DISTANCE) {
                        self.state
                    } else {
                        out.push(Gesture::DragBegan(prev.button, Drag { start: prev, prev, current: ev }));
                        MouseState::Drag { start: prev, current: ev }
                    }
                },
                MouseState::Drag { start, current } => {
                    out.push(Gesture::DragChanged(start.button, Drag { start, prev: current, current: ev }));
                    MouseState::Drag { start, current: ev }
                },
            },
            PointerEvent::Down(ev) => match self.state {
                MouseState::Up(_) => {
                    out.push(Gesture::Down(ev.button, ev));
                    MouseState::Down(ev)
                },
                _ => self.state,
            },
            PointerEvent::Up(ev) => match self.state {
                MouseState::Up(_) => MouseState::Up(ev),
                MouseState::Down(prev) => {
                    if ev.button == prev.button {
                        out.push(Gesture::Up(prev.button, ev));
                        out.push(Gesture::Click(prev.button, ev));
                        MouseState::Up(ev)
                    } else {
                        self.state
                    }
                },
                MouseState::Drag { start, current } => {
                    if ev.button == start.button {
                        out.push(Gesture::Up(start.button, ev));
                        out.push(Gesture::DragEnded(start.button, Drag { start, prev: current, current: ev }));
                        MouseState::Up(ev)
                    } else {
                        self.state
                    }
                },
            },
        };
        self.state = next;
        proof {
            let (s2, o2) = step(old(self).state, event);
            assert(out@ =~= o2);
        }
        out
    }

    /// Abandons any press or drag: the machine returns to `Up` with the last
    /// event seen, and the tool is told to cancel.
    pub fn cancel(&mut self) -> (r: Gesture)
        ensures
            final(self).state == MouseState::Up(old(self).state.last_event()),
            r == Gesture::Cancel,
    {
        let last = match self.state {
            MouseState::Up(e) => e,
            MouseState::Down(e) => e,
            MouseState::Drag { current, .. } => current,
        };
        self.state = MouseState::Up(last);
        Gesture::Cancel
    }
}

/// The events of a press at `down`, moves to each of `moves`, and nothing else.
pub open spec fn press_and_moves(down: MouseEvent, moves: Seq<MouseEvent>) -> Seq<PointerEvent> {
    seq![PointerEvent::Down(down)] + moves.map_values(|m: MouseEvent| PointerEvent::Moved(m))
}

/// The first of the first `k` moves that leaves the threshold around `down`.
pub open spec fn first_far(down: MouseEvent, moves: Seq<MouseEvent>, k: int) -> Option<int>
    decreases k,
{
    if k <= 0 {
        None
    } else {
        match first_far(down, moves, k - 1) {
            Some(j) => Some(j),
            None => if !near(down, moves[k - 1]) {
                Some(k - 1)
            } else {
                None
            },
        }
    }
}

/// `n` drag-changed kinds.
pub open spec fn changes(n: int) -> Seq<GestureKind> {
    Seq::new(n as nat, |i: int| GestureKind::DragChanged)
}

proof fn lemma_run_moves(rest: MouseEvent, down: MouseEvent, moves: Seq<MouseEvent>, k: int)
    requires
        0 <= k <= moves.len(),
    ensures
        ({
            let (s, out) = run(MouseState::Up(rest), press_and_moves(down, moves.take(k)));
            match first_far(down, moves, k) {
                None => s == MouseState::Down(down) && kinds(out) == seq![GestureKind::Down],
                Some(j) => {
                    &&& 0 <= j < k
                    &&& s == MouseState::Drag { start: down, current: moves[k - 1] }
                    &&& kinds(out) == seq![GestureKind::Down, GestureKind::DragBegan] + changes(k - j - 1)
                },
            }
        }),
    decreases k,
{
    let es = press_and_moves(down, moves.take(k));
    if k == 0 {
        assert(es =~= seq![PointerEvent::Down(down)]);
        assert(es.drop_last() =~= Seq::<PointerEvent>::empty());
        assert(run(MouseState::Up(rest), es.drop_last()) == (MouseState::Up(rest), Seq::<Gesture>::empty()));
        let (s, out) = run(MouseState::Up(rest), es);
        assert(s == MouseState::Down(down));
        assert(out =~= seq![Gesture::Down(down.button, down)]);
        assert(kinds(out) =~= seq![GestureKind::Down]);
    } else {
        lemma_run_moves(rest, down, moves, k - 1);
        assert(es.drop_last() =~= press_and_moves(down, moves.take(k - 1)));
        assert(es.last() == PointerEvent::Moved(moves[k - 1]));
        let (s1, out1) = run(MouseState::Up(rest), es.drop_last());
        let (s2, out2) = step(s1, es.last());
        let (s, out) = run(MouseState::Up(rest), es);
        assert(out == out1 + out2);
        assert(kinds(out) =~= kinds(out1) + kinds(out2));
        match first_far(down, moves, k - 1) {
            Some(j) => {
                assert(kinds(out2) =~= seq![GestureKind::DragChanged]);
                assert(changes(k - j - 1) =~= changes(k - 1 - j - 1) + seq![GestureKind::DragChanged]);
                assert(kinds(out) =~= seq![GestureKind::Down, GestureKind::DragBegan] + changes(k - j - 1));
            },
            None => {
                if !near(down, moves[k - 1]) {
                    assert(kinds(out2) =~= seq![GestureKind::DragBegan]);
                    assert(changes(0) =~= Seq::<GestureKind>::empty());
                    assert(kinds(out) =~= seq![GestureKind::Down, GestureKind::DragBegan] + changes(0));
                } else {
                    assert(kinds(out2) =~= Seq::<GestureKind>::empty());
                    assert(kinds(out) =~= seq![GestureKind::Down]);
                }
            },
        }
    }
}

/// From rest, a press, `n` moves and a release of the same button fire
/// exactly one down and one up. When no move left the click threshold the
/// up is followed by a click; otherwise the first move beyond it begins a
/// drag, every later move changes it, and the up is followed by a drag end.
pub proof fn lemma_press_moves_release(
    rest: MouseEvent,
    down: MouseEvent,
    moves: Seq<MouseEvent>,
    up: MouseEvent,
)
    requires
        up.button == down.button,
    ensures
        ({
            let n = moves.len() as int;
            let (s, out) = run(MouseState::Up(rest), press_and_moves(down, moves).push(PointerEvent::Up(up)));
            &&& s == MouseState::Up(up)
            &&& match first_far(down, moves, n) {
                None => kinds(out) == seq![GestureKind::Down, GestureKind::Up, GestureKind::Click],
                Some(j) => kinds(out) == seq![GestureKind::Down, GestureKind::DragBegan] + changes(n - j - 1)
                    + seq![GestureKind::Up, GestureKind::DragEnded],
            }
        }),
{
    let n = moves.len() as int;
    lemma_run_moves(rest, down, moves, n);
    assert(moves.take(n) =~= moves);
    let es = press_and_moves(down, moves).push(PointerEvent::Up(up));
    assert(es.drop_last() =~= press_and_moves(down, moves));
    let (s1, out1) = run(MouseState::Up(rest), es.drop_last());
    let (s2, out2) = step(s1, es.last());
    let (s, out) = run(MouseState::Up(rest), es);
    assert(kinds(out) =~= kinds(out1) + kinds(out2));
    match first_far(down, moves, n) {
        None => {
            assert(kinds(out2) =~= seq![GestureKind::Up, GestureKind::Click]);
            assert(kinds(out) =~= seq![GestureKind::Down, GestureKind::Up, GestureKind::Click]);
        },
        Some(j) => {
            assert(kinds(out2) =~= seq![GestureKind::Up, GestureKind::DragEnded]);
        },
    }
}

} // verus!

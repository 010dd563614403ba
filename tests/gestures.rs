use bez_editor::geom::ScreenPoint;
use bez_editor::mouse::{Button, Gesture, Modifiers, Mouse, MouseEvent, MouseState, PointerEvent};

fn ev(x: i64, y: i64, button: Button) -> MouseEvent {
    MouseEvent {
        pos: ScreenPoint::from_pixels(x, y),
        button,
        count: 1,
        mods: Modifiers { shift: false, meta: false },
    }
}

fn kinds(gs: &[Gesture]) -> Vec<&'static str> {
    gs.iter()
        .map(|g| match g {
            Gesture::Moved(_) => "moved",
            Gesture::Down(..) => "down",
            Gesture::Up(..) => "up",
            Gesture::Click(..) => "click",
            Gesture::DragBegan(..) => "began",
            Gesture::DragChanged(..) => "changed",
            Gesture::DragEnded(..) => "ended",
            Gesture::Cancel => "cancel",
        })
        .collect()
}

fn run(m: &mut Mouse, events: &[PointerEvent]) -> Vec<Gesture> {
    let mut out = Vec::new();
    for e in events {
        out.extend(m.handle(*e));
    }
    out
}

#[test]
fn small_moves_give_a_click() {
    let mut m = Mouse::new(ev(0, 0, Button::Left));
    let out = run(
        &mut m,
        &[
            PointerEvent::Down(ev(10, 10, Button::Left)),
            PointerEvent::Moved(ev(13, 14, Button::Left)),
            PointerEvent::Moved(ev(16, 18, Button::Left)),
            PointerEvent::Up(ev(16, 18, Button::Left)),
        ],
    );
    assert_eq!(kinds(&out), vec!["down", "up", "click"]);
    assert_eq!(m.state, MouseState::Up(ev(16, 18, Button::Left)));
}

#[test]
fn far_moves_give_a_drag() {
    let mut m = Mouse::new(ev(0, 0, Button::Right));
    let out = run(
        &mut m,
        &[
            PointerEvent::Down(ev(0, 0, Button::Right)),
            PointerEvent::Moved(ev(5, 0, Button::Right)),
            PointerEvent::Moved(ev(11, 0, Button::Right)),
            PointerEvent::Moved(ev(20, 0, Button::Right)),
            PointerEvent::Moved(ev(30, 0, Button::Right)),
            PointerEvent::Up(ev(30, 0, Button::Right)),
        ],
    );
    assert_eq!(kinds(&out), vec!["down", "began", "changed", "changed", "up", "ended"]);
    match out[5] {
        Gesture::DragEnded(b, d) => {
            assert_eq!(b, Button::Right);
            assert_eq!(d.start, ev(0, 0, Button::Right));
            assert_eq!(d.prev, ev(30, 0, Button::Right));
        }
        _ => panic!("expected a drag end"),
    }
    match out[4] {
        Gesture::Up(b, _) => assert_eq!(b, Button::Right),
        _ => panic!("expected an up"),
    }
}

#[test]
fn second_button_is_ignored() {
    let mut m = Mouse::new(ev(0, 0, Button::Left));
    let out = run(
        &mut m,
        &[
            PointerEvent::Down(ev(0, 0, Button::Left)),
            PointerEvent::Down(ev(0, 0, Button::Right)),
            PointerEvent::Up(ev(0, 0, Button::Right)),
        ],
    );
    assert_eq!(kinds(&out), vec!["down"]);
    assert_eq!(m.state, MouseState::Down(ev(0, 0, Button::Left)));
}

#[test]
fn moves_at_rest_are_reported() {
    let mut m = Mouse::new(ev(0, 0, Button::Left));
    let out = run(&mut m, &[PointerEvent::Moved(ev(40, 40, Button::Left))]);
    assert_eq!(kinds(&out), vec!["moved"]);
    assert_eq!(m.pos(), ScreenPoint::from_pixels(40, 40));
}

#[test]
fn cancel_returns_to_rest_with_last_event() {
    let mut m = Mouse::new(ev(0, 0, Button::Left));
    run(
        &mut m,
        &[PointerEvent::Down(ev(0, 0, Button::Left)), PointerEvent::Moved(ev(50, 0, Button::Left))],
    );
    assert_eq!(m.cancel(), Gesture::Cancel);
    assert_eq!(m.state, MouseState::Up(ev(50, 0, Button::Left)));
}

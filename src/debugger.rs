//! The event debugger's data: recorded events and their text rendering.
use crate::text::{decimal, milli, push_decimal, push_milli};
use crate::trace::{HeldButtons, KeyModifiers, MouseButton, MouseInfo, ToolkitEvent};
use vstd::prelude::*;
use vstd::string::*;

verus! {

/// Which screen of the debugger is shown.
#[derive(Debug, Clone, Copy, PartialEq, Eq, Structural)]
pub enum Screen {
    EventSelection,
    EventDetails(usize),
}

/// A recorded toolkit event.
#[derive(Debug, Clone)]
pub struct Event {
    pub inner: ToolkitEvent,
}

/// What a recorded item holds.
#[derive(Debug, Clone)]
pub enum ItemInner {
    Event(Event),
}

/// A recorded item and the widget it was delivered to.
#[derive(Debug, Clone)]
pub struct Item {
    pub widget_id: u64,
    pub inner: ItemInner,
}

pub open spec fn button_text(b: MouseButton) -> Seq<char> {
    match b {
        MouseButton::Left => "Left"@,
        MouseButton::Right => "Right"@,
        MouseButton::Middle => "Middle"@,
        MouseButton::Other => "Other"@,
    }
}

pub open spec fn bool_text(b: bool) -> Seq<char> {
    if b {
        "true"@
    } else {
        "false"@
    }
}

/// `{left: .., right: .., middle: ..}`.
pub open spec fn buttons_text(b: HeldButtons) -> Seq<char> {
    "{left: "@ + bool_text(b.left) + ", right: "@ + bool_text(b.right) + ", middle: "@ + bool_text(
        b.middle,
    ) + "}"@
}

/// `, alt: .., meta: ..}`: the end of a modifiers text.
pub open spec fn mods_rest(alt: bool, meta: bool) -> Seq<char> {
    ", alt: "@ + bool_text(alt) + ", meta: "@ + bool_text(meta) + "}"@
}

/// `{shift: .., ctrl: .., alt: .., meta: ..}`.
pub open spec fn mods_text(m: KeyModifiers) -> Seq<char> {
    "{shift: "@ + bool_text(m.shift) + ", ctrl: "@ + bool_text(m.ctrl) + mods_rest(m.alt, m.meta)
}

/// The first lines of a mouse event's block: position, held buttons and
/// modifiers.
pub open spec fn mouse_head(m: MouseInfo) -> Seq<char> {
    "{\n\tpos: ("@ + milli(m.x_milli as int) + ", "@ + milli(m.y_milli as int) + "),\n\tbuttons: "@
        + buttons_text(m.buttons) + ",\n\tmods: "@ + mods_text(m.mods)
}

/// The last lines of a mouse event's block: focus, button, click count and
/// wheel delta.
pub open spec fn mouse_tail(m: MouseInfo) -> Seq<char> {
    ",\n\tfocus: "@ + bool_text(m.focus) + ",\n\tbutton: "@ + button_text(m.button) + ",\n\tcount: "@
        + decimal(m.count as nat) + ",\n\twheel_delta: ("@ + milli(m.wheel_dx_milli as int) + ", "@
        + milli(m.wheel_dy_milli as int) + "),\n}"@
}

/// The multi-line block that describes a mouse event: one tab-indented line
/// each for the position, held buttons, modifiers, focus, button, click
/// count and wheel delta.
pub open spec fn mouse_text(m: MouseInfo) -> Seq<char> {
    mouse_head(m) + mouse_tail(m)
}

/// The text that describes an event.
pub open spec fn render_text(e: ToolkitEvent) -> Seq<char> {
    match e {
        ToolkitEvent::MouseDown(m) => "MouseDown "@ + mouse_text(m),
        ToolkitEvent::MouseUp(m) => "MouseUp "@ + mouse_text(m),
        ToolkitEvent::MouseMove(m) => "MouseMove "@ + mouse_text(m),
        ToolkitEvent::Wheel(m) => "Wheel "@ + mouse_text(m),
        ToolkitEvent::Paste => "Paste"@,
        ToolkitEvent::Zoom(z) => "Zoom("@ + milli(z as int) + ")"@,
        ToolkitEvent::Timer(_) => "Timer"@,
        ToolkitEvent::AnimFrame(n) => "AnimFrame("@ + decimal(n as nat) + ")"@,
        ToolkitEvent::Command(c) => "Command("@ + c@ + ")"@,
        ToolkitEvent::Notification(c) => "Notification("@ + c@ + ")"@,
        ToolkitEvent::Internal => "Internal"@,
        ToolkitEvent::WindowConnected => "Window Connected"@,
        ToolkitEvent::WindowCloseRequested => "Window Connected Requested"@,
        ToolkitEvent::WindowDisconnected => "Window Disconnected"@,
        ToolkitEvent::WindowSize { width, height } => "Window Size ("@ + decimal(width as nat)
            + ".0, "@ + decimal(height as nat) + ".0)"@,
        ToolkitEvent::KeyDown(k) => "KeyDown("@ + k.key@ + ")"@,
        ToolkitEvent::KeyUp(k) => "KeyUp("@ + k.key@ + ")"@,
    }
}

fn button_str(b: MouseButton) -> (r: &'static str)
    ensures
        r@ == button_text(b),
{
    match b {
        MouseButton::Left => "Left",
        MouseButton::Right => "Right",
        MouseButton::Middle => "Middle",
        MouseButton::Other => "Other",
    }
}

fn bool_str(b: bool) -> (r: &'static str)
    ensures
        r@ == bool_text(b),
{
    if b {
        "true"
    } else {
        "false"
    }
}

fn push_buttons(w: &mut String, b: HeldButtons)
    ensures
        final(w)@ == old(w)@ + buttons_text(b),
{
    w.append("{left: ");
    w.append(bool_str(b.left));
    w.append(", right: ");
    w.append(bool_str(b.right));
    w.append(", middle: ");
    w.append(bool_str(b.middle));
    w.append("}");
    assert(w@ =~= old(w)@ + buttons_text(b));
}

fn push_flag(w: &mut String, label: &str, b: bool)
    ensures
        final(w)@ == old(w)@ + label@ + bool_text(b),
{
    w.append(label);
    w.append(bool_str(b));
    assert(w@ =~= old(w)@ + label@ + bool_text(b));
}

fn push_mods_rest(w: &mut String, alt: bool, meta: bool)
    ensures
        final(w)@ == old(w)@ + mods_rest(alt, meta),
{
    push_flag(w, ", alt: ", alt);
    push_flag(w, ", meta: ", meta);
    w.append("}");
    assert(w@ =~= old(w)@ + mods_rest(alt, meta));
}

fn push_mods(w: &mut String, m: KeyModifiers)
    ensures
        final(w)@ == old(w)@ + mods_text(m),
{
    push_flag(w, "{shift: ", m.shift);
    push_flag(w, ", ctrl: ", m.ctrl);
    push_mods_rest(w, m.alt, m.meta);
    assert(w@ =~= old(w)@ + mods_text(m));
}

fn push_mouse_head(ev: &MouseInfo, w: &mut String)
    ensures
        final(w)@ == old(w)@ + mouse_head(*ev),
{
    let ghost w0 = w@;
    w.append("{\n\tpos: (");
    push_milli(w, ev.x_milli);
    w.append(", ");
    push_milli(w, ev.y_milli);
    let ghost a = "{\n\tpos: ("@ + milli(ev.x_milli as int) + ", "@ + milli(ev.y_milli as int);
    assert(w@ =~= w0 + a);
    w.append("),\n\tbuttons: ");
    push_buttons(w, ev.buttons);
    let ghost b = a + "),\n\tbuttons: "@ + buttons_text(ev.buttons);
    assert(w@ =~= w0 + b);
    w.append(",\n\tmods: ");
    push_mods(w, ev.mods);
    assert(w@ =~= w0 + (b + ",\n\tmods: "@ + mods_text(ev.mods)));
}

fn push_mouse_tail(ev: &MouseInfo, w: &mut String)
    ensures
        final(w)@ == old(w)@ + mouse_tail(*ev),
{
    let ghost w0 = w@;
    w.append(",\n\tfocus: ");
    w.append(bool_str(ev.focus));
    w.append(",\n\tbutton: ");
    w.append(button_str(ev.button));
    let ghost c = ",\n\tfocus: "@ + bool_text(ev.focus) + ",\n\tbutton: "@ + button_text(ev.button);
    assert(w@ =~= w0 + c);
    w.append(",\n\tcount: ");
    push_decimal(w, ev.count as u64);
    let ghost c2 = c + ",\n\tcount: "@ + decimal(ev.count as nat);
    assert(w@ =~= w0 + c2);
    w.append(",\n\twheel_delta: (");
    push_milli(w, ev.wheel_dx_milli);
    let ghost d = c2 + ",\n\twheel_delta: ("@ + milli(ev.wheel_dx_milli as int);
    assert(w@ =~= w0 + d);
    w.append(", ");
    push_milli(w, ev.wheel_dy_milli);
    w.append("),\n}");
    assert(w@ =~= w0 + (d + ", "@ + milli(ev.wheel_dy_milli as int) + "),\n}"@));
}

/// Appends the description of mouse event `ev` to `w`.
pub fn show_mouse_event(ev: &MouseInfo, w: &mut String)
    ensures
        final(w)@ == old(w)@ + mouse_text(*ev),
{
    push_mouse_head(ev, w);
    push_mouse_tail(ev, w);
    assert(w@ =~= old(w)@ + mouse_text(*ev));
}

impl Event {
    /// Appends the description of this event to `w`.
    pub fn render(&self, w: &mut String)
        ensures
            final(w)@ == old(w)@ + render_text(self.inner),
    {
        match &self.inner {
            ToolkitEvent::MouseDown(m) => {
                w.append("MouseDown ");
                show_mouse_event(m, w);
                assert(w@ =~= old(w)@ + render_text(self.inner));
            },
            ToolkitEvent::MouseUp(m) => {
                w.append("MouseUp ");
                show_mouse_event(m, w);
                assert(w@ =~= old(w)@ + render_text(self.inner));
            },
            ToolkitEvent::MouseMove(m) => {
                w.append("MouseMove ");
                show_mouse_event(m, w);
                assert(w@ =~= old(w)@ + render_text(self.inner));
            },
            ToolkitEvent::Wheel(m) => {
                w.append("Wheel ");
                show_mouse_event(m, w);
                assert(w@ =~= old(w)@ + render_text(self.inner));
            },
            ToolkitEvent::Paste => {
                w.append("Paste");
                assert(w@ =~= old(w)@ + render_text(self.inner));
            },
            ToolkitEvent::Zoom(z) => {
                w.append("Zoom(");
                push_milli(w, *z);
                w.append(")");
                assert(w@ =~= old(w)@ + render_text(self.inner));
            },
            ToolkitEvent::Timer(_) => {
                w.append("Timer");
                assert(w@ =~= old(w)@ + render_text(self.inner));
            },
            ToolkitEvent::AnimFrame(n) => {
                w.append("AnimFrame(");
                push_decimal(w, *n);
                w.append(")");
                assert(w@ =~= old(w)@ + render_text(self.inner));
            },
            ToolkitEvent::Command(c) => {
                w.append("Command(");
                w.append(c.as_str());
                w.append(")");
                assert(w@ =~= old(w)@ + render_text(self.inner));
            },
            ToolkitEvent::Notification(c) => {
                w.append("Notification(");
                w.append(c.as_str());
                w.append(")");
                assert(w@ =~= old(w)@ + render_text(self.inner));
            },
            ToolkitEvent::Internal => {
                w.append("Internal");
                assert(w@ =~= old(w)@ + render_text(self.inner));
            },
            ToolkitEvent::WindowConnected => {
                w.append("Window Connected");
                assert(w@ =~= old(w)@ + render_text(self.inner));
            },
            ToolkitEvent::WindowCloseRequested => {
                w.append("Window Connected Requested");
                assert(w@ =~= old(w)@ + render_text(self.inner));
            },
            ToolkitEvent::WindowDisconnected => {
                w.append("Window Disconnected");
                assert(w@ =~= old(w)@ + render_text(self.inner));
            },
            ToolkitEvent::WindowSize { width, height } => {
                w.append("Window Size (");
                push_decimal(w, *width);
                w.append(".0, ");
                push_decimal(w, *height);
                w.append(".0)");
                assert(w@ =~= old(w)@ + render_text(self.inner));
            },
            ToolkitEvent::KeyDown(k) => {
                w.append("KeyDown(");
                w.append(k.key.as_str());
                w.append(")");
                assert(w@ =~= old(w)@ + render_text(self.inner));
            },
            ToolkitEvent::KeyUp(k) => {
                w.append("KeyUp(");
                w.append(k.key.as_str());
                w.append(")");
                assert(w@ =~= old(w)@ + render_text(self.inner));
            },
        }
    }
}

} // verus!

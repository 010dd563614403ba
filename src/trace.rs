//! Toolkit events as plain values, and a per-kind on/off filter that decides
//! which of them are traced.
use vstd::prelude::*;
use vstd::string::*;

verus! {

/// Which mouse button an event is about.
#[derive(Debug, Clone, Copy, PartialEq, Eq, Structural)]
pub enum MouseButton {
    Left,
    Right,
    Middle,
    Other,
}

/// The mouse buttons held down during an event.
#[derive(Debug, Clone, Copy, PartialEq, Eq, Structural)]
pub struct HeldButtons {
    pub left: bool,
    pub right: bool,
    pub middle: bool,
}

/// The modifier keys held during an event.
#[derive(Debug, Clone, Copy, PartialEq, Eq, Structural)]
pub struct KeyModifiers {
    pub shift: bool,
    pub ctrl: bool,
    pub alt: bool,
    pub meta: bool,
}

/// What a mouse event carries. Positions and wheel deltas are in thousandths
/// of a pixel.
#[derive(Debug, Clone, Copy, PartialEq, Eq, Structural)]
pub struct MouseInfo {
    pub x_milli: i64,
    pub y_milli: i64,
    pub buttons: HeldButtons,
    pub mods: KeyModifiers,
    pub focus: bool,
    pub button: MouseButton,
    pub count: u8,
    pub wheel_dx_milli: i64,
    pub wheel_dy_milli: i64,
}

/// What a key event carries.
#[derive(Debug, Clone, PartialEq, Eq)]
pub struct KeyInfo {
    pub key: String,
    pub repeat: bool,
}

/// An event delivered by the toolkit to a window.
#[derive(Debug, Clone)]
pub enum ToolkitEvent {
    WindowConnected,
    WindowCloseRequested,
    WindowDisconnected,
    WindowSize { width: u64, height: u64 },
    MouseDown(MouseInfo),
    MouseUp(MouseInfo),
    MouseMove(MouseInfo),
    Wheel(MouseInfo),
    KeyDown(KeyInfo),
    KeyUp(KeyInfo),
    Paste,
    /// A zoom factor, in thousandths.
    Zoom(i64),
    Timer(u64),
    AnimFrame(u64),
    Command(String),
    Notification(String),
    Internal,
}

/// A widget lifecycle notification.
#[derive(Debug, Clone, Copy, PartialEq, Eq, Structural)]
pub enum LifeCycle {
    WidgetAdded,
    HotChanged(bool),
    Size { width: u64, height: u64 },
    AnimFrame(u64),
    FocusChanged(bool),
    Internal,
    Other,
}

/// The kinds of event that can be traced, each with its own slot in a filter.
#[derive(Debug, Clone, Copy, PartialEq, Eq, Structural)]
pub enum FilterEvents {
    Empty,
    WindowSize,
    MouseDown,
    MouseUp,
    MouseMove,
    Wheel,
    KeyDown,
    KeyUp,
    Paste,
    Zoom,
    Timer,
    Command,
    WindowConnected,
    WidgetAdded,
    HotChanged,
    Size,
    AnimFrame,
    FocusChanged,
    Internal,
}

/// Number of slots in a filter.
pub const FILTER_SLOTS: usize = 19;

impl FilterEvents {
    pub open spec fn index(self) -> int {
        match self {
            FilterEvents::Empty => 0,
            FilterEvents::WindowSize => 1,
            FilterEvents::MouseDown => 2,
            FilterEvents::MouseUp => 3,
            FilterEvents::MouseMove => 4,
            FilterEvents::Wheel => 5,
            FilterEvents::KeyDown => 6,
            FilterEvents::KeyUp => 7,
            FilterEvents::Paste => 8,
            FilterEvents::Zoom => 9,
            FilterEvents::Timer => 10,
            FilterEvents::Command => 11,
            FilterEvents::WindowConnected => 12,
            FilterEvents::WidgetAdded => 13,
            FilterEvents::HotChanged => 14,
            FilterEvents::Size => 15,
            FilterEvents::AnimFrame => 16,
            FilterEvents::FocusChanged => 17,
            FilterEvents::Internal => 18,
        }
    }

    /// The slot of this kind in a filter.
    pub fn bits(self) -> (r: usize)
        ensures
            r == self.index(),
            r < FILTER_SLOTS,
    {
        match self {
            FilterEvents::Empty => 0,
            FilterEvents::WindowSize => 1,
            FilterEvents::MouseDown => 2,
            FilterEvents::MouseUp => 3,
            FilterEvents::MouseMove => 4,
            FilterEvents::Wheel => 5,
            FilterEvents::KeyDown => 6,
            FilterEvents::KeyUp => 7,
            FilterEvents::Paste => 8,
            FilterEvents::Zoom => 9,
            FilterEvents::Timer => 10,
            FilterEvents::Command => 11,
            FilterEvents::WindowConnected => 12,
            FilterEvents::WidgetAdded => 13,
            FilterEvents::HotChanged => 14,
            FilterEvents::Size => 15,
            FilterEvents::AnimFrame => 16,
            FilterEvents::FocusChanged => 17,
            FilterEvents::Internal => 18,
        }
    }
}

/// The filter kind that governs a toolkit event, if any.
pub open spec fn event_kind(e: ToolkitEvent) -> Option<FilterEvents> {
    match e {
        ToolkitEvent::WindowConnected => Some(FilterEvents::WindowConnected),
        ToolkitEvent::KeyUp(_) => Some(FilterEvents::KeyUp),
        ToolkitEvent::KeyDown(_) => Some(FilterEvents::KeyDown),
        ToolkitEvent::WindowSize { .. } => Some(FilterEvents::WindowSize),
        ToolkitEvent::MouseDown(_) => Some(FilterEvents::MouseDown),
        ToolkitEvent::MouseUp(_) => Some(FilterEvents::MouseUp),
        ToolkitEvent::Wheel(_) => Some(FilterEvents::Wheel),
        ToolkitEvent::Paste => Some(FilterEvents::Paste),
        ToolkitEvent::Zoom(_) => Some(FilterEvents::Zoom),
        ToolkitEvent::Timer(_) => Some(FilterEvents::Timer),
        ToolkitEvent::MouseMove(_) => Some(FilterEvents::MouseMove),
        ToolkitEvent::Command(_) => Some(FilterEvents::Command),
        _ => None,
    }
}

/// The filter kind that governs a lifecycle notification, if any.
pub open spec fn lifecycle_kind(e: LifeCycle) -> Option<FilterEvents> {
    match e {
        LifeCycle::WidgetAdded => Some(FilterEvents::WidgetAdded),
        LifeCycle::HotChanged(_) => Some(FilterEvents::HotChanged),
        LifeCycle::Size { .. } => Some(FilterEvents::Size),
        LifeCycle::AnimFrame(_) => Some(FilterEvents::AnimFrame),
        LifeCycle::FocusChanged(_) => Some(FilterEvents::FocusChanged),
        LifeCycle::Internal => Some(FilterEvents::Internal),
        LifeCycle::Other => None,
    }
}

/// One entry of the trace menu: a kind, its label, and whether it is on.
#[derive(Debug, Clone)]
pub struct MenuEntry {
    pub label: String,
    pub command: FilterEvents,
    pub selected: bool,
}

/// Number of entries in the trace menu.
pub const MENU_LEN: usize = 18;

/// The kind of the `i`-th entry of the trace menu.
pub open spec fn menu_kind(i: int) -> FilterEvents {
    if i == 0 {
        FilterEvents::KeyDown
    } else if i == 1 {
        FilterEvents::WindowSize
    } else if i == 2 {
        FilterEvents::MouseDown
    } else if i == 3 {
        FilterEvents::MouseUp
    } else if i == 4 {
        FilterEvents::Wheel
    } else if i == 5 {
        FilterEvents::KeyUp
    } else if i == 6 {
        FilterEvents::Paste
    } else if i == 7 {
        FilterEvents::Zoom
    } else if i == 8 {
        FilterEvents::Timer
    } else if i == 9 {
        FilterEvents::Command
    } else if i == 10 {
        FilterEvents::WindowConnected
    } else if i == 11 {
        FilterEvents::MouseMove
    } else if i == 12 {
        FilterEvents::WidgetAdded
    } else if i == 13 {
        FilterEvents::HotChanged
    } else if i == 14 {
        FilterEvents::Size
    } else if i == 15 {
        FilterEvents::AnimFrame
    } else if i == 16 {
        FilterEvents::FocusChanged
    } else {
        FilterEvents::Internal
    }
}

fn menu_kind_at(i: usize) -> (r: FilterEvents)
    ensures
        r == menu_kind(i as int),
{
    if i == 0 {
        FilterEvents::KeyDown
    } else if i == 1 {
        FilterEvents::WindowSize
    } else if i == 2 {
        FilterEvents::MouseDown
    } else if i == 3 {
        FilterEvents::MouseUp
    } else if i == 4 {
        FilterEvents::Wheel
    } else if i == 5 {
        FilterEvents::KeyUp
    } else if i == 6 {
        FilterEvents::Paste
    } else if i == 7 {
        FilterEvents::Zoom
    } else if i == 8 {
        FilterEvents::Timer
    } else if i == 9 {
        FilterEvents::Command
    } else if i == 10 {
        FilterEvents::WindowConnected
    } else if i == 11 {
        FilterEvents::MouseMove
    } else if i == 12 {
        FilterEvents::WidgetAdded
    } else if i == 13 {
        FilterEvents::HotChanged
    } else if i == 14 {
        FilterEvents::Size
    } else if i == 15 {
        FilterEvents::AnimFrame
    } else if i == 16 {
        FilterEvents::FocusChanged
    } else {
        FilterEvents::Internal
    }
}

/// The menu label of a kind.
pub open spec fn menu_label(k: FilterEvents) -> Seq<char> {
    match k {
        FilterEvents::KeyDown => "KeyDown event"@,
        FilterEvents::WindowSize => "WindowSize event"@,
        FilterEvents::MouseDown => "MouseDown event"@,
        FilterEvents::MouseUp => "MouseUp event"@,
        FilterEvents::Wheel => "Wheel event"@,
        FilterEvents::KeyUp => "KeyUp event"@,
        FilterEvents::Paste => "Paste event"@,
        FilterEvents::Zoom => "Zoom event"@,
        FilterEvents::Timer => "Timer event"@,
        FilterEvents::Command => "Command event"@,
        FilterEvents::WindowConnected => "WindowConnected event"@,
        FilterEvents::MouseMove => "MouseMove event"@,
        FilterEvents::WidgetAdded => "WidgetAdded"@,
        FilterEvents::HotChanged => "HotChanged"@,
        FilterEvents::Size => "Size"@,
        FilterEvents::AnimFrame => "AnimFrame"@,
        FilterEvents::FocusChanged => "FocusChanged"@,
        FilterEvents::Internal => "Internal"@,
        FilterEvents::Empty => "None"@,
    }
}

fn menu_label_of(k: FilterEvents) -> (r: &'static str)
    ensures
        r@ == menu_label(k),
{
    match k {
        FilterEvents::KeyDown => "KeyDown event",
        FilterEvents::WindowSize => "WindowSize event",
        FilterEvents::MouseDown => "MouseDown event",
        FilterEvents::MouseUp => "MouseUp event",
        FilterEvents::Wheel => "Wheel event",
        FilterEvents::KeyUp => "KeyUp event",
        FilterEvents::Paste => "Paste event",
        FilterEvents::Zoom => "Zoom event",
        FilterEvents::Timer => "Timer event",
        FilterEvents::Command => "Command event",
        FilterEvents::WindowConnected => "WindowConnected event",
        FilterEvents::MouseMove => "MouseMove event",
        FilterEvents::WidgetAdded => "WidgetAdded",
        FilterEvents::HotChanged => "HotChanged",
        FilterEvents::Size => "Size",
        FilterEvents::AnimFrame => "AnimFrame",
        FilterEvents::FocusChanged => "FocusChanged",
        FilterEvents::Internal => "Internal",
        FilterEvents::Empty => "None",
    }
}

/// Which kinds of event are traced: one flag per slot.
#[derive(Debug, Clone)]
pub struct TraceFilter {
    filter: Vec<bool>,
}

impl View for TraceFilter {
    type V = Seq<bool>;

    closed spec fn view(&self) -> Seq<bool> {
        self.filter@
    }
}

impl TraceFilter {
    pub open spec fn wf(&self) -> bool {
        self@.len() == FILTER_SLOTS
    }

    /// Whether kind `k` is traced.
    pub open spec fn is_on(&self, k: FilterEvents) -> bool {
        self@[k.index()]
    }

    /// A filter that traces nothing.
    pub fn create_filter() -> (r: TraceFilter)
        ensures
            r.wf(),
            forall|k: FilterEvents| !r.is_on(k),
    {
        let mut filter: Vec<bool> = Vec::new();
        let mut i: usize = 0;
        while i < FILTER_SLOTS
            invariant
                i <= FILTER_SLOTS,
                filter@.len() == i,
                forall|j: int| 0 <= j < i ==> !filter@[j],
            decreases FILTER_SLOTS - i,
        {
            filter.push(false);
            i += 1;
        }
        TraceFilter { filter }
    }

    /// Switches kind `filter` between traced and not traced.
    pub fn trace_event_on_off(&mut self, filter: FilterEvents)
        requires
            old(self).wf(),
        ensures
            final(self).wf(),
            final(self).is_on(filter) == !old(self).is_on(filter),
            forall|k: FilterEvents| k != filter ==> final(self).is_on(k) == old(self).is_on(k),
    {
        let i = filter.bits();
        let v = self.filter[i];
        self.filter.set(i, !v);
        assert forall|k: FilterEvents| k != filter implies k.index() != filter.index() by {
            match k {
                _ => {},
            }
        }
    }

    /// Whether kind `filter` is traced.
    pub fn flip(&self, filter_type: FilterEvents) -> (r: bool)
        requires
            self.wf(),
        ensures
            r == self.is_on(filter_type),
    {
        self.filter[filter_type.bits()]
    }

    /// Whether `event` is traced: only kinds with a slot can be.
    pub fn filter_event(&self, event: &ToolkitEvent) -> (r: bool)
        requires
            self.wf(),
        ensures
            r == match event_kind(*event) {
                Some(k) => self.is_on(k),
                None => false,
            },
    {
        match event {
            ToolkitEvent::WindowConnected => self.flip(FilterEvents::WindowConnected),
            ToolkitEvent::KeyUp(_) => self.flip(FilterEvents::KeyUp),
            ToolkitEvent::KeyDown(_) => self.flip(FilterEvents::KeyDown),
            ToolkitEvent::WindowSize { .. } => self.flip(FilterEvents::WindowSize),
            ToolkitEvent::MouseDown(_) => self.flip(FilterEvents::MouseDown),
            ToolkitEvent::MouseUp(_) => self.flip(FilterEvents::MouseUp),
            ToolkitEvent::Wheel(_) => self.flip(FilterEvents::Wheel),
            ToolkitEvent::Paste => self.flip(FilterEvents::Paste),
            ToolkitEvent::Zoom(_) => self.flip(FilterEvents::Zoom),
            ToolkitEvent::Timer(_) => self.flip(FilterEvents::Timer),
            ToolkitEvent::MouseMove(_) => self.flip(FilterEvents::MouseMove),
            ToolkitEvent::Command(_) => self.flip(FilterEvents::Command),
            _ => false,
        }
    }

    /// Whether lifecycle notification `event` is traced.
    pub fn filter_lifecycle(&self, event: &LifeCycle) -> (r: bool)
        requires
            self.wf(),
        ensures
            r == match lifecycle_kind(*event) {
                Some(k) => self.is_on(k),
                None => false,
            },
    {
        match event {
            LifeCycle::WidgetAdded => self.flip(FilterEvents::WidgetAdded),
            LifeCycle::HotChanged(_) => self.flip(FilterEvents::HotChanged),
            LifeCycle::Size { .. } => self.flip(FilterEvents::Size),
            LifeCycle::AnimFrame(_) => self.flip(FilterEvents::AnimFrame),
            LifeCycle::FocusChanged(_) => self.flip(FilterEvents::FocusChanged),
            LifeCycle::Internal => self.flip(FilterEvents::Internal),
            LifeCycle::Other => false,
        }
    }

    /// The trace menu: one entry per kind in menu order, each marked with
    /// whether that kind is currently traced.
    pub fn generate_menu(&self) -> (r: Vec<MenuEntry>)
        requires
            self.wf(),
        ensures
            r@.len() == MENU_LEN,
            forall|i: int|
                0 <= i < MENU_LEN ==> {
                    &&& (#[trigger] r@[i]).command == menu_kind(i)
                    &&& r@[i].label@ == menu_label(menu_kind(i))
                    &&& r@[i].selected == self.is_on(menu_kind(i))
                },
    {
        let mut menu: Vec<MenuEntry> = Vec::new();
        let mut i: usize = 0;
        while i < MENU_LEN
            invariant
                i <= MENU_LEN,
                self.wf(),
                menu@.len() == i,
                forall|j: int|
                    0 <= j < i ==> {
                        &&& (#[trigger] menu@[j]).command == menu_kind(j)
                        &&& menu@[j].label@ == menu_label(menu_kind(j))
                        &&& menu@[j].selected == self.is_on(menu_kind(j))
                    },
            decreases MENU_LEN - i,
        {
            let kind = menu_kind_at(i);
            let label = String::from_str(menu_label_of(kind));
            menu.push(MenuEntry { label, command: kind, selected: self.flip(kind) });
            i += 1;
        }
        menu
    }
}

} // verus!

use bez_editor::calendar::{
    CalendarDateWidget, CurrentTimeData, CurrentTimeWidget, DateDetails, DateWrapper, InnerDate,
};
use bez_editor::debugger::{Event, Item, ItemInner, Screen};
use bez_editor::trace::{
    FilterEvents, HeldButtons, KeyInfo, KeyModifiers, LifeCycle, MouseButton, MouseInfo,
    ToolkitEvent, TraceFilter,
};

fn mouse() -> MouseInfo {
    MouseInfo {
        x_milli: 12_500,
        y_milli: -3_250,
        buttons: HeldButtons { left: true, right: false, middle: false },
        mods: KeyModifiers { shift: true, ctrl: false, alt: false, meta: false },
        focus: false,
        button: MouseButton::Left,
        count: 2,
        wheel_dx_milli: 0,
        wheel_dy_milli: 1_000,
    }
}

#[test]
fn new_filter_traces_nothing() {
    let f = TraceFilter::create_filter();
    assert!(!f.filter_event(&ToolkitEvent::MouseDown(mouse())));
    assert!(!f.filter_lifecycle(&LifeCycle::WidgetAdded));
    assert!(!f.flip(FilterEvents::Zoom));
}

#[test]
fn toggling_a_kind_traces_it() {
    let mut f = TraceFilter::create_filter();
    f.trace_event_on_off(FilterEvents::MouseDown);
    assert!(f.filter_event(&ToolkitEvent::MouseDown(mouse())));
    assert!(!f.filter_event(&ToolkitEvent::MouseUp(mouse())));
    f.trace_event_on_off(FilterEvents::MouseDown);
    assert!(!f.filter_event(&ToolkitEvent::MouseDown(mouse())));
    f.trace_event_on_off(FilterEvents::FocusChanged);
    assert!(f.filter_lifecycle(&LifeCycle::FocusChanged(true)));
    assert!(!f.filter_lifecycle(&LifeCycle::Other));
    f.trace_event_on_off(FilterEvents::AnimFrame);
    assert!(!f.filter_event(&ToolkitEvent::AnimFrame(3)));
}

#[test]
fn slots_follow_the_kind_numbers() {
    assert_eq!(FilterEvents::Empty.bits(), 0);
    assert_eq!(FilterEvents::MouseUp.bits(), 3);
    assert_eq!(FilterEvents::Internal.bits(), 18);
}

#[test]
fn menu_lists_every_kind_with_its_state() {
    let mut f = TraceFilter::create_filter();
    f.trace_event_on_off(FilterEvents::Wheel);
    let menu = f.generate_menu();
    assert_eq!(menu.len(), 18);
    assert_eq!(menu[0].label, "KeyDown event");
    assert_eq!(menu[0].command, FilterEvents::KeyDown);
    assert_eq!(menu[4].label, "Wheel event");
    assert!(menu[4].selected);
    assert!(!menu[3].selected);
    assert_eq!(menu[17].label, "Internal");
}

#[test]
fn events_render_as_text() {
    let mut w = String::new();
    Event { inner: ToolkitEvent::Zoom(1_250) }.render(&mut w);
    assert_eq!(w, "Zoom(1.250)");
    let mut w = String::new();
    Event { inner: ToolkitEvent::WindowSize { width: 800, height: 600 } }.render(&mut w);
    assert_eq!(w, "Window Size (800.0, 600.0)");
    let mut w = String::from("> ");
    Event { inner: ToolkitEvent::KeyDown(KeyInfo { key: String::from("a"), repeat: false }) }.render(&mut w);
    assert_eq!(w, "> KeyDown(a)");
    let mut w = String::new();
    Event { inner: ToolkitEvent::MouseDown(mouse()) }.render(&mut w);
    assert_eq!(
        w,
        "MouseDown {\n\tpos: (12.500, -3.250),\n\tbuttons: {left: true, right: false, middle: false},\n\tmods: {shift: true, ctrl: false, alt: false, meta: false},\n\tfocus: false,\n\tbutton: Left,\n\tcount: 2,\n\twheel_delta: (0.000, 1.000),\n}"
    );
}

#[test]
fn debugger_items_hold_events() {
    let item = Item { widget_id: 4, inner: ItemInner::Event(Event { inner: ToolkitEvent::Paste }) };
    let ItemInner::Event(e) = &item.inner;
    let mut w = String::new();
    e.render(&mut w);
    assert_eq!(w, "Paste");
    assert_eq!(Screen::EventDetails(2), Screen::EventDetails(2));
}

#[test]
fn clock_labels() {
    let t = CurrentTimeData {
        current_hour_of_day: 0,
        current_minute_of_hour: 5,
        current_second_of_minute: 9,
        twelve_hour_format: true,
    };
    assert_eq!(CurrentTimeWidget::create_time_label(&t), "12:05:09");
    assert_eq!(CurrentTimeWidget::am_pm_label(&t), "AM");
    let t = CurrentTimeData { current_hour_of_day: 15, twelve_hour_format: true, ..t };
    assert_eq!(CurrentTimeWidget::create_time_label(&t), "03:05:09");
    assert_eq!(CurrentTimeWidget::am_pm_label(&t), "PM");
    let t = CurrentTimeData { twelve_hour_format: false, ..t };
    assert_eq!(CurrentTimeWidget::create_time_label(&t), "15:05:09");
    assert_eq!(CurrentTimeWidget::am_pm_label(&t), "");
    let mut clock = CurrentTimeWidget::new();
    assert_eq!(clock.timer_id, 0);
    clock.refresh(&t);
    assert_eq!(clock.time_label, "15:05:09");
}

#[test]
fn calendar_cells() {
    let days = CalendarDateWidget::get_days_of_week();
    assert_eq!(days, vec!["Su", "Mo", "Tu", "We", "Th", "Fr", "Sa"]);
    let grid = CalendarDateWidget::new();
    assert!(grid.days_widget.is_empty() && grid.dates_of_month_widget.is_empty());
    let d = DateDetails { date: 17, draw_border: true, grey_date: false, date_is_todays: true };
    let cell = DateWrapper::new(d);
    assert!(cell.draw_border);
    let mut inner = InnerDate::new();
    inner.update(&d);
    assert_eq!(inner.label, "17");
}

//! The data behind the calendar and clock widgets, and the labels they show.
use crate::text::{decimal, decimal2, push_decimal, push_decimal2};
use vstd::prelude::*;
use vstd::string::*;

verus! {

/// One cell of the month grid.
#[derive(Debug, Clone, Copy, PartialEq, Eq, Structural)]
pub struct DateDetails {
    pub date: u32,
    pub draw_border: bool,
    pub grey_date: bool,
    pub date_is_todays: bool,
}

/// The time of day shown by the clock.
#[derive(Debug, Clone, Copy, PartialEq, Eq, Structural)]
pub struct CurrentTimeData {
    /// 0..=23
    pub current_hour_of_day: u32,
    /// 0..=59
    pub current_minute_of_hour: u32,
    /// 0..=59
    pub current_second_of_minute: u32,
    /// Whether hours are shown on a twelve-hour dial.
    pub twelve_hour_format: bool,
}

/// The hour as the clock shows it.
pub open spec fn shown_hour(c: CurrentTimeData) -> nat {
    if c.twelve_hour_format {
        if c.current_hour_of_day % 12 == 0 {
            12
        } else {
            (c.current_hour_of_day % 12) as nat
        }
    } else {
        c.current_hour_of_day as nat
    }
}

/// `hh:mm:ss`, each part padded to two digits.
pub open spec fn time_text(c: CurrentTimeData) -> Seq<char> {
    decimal2(shown_hour(c)) + seq![':'] + decimal2(c.current_minute_of_hour as nat) + seq![':']
        + decimal2(c.current_second_of_minute as nat)
}

pub open spec fn am_pm_text(c: CurrentTimeData) -> Seq<char> {
    if c.twelve_hour_format {
        if c.current_hour_of_day < 12 {
            seq!['A', 'M']
        } else {
            seq!['P', 'M']
        }
    } else {
        Seq::<char>::empty()
    }
}

/// The clock: the labels it shows and the timer that refreshes them.
#[derive(Debug, Clone)]
pub struct CurrentTimeWidget {
    pub time_label: String,
    pub am_pm_label: String,
    pub timer_id: u64,
}

impl CurrentTimeWidget {
    /// A clock with empty labels and no timer running.
    pub fn new() -> (r: CurrentTimeWidget)
        ensures
            r.time_label@.len() == 0,
            r.am_pm_label@.len() == 0,
            r.timer_id == 0,
    {
        CurrentTimeWidget { time_label: String::new(), am_pm_label: String::new(), timer_id: 0 }
    }

    /// The time label for `c`.
    pub fn create_time_label(c: &CurrentTimeData) -> (r: String)
        ensures
            r@ == time_text(*c),
    {
        let mut hour = c.current_hour_of_day;
        if c.twelve_hour_format {
            hour = hour % 12;
            if hour == 0 {
                hour = 12;
            }
        }
        let mut w = String::new();
        push_decimal2(&mut w, hour as u64);
        proof {
            reveal_strlit(":");
        }
        w.append(":");
        push_decimal2(&mut w, c.current_minute_of_hour as u64);
        w.append(":");
        push_decimal2(&mut w, c.current_second_of_minute as u64);
        assert(w@ =~= time_text(*c));
        w
    }

    /// `AM` or `PM` on a twelve-hour dial, nothing otherwise.
    pub fn am_pm_label(c: &CurrentTimeData) -> (r: String)
        ensures
            r@ == am_pm_text(*c),
    {
        if c.twelve_hour_format {
            if c.current_hour_of_day < 12 {
                proof {
                    reveal_strlit("AM");
                }
                String::from_str("AM")
            } else {
                proof {
                    reveal_strlit("PM");
                }
                String::from_str("PM")
            }
        } else {
            String::new()
        }
    }

    /// Shows `c` in both labels.
    pub fn refresh(&mut self, c: &CurrentTimeData)
        ensures
            final(self).time_label@ == time_text(*c),
            final(self).am_pm_label@ == am_pm_text(*c),
            final(self).timer_id == old(self).timer_id,
    {
        self.time_label = CurrentTimeWidget::create_time_label(c);
        self.am_pm_label = CurrentTimeWidget::am_pm_label(c);
    }
}

/// The labels of the days of the week, from Sunday.
pub open spec fn day_label(i: int) -> Seq<char> {
    if i == 0 {
        "Su"@
    } else if i == 1 {
        "Mo"@
    } else if i == 2 {
        "Tu"@
    } else if i == 3 {
        "We"@
    } else if i == 4 {
        "Th"@
    } else if i == 5 {
        "Fr"@
    } else {
        "Sa"@
    }
}

fn day_label_at(i: usize) -> (r: &'static str)
    ensures
        r@ == day_label(i as int),
{
    if i == 0 {
        "Su"
    } else if i == 1 {
        "Mo"
    } else if i == 2 {
        "Tu"
    } else if i == 3 {
        "We"
    } else if i == 4 {
        "Th"
    } else if i == 5 {
        "Fr"
    } else {
        "Sa"
    }
}

/// The label of one date cell.
#[derive(Debug, Clone)]
pub struct InnerDate {
    pub label: String,
}

impl InnerDate {
    /// A date cell with an empty label.
    pub fn new() -> (r: InnerDate)
        ensures
            r.label@.len() == 0,
    {
        InnerDate { label: String::new() }
    }

    /// Shows the date of `data`.
    pub fn update(&mut self, data: &DateDetails)
        ensures
            final(self).label@ == decimal(data.date as nat),
    {
        let mut w = String::new();
        push_decimal(&mut w, data.date as u64);
        self.label = w;
    }
}

/// A date cell with its optional border.
#[derive(Debug, Clone)]
pub struct DateWrapper {
    pub inner: InnerDate,
    pub draw_border: bool,
}

impl DateWrapper {
    /// The cell for `date_details`, bordered when that date asks for it.
    pub fn new(date_details: DateDetails) -> (r: DateWrapper)
        ensures
            r.draw_border == date_details.draw_border,
            r.inner.label@.len() == 0,
    {
        DateWrapper { inner: InnerDate::new(), draw_border: date_details.draw_border }
    }
}

/// The month grid: the weekday header and the date cells.
#[derive(Debug, Clone)]
pub struct CalendarDateWidget {
    pub days_widget: Vec<String>,
    pub dates_of_month_widget: Vec<DateWrapper>,
}

impl CalendarDateWidget {
    /// An empty grid.
    pub fn new() -> (r: CalendarDateWidget)
        ensures
            r.days_widget@.len() == 0,
            r.dates_of_month_widget@.len() == 0,
    {
        CalendarDateWidget { days_widget: Vec::new(), dates_of_month_widget: Vec::new() }
    }

    /// The weekday header labels, Sunday first.
    pub fn get_days_of_week() -> (r: Vec<String>)
        ensures
            r@.len() == 7,
            forall|i: int| 0 <= i < 7 ==> (#[trigger] r@[i])@ == day_label(i),
    {
        let mut days: Vec<String> = Vec::new();
        let mut i: usize = 0;
        while i < 7
            invariant
                i <= 7,
                days@.len() == i,
                forall|j: int| 0 <= j < i ==> (#[trigger] days@[j])@ == day_label(j),
            decreases 7 - i,
        {
            days.push(String::from_str(day_label_at(i)));
            i += 1;
        }
        days
    }
}

} // verus!

//! The decisions of the interactive views: which hours a view covers, whether
//! a selection lies in the stored range, and where a key press moves it. The
//! terminal itself is driven by the program around the library.

use vstd::prelude::*;
use crate::calendar::{
    SimpleDate, Utils, days_before_month, days_in_month, month_length,
    lemma_days_before_month_bounds,
};

verus! {

/// A key press, as far as the views tell keys apart.
#[derive(Clone, Copy, Debug, PartialEq, Eq, Structural)]
pub enum Key {
    Up,
    Down,
    Left,
    Right,
    Esc,
    /// A decimal digit key.
    Digit(u8),
    Other,
}

/// What a view does after a key press.
#[derive(Clone, Copy, Debug, PartialEq, Eq, Structural)]
pub enum Nav {
    /// Show this point next.
    Show(SimpleDate),
    /// Go back to the menu.
    Leave,
    /// Ignore the key and wait for another.
    Wait,
}

/// The sections that the main menu leads to.
#[derive(Clone, Copy, Debug, PartialEq, Eq, Structural)]
pub enum Section {
    Exit,
    ImportData,
    MissingRecords,
    WeatherView,
    DayView,
    MonthView,
    WeatherPredictions,
}

/// Whether `selected` lies between the first and the last stored reading,
/// both included.
pub fn in_data_range(selected: SimpleDate, first: SimpleDate, last: SimpleDate) -> (r: bool)
    requires
        selected.wf(),
        first.wf(),
        last.wf(),
    ensures
        r == (first.hour_number() <= selected.hour_number() <= last.hour_number()),
{
    let t = selected.timestamp();
    first.timestamp() <= t && t <= last.timestamp()
}

/// Where the up and down keys move a day-by-day selection.
fn step_days(selected: SimpleDate, key: Key) -> (r: Nav)
    requires
        selected.wf(),
    ensures
        key == Key::Esc ==> r == Nav::Leave,
        key == Key::Up && selected.has_previous_day() ==> (r matches Nav::Show(d) && d.wf()
            && d.hour_number() == selected.hour_number() - 24),
        key == Key::Down && selected.has_next_day() ==> (r matches Nav::Show(d) && d.wf()
            && d.hour_number() == selected.hour_number() + 24),
        key == Key::Up && !selected.has_previous_day() ==> r == Nav::Wait,
        key == Key::Down && !selected.has_next_day() ==> r == Nav::Wait,
        key != Key::Esc && key != Key::Up && key != Key::Down ==> r == Nav::Wait,
{
    match key {
        Key::Esc => Nav::Leave,
        Key::Up => {
            if selected.year == 0 && selected.day == 1 {
                Nav::Wait
            } else {
                Nav::Show(selected.minus_one_day())
            }
        },
        Key::Down => {
            if selected.year == u16::MAX && selected.day == crate::calendar::days_in_year(u16::MAX) {
                Nav::Wait
            } else {
                Nav::Show(selected.plus_one_day())
            }
        },
        _ => Nav::Wait,
    }
}

/// The menu entry that a key picks among `count` entries: `Some(0)` for
/// escape, `Some(n)` for a digit `n` from 1 to `count`, else `None`.
pub fn menu_selection(key: Key, count: usize) -> (r: Option<usize>)
    ensures
        key == Key::Esc ==> r == Some(0usize),
        key matches Key::Digit(d) ==> (if 1 <= d && d as int <= count { r == Some(d as usize) } else {
            r is None
        }),
        key != Key::Esc && !(key is Digit) ==> r is None,
{
    match key {
        Key::Esc => Some(0),
        Key::Digit(d) => {
            if 1 <= d && (d as usize) <= count {
                Some(d as usize)
            } else {
                None
            }
        },
        _ => None,
    }
}

/// The terminal colour (an ANSI palette index) that shades a precipitation
/// probability given in percent: the likelier, the deeper the blue.
pub fn probability_shade(percent: usize) -> (r: u8)
    ensures
        90 <= percent <= 100 ==> r == 21,
        70 <= percent <= 89 ==> r == 20,
        50 <= percent <= 69 ==> r == 19,
        30 <= percent <= 49 ==> r == 18,
        percent < 30 || percent > 100 ==> r == 16,
{
    if 90 <= percent && percent <= 100 {
        21
    } else if 70 <= percent && percent <= 89 {
        20
    } else if 50 <= percent && percent <= 69 {
        19
    } else if 30 <= percent && percent <= 49 {
        18
    } else {
        16
    }
}

/// Main menu.
pub struct MainMenu {
    pub reset_pos: (u16, u16),
}

impl MainMenu {
    pub fn new(reset_pos: (u16, u16)) -> (r: MainMenu)
        ensures
            r.reset_pos == reset_pos,
    {
        MainMenu { reset_pos }
    }

    /// The section that menu entry `selection` opens (0 leaves the program);
    /// `None` for an entry that does not exist.
    pub fn section(selection: usize) -> (r: Option<Section>)
        ensures
            selection == 0 ==> r == Some(Section::Exit),
            selection == 1 ==> r == Some(Section::ImportData),
            selection == 2 ==> r == Some(Section::MissingRecords),
            selection == 3 ==> r == Some(Section::WeatherView),
            selection == 4 ==> r == Some(Section::DayView),
            selection == 5 ==> r == Some(Section::MonthView),
            selection == 6 ==> r == Some(Section::WeatherPredictions),
            selection > 6 ==> r is None,
    {
        match selection {
            0 => Some(Section::Exit),
            1 => Some(Section::ImportData),
            2 => Some(Section::MissingRecords),
            3 => Some(Section::WeatherView),
            4 => Some(Section::DayView),
            5 => Some(Section::MonthView),
            6 => Some(Section::WeatherPredictions),
            _ => None,
        }
    }
}

/// Data import screen.
pub struct ImportData {
    pub reset_pos: (u16, u16),
}

impl ImportData {
    pub fn new(reset_pos: (u16, u16)) -> (r: ImportData)
        ensures
            r.reset_pos == reset_pos,
    {
        ImportData { reset_pos }
    }
}

/// Missing records screen.
pub struct MissingRecords {
    pub reset_pos: (u16, u16),
}

impl MissingRecords {
    pub fn new(reset_pos: (u16, u16)) -> (r: MissingRecords)
        ensures
            r.reset_pos == reset_pos,
    {
        MissingRecords { reset_pos }
    }
}

/// Single reading screen.
pub struct WeatherView {
    pub reset_pos: (u16, u16),
}

impl WeatherView {
    pub fn new(reset_pos: (u16, u16)) -> (r: WeatherView)
        ensures
            r.reset_pos == reset_pos,
    {
        WeatherView { reset_pos }
    }
}

/// Screen comparing a reading with what was forecast for it.
pub struct WeatherDiff {
    pub reset_pos: (u16, u16),
}

impl WeatherDiff {
    pub fn new(reset_pos: (u16, u16)) -> (r: WeatherDiff)
        ensures
            r.reset_pos == reset_pos,
    {
        WeatherDiff { reset_pos }
    }
}

/// One day, hour by hour.
pub struct DayView {
    pub reset_pos: (u16, u16),
}

impl DayView {
    pub fn new(reset_pos: (u16, u16)) -> (r: DayView)
        ensures
            r.reset_pos == reset_pos,
    {
        DayView { reset_pos }
    }

    /// The first and the last hour of the day of `selected`.
    pub fn day_bounds(selected: SimpleDate) -> (r: (SimpleDate, SimpleDate))
        requires
            selected.wf(),
        ensures
            r.0 == (SimpleDate { year: selected.year, day: selected.day, hour: 0 }),
            r.1 == (SimpleDate { year: selected.year, day: selected.day, hour: 23 }),
            r.0.wf(),
            r.1.wf(),
    {
        (SimpleDate::new(selected.year, selected.day, 0), SimpleDate::new(selected.year, selected.day, 23))
    }

    /// Up shows the previous day, down the next one, escape leaves.
    pub fn navigate(selected: SimpleDate, key: Key) -> (r: Nav)
        requires
            selected.wf(),
        ensures
            key == Key::Esc ==> r == Nav::Leave,
            key == Key::Up && selected.has_previous_day() ==> (r matches Nav::Show(d) && d.wf()
                && d.hour_number() == selected.hour_number() - 24),
            key == Key::Down && selected.has_next_day() ==> (r matches Nav::Show(d) && d.wf()
                && d.hour_number() == selected.hour_number() + 24),
            key == Key::Up && !selected.has_previous_day() ==> r == Nav::Wait,
            key == Key::Down && !selected.has_next_day() ==> r == Nav::Wait,
            key != Key::Esc && key != Key::Up && key != Key::Down ==> r == Nav::Wait,
    {
        step_days(selected, key)
    }
}

/// A month, one rollup per day.
pub struct MonthView {
    pub reset_pos: (u16, u16),
}

impl MonthView {
    pub fn new(reset_pos: (u16, u16)) -> (r: MonthView)
        ensures
            r.reset_pos == reset_pos,
    {
        MonthView { reset_pos }
    }

    /// The first hour of the first day and the last hour of the last day of
    /// `month` (1 = January) of `year`; `None` for a month outside 1 to 12.
    pub fn month_bounds(year: u16, month: u8) -> (r: Option<(SimpleDate, SimpleDate)>)
        ensures
            r is None <==> !(1 <= month <= 12),
            r matches Some((s, e)) ==> {
                &&& s.wf() && e.wf()
                &&& s.year == year && s.hour == 0
                &&& s.day as int == days_before_month(month as int, year as int) + 1
                &&& e.year == year && e.hour == 23
                &&& e.day as int == days_before_month(month as int, year as int) + month_length(
                    month as int,
                    year as int,
                )
            },
    {
        if month < 1 || month > 12 {
            return None;
        }
        let first = crate::calendar::first_day_of_month(month, year);
        proof {
            lemma_days_before_month_bounds(month as int + 1, year as int);
            lemma_days_before_month_bounds(13, year as int);
            crate::calendar::lemma_days_before_month_monotonic(month as int + 1, 13, year as int);
        }
        let last = first - 1 + days_in_month(month, year as u32) as u16;
        Some((SimpleDate::new(year, first, 0), SimpleDate::new(year, last, 23)))
    }

    /// Up shows the previous month, down the next one, escape leaves; the
    /// point shown is the first day of that month.
    pub fn navigate(selected: SimpleDate, key: Key) -> (r: Nav)
        requires
            selected.wf(),
        ensures
            key == Key::Esc ==> r == Nav::Leave,
            key == Key::Up && selected.has_previous_month() ==> (r matches Nav::Show(d) && d.wf()
                && d.hour_number() == selected.previous_month_hours()),
            key == Key::Down && selected.has_next_month() ==> (r matches Nav::Show(d) && d.wf()
                && d.hour_number() == selected.next_month_hours()),
            key == Key::Up && !selected.has_previous_month() ==> r == Nav::Wait,
            key == Key::Down && !selected.has_next_month() ==> r == Nav::Wait,
            key != Key::Esc && key != Key::Up && key != Key::Down ==> r == Nav::Wait,
    {
        match key {
            Key::Esc => Nav::Leave,
            Key::Up => {
                if selected.year == 0 && crate::calendar::month_number(selected.year, selected.day) == 1 {
                    Nav::Wait
                } else {
                    Nav::Show(selected.minus_one_month())
                }
            },
            Key::Down => {
                if selected.year == u16::MAX && crate::calendar::month_number(selected.year, selected.day)
                    == 12 {
                    Nav::Wait
                } else {
                    Nav::Show(selected.plus_one_month())
                }
            },
            _ => Nav::Wait,
        }
    }
}

/// A reading with the forecasts made for it.
pub struct WeatherPredictions {
    pub reset_pos: (u16, u16),
}

impl WeatherPredictions {
    pub fn new(reset_pos: (u16, u16)) -> (r: WeatherPredictions)
        ensures
            r.reset_pos == reset_pos,
    {
        WeatherPredictions { reset_pos }
    }

    /// Up and down move by a day, left and right by an hour, escape leaves.
    pub fn navigate(selected: SimpleDate, key: Key) -> (r: Nav)
        requires
            selected.wf(),
        ensures
            key == Key::Esc ==> r == Nav::Leave,
            key == Key::Up && selected.has_previous_day() ==> (r matches Nav::Show(d) && d.wf()
                && d.hour_number() == selected.hour_number() - 24),
            key == Key::Down && selected.has_next_day() ==> (r matches Nav::Show(d) && d.wf()
                && d.hour_number() == selected.hour_number() + 24),
            key == Key::Left && selected.has_previous_hour() ==> (r matches Nav::Show(d) && d.wf()
                && d.hour_number() == selected.hour_number() - 1),
            key == Key::Right && selected.has_next_hour() ==> (r matches Nav::Show(d) && d.wf()
                && d.hour_number() == selected.hour_number() + 1),
            key == Key::Up && !selected.has_previous_day() ==> r == Nav::Wait,
            key == Key::Down && !selected.has_next_day() ==> r == Nav::Wait,
            key == Key::Left && !selected.has_previous_hour() ==> r == Nav::Wait,
            key == Key::Right && !selected.has_next_hour() ==> r == Nav::Wait,
            key is Digit || key is Other ==> r == Nav::Wait,
    {
        match key {
            Key::Left => {
                if selected.year == 0 && selected.day == 1 && selected.hour == 0 {
                    Nav::Wait
                } else {
                    Nav::Show(selected.minus_one_hour())
                }
            },
            Key::Right => {
                if selected.year == u16::MAX && selected.day == crate::calendar::days_in_year(u16::MAX)
                    && selected.hour == 23 {
                    Nav::Wait
                } else {
                    Nav::Show(selected.plus_one_hour())
                }
            },
            _ => step_days(selected, key),
        }
    }
}

} // verus!

//! The date picker's calendar grid. Month lengths and weekdays come from the
//! `time` crate; the grid's geometry is computed here.

use vstd::prelude::*;

use crate::zones::Rect;

verus! {

/// Whether `year` is a leap year of the proleptic Gregorian calendar.
pub open spec fn is_leap_year(year: int) -> bool {
    year % 4 == 0 && (year % 100 != 0 || year % 400 == 0)
}

/// Days in `month` (1 = January) of `year`.
pub open spec fn days_in_month(month: u8, year: i32) -> u8 {
    if month == 2 {
        if is_leap_year(year as int) { 29 } else { 28 }
    } else if month == 4 || month == 6 || month == 9 || month == 11 {
        30
    } else {
        31
    }
}

/// Days from 1 January of year 1 to 1 January of `year`, in the proleptic
/// Gregorian calendar (negative before year 1).
pub open spec fn days_before_year(year: int) -> int {
    let p = year - 1;
    365 * p + p / 4 - p / 100 + p / 400
}

/// Days from 1 January to the first of `month` (1 = January).
pub open spec fn days_before_month(month: u8, leap: bool) -> int {
    let before: int = if month <= 1 { 0 } else if month == 2 { 31 } else if month == 3 { 59 } else if month == 4 {
        90
    } else if month == 5 { 120 } else if month == 6 { 151 } else if month == 7 { 181 } else if month == 8 {
        212
    } else if month == 9 { 243 } else if month == 10 { 273 } else if month == 11 { 304 } else { 334 };
    before + if leap && month > 2 { 1int } else { 0int }
}

/// The weekday of the first of `month` of `year`, counted from Sunday (0) to
/// Saturday (6): 1 January of year 1 was a Monday.
pub open spec fn first_weekday_of(year: i32, month: u8) -> u8 {
    ((days_before_year(year as int) + days_before_month(month, is_leap_year(year as int)) + 1) % 7) as u8
}

/// Calls `time::Month::try_from` and `Month::length`: the number of days in
/// the month of the given year, by the proleptic Gregorian leap-year rule,
/// which the crate computes for every year.
#[verifier::external_body]
fn month_length(month: u8, year: i32) -> (d: u8)
    requires
        1 <= month <= 12,
    ensures
        d == days_in_month(month, year),
{
    match time::Month::try_from(month) {
        Ok(m) => m.length(year),
        Err(_) => 0,
    }
}

/// Calls `time::Date::from_calendar_date` for the first day of a month and,
/// when the date exists, `weekday().number_days_from_sunday()` on it. The date
/// exists exactly for the years `-9999..=9999`; its weekday is that of the
/// proleptic Gregorian calendar.
#[verifier::external_body]
fn first_weekday(year: i32, month: u8) -> (w: Option<u8>)
    requires
        1 <= month <= 12,
    ensures
        w is Some <==> -9999 <= year <= 9999,
        w matches Some(d) ==> d == first_weekday_of(year, month),
{
    match time::Month::try_from(month) {
        Ok(m) => match time::Date::from_calendar_date(year, m, 1) {
            Ok(date) => Some(date.weekday().number_days_from_sunday()),
            Err(_) => None,
        },
        Err(_) => None,
    }
}

/// Where the date picker's parts go inside its bordered box.
#[derive(Clone, Debug)]
pub struct DatePickerLayout {
    /// The header row, showing the month and year.
    pub header: Rect,
    /// The "previous month" arrow, the header's first cell.
    pub prev: Rect,
    /// The "next month" arrow, the header's last cell.
    pub next: Rect,
    /// The weekday labels row.
    pub weekdays: Rect,
    /// The cell of each day of the month; day `d` at index `d - 1`.
    pub days: Vec<Rect>,
    /// The "Today" button, left on the last row.
    pub today: Rect,
    /// The "Clear" button, right of "Today".
    pub clear: Rect,
}

/// The cell of day `day` when the month starts on weekday `first` (Sunday
/// = 0): seven three-cell-wide columns from the inner box's left edge, rows
/// from the third inner row down, two cells wide, one high.
pub open spec fn day_cell(inner: Rect, first: u8, day: int) -> Rect {
    let idx = first + day - 1;
    Rect {
        x: (inner.x + (idx % 7) * 3) as u16,
        y: (inner.y + 2 + idx / 7) as u16,
        width: 2,
        height: 1,
    }
}

/// The date picker laid out in `inner`, the box inside its border, for
/// `month` of `year`. A month outside the years the date library handles
/// (`-9999..=9999`) starts on Sunday.
pub open spec fn is_date_picker(l: DatePickerLayout, inner: Rect, year: i32, month: u8) -> bool {
    let first = if -9999 <= year <= 9999 { first_weekday_of(year, month) } else { 0 };
    let header = Rect { height: 1, ..inner };
    &&& l.header == header
    &&& l.prev == Rect { width: 1, ..header }
    &&& l.next == Rect { x: (header.x + header.width - 1) as u16, width: 1, ..header }
    &&& l.weekdays == Rect { y: (inner.y + 1) as u16, height: 1, ..inner }
    &&& l.days@.len() == days_in_month(month, year)
    &&& forall|i: int| 0 <= i < l.days@.len() ==> #[trigger] l.days@[i] == day_cell(inner, first, i + 1)
    &&& l.today == Rect { y: (inner.y + inner.height - 1) as u16, height: 1, width: 7, ..inner }
    &&& l.clear == Rect { x: (inner.x + 8) as u16, y: (inner.y + inner.height - 1) as u16, height: 1, width: 7, ..inner }
}

/// Lay out the date picker for `month` (1 = January) of `year` in `inner`:
/// nothing for a month number outside `1..=12`, or when the box is narrower
/// than 21 or lower than 8 cells.
pub fn date_picker_layout(inner: Rect, year: i32, month: u8) -> (r: Option<DatePickerLayout>)
    requires
        inner.x + inner.width <= u16::MAX,
        inner.y + inner.height <= u16::MAX,
    ensures
        r is Some <==> 1 <= month <= 12 && inner.width >= 21 && inner.height >= 8,
        r matches Some(l) ==> is_date_picker(l, inner, year, month),
{
    if month < 1 || month > 12 {
        return None;
    }
    let days = month_length(month, year);
    let first = match first_weekday(year, month) {
        Some(w) => w,
        None => 0,
    };
    if inner.width < 21 || inner.height < 8 {
        return None;
    }
    let header = Rect { height: 1, ..inner };
    let prev = Rect { width: 1, ..header };
    let next = Rect { x: header.x + header.width - 1, width: 1, ..header };
    let weekdays = Rect { y: inner.y + 1, height: 1, ..inner };
    let mut cells: Vec<Rect> = Vec::new();
    let mut col: u16 = first as u16;
    let mut row: u16 = 0;
    let mut day: u8 = 1;
    while day <= days
        invariant
            1 <= day <= 32,
            day <= days + 1,
            days == days_in_month(month, year),
            days <= 31,
            first < 7,
            inner.width >= 21 && inner.height >= 8,
            inner.x + inner.width <= u16::MAX,
            inner.y + inner.height <= u16::MAX,
            cells@.len() == day - 1,
            col == (first + day - 1) % 7,
            row == (first + day - 1) / 7,
            forall|i: int| 0 <= i < cells@.len() ==> #[trigger] cells@[i] == day_cell(inner, first, i + 1),
        decreases 32 - day,
    {
        cells.push(Rect { x: inner.x + col * 3, y: inner.y + 2 + row, width: 2, height: 1 });
        col = col + 1;
        if col == 7 {
            col = 0;
            row = row + 1;
        }
        day = day + 1;
    }
    let footer_y = inner.y + inner.height - 1;
    let today = Rect { y: footer_y, height: 1, width: 7, ..inner };
    let clear = Rect { x: inner.x + 8, y: footer_y, height: 1, width: 7, ..inner };
    Some(DatePickerLayout { header, prev, next, weekdays, days: cells, today, clear })
}

/// Calls `time::OffsetDateTime::now_utc().date()` and returns the date's
/// year, month number and day. A `time::Date` is always a valid calendar date,
/// so the month lies in `1..=12` and the day in that month; which date it is
/// depends on the clock, and nothing more is claimed. (The crate panics when
/// the system clock lies outside the years it supports.)
#[verifier::external_body]
fn today_utc() -> (r: (i32, u8, u8))
    ensures
        1 <= r.1 <= 12,
        1 <= r.2 <= days_in_month(r.1, r.0),
{
    let date = time::OffsetDateTime::now_utc().date();
    (date.year(), u8::from(date.month()), date.day())
}

/// The day of `month` of `year` that is `today` (a year, month, day), if
/// today falls in that month.
pub fn today_in_month(year: i32, month: u8, today: (i32, u8, u8)) -> (r: Option<u8>)
    ensures
        r == (if today.0 == year && today.1 == month { Some(today.2) } else { None }),
{
    if today.0 == year && today.1 == month {
        Some(today.2)
    } else {
        None
    }
}

/// The day the date picker showing `month` of `year` highlights as today, if
/// today (in UTC) falls in that month; such a day is a day of the month.
pub fn date_picker_today(year: i32, month: u8) -> (r: Option<u8>)
    ensures
        r matches Some(d) ==> 1 <= d <= days_in_month(month, year),
{
    let today = today_utc();
    today_in_month(year, month, today)
}

} // verus!

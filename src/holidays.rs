//! The national holiday calendar: fixed dates, and dates that move with Easter.
//!
//! A date that cannot be placed relative to Easter (a year before the
//! Gregorian reform, or a date outside chrono's range) counts as no moving
//! holiday: holiday detection fails open.

use crate::time::CalendarDate;
use chrono::Datelike;
use vstd::prelude::*;

verus! {

/// A day of the year without its year.
#[derive(Clone, Copy, Debug, PartialEq, Eq, Structural)]
pub struct MonthDay {
    pub month: u32,
    pub day: u32,
}

/// Easter Sunday of a year, when it can be computed.
pub uninterp spec fn easter_of(year: int) -> Option<CalendarDate>;

/// The date `days` days after `date` (before it, for a negative count), when
/// `date` is a real date and the result lies in chrono's range.
pub uninterp spec fn date_shifted_of(date: CalendarDate, days: int) -> Option<CalendarDate>;

/// Relies on bdays::easter::easter_naive_date: Easter Sunday of `year`, or an
/// error for years the algorithm does not cover.
#[verifier::external_body]
fn easter_date(year: i32) -> (r: Option<CalendarDate>)
    ensures
        r == easter_of(year as int),
{
    let d = bdays::easter::easter_naive_date(year).ok()?;
    Some(CalendarDate { year: d.year(), month: d.month(), day: d.day() })
}

/// Relies on chrono's `NaiveDate::from_ymd_opt` and
/// `NaiveDate::checked_add_signed`: calendar arithmetic in whole days.
#[verifier::external_body]
fn shift_date(date: CalendarDate, days: i64) -> (r: Option<CalendarDate>)
    requires
        -100_000 <= days <= 100_000,
    ensures
        r == date_shifted_of(date, days as int),
{
    let d = chrono::NaiveDate::from_ymd_opt(date.year, date.month, date.day)?;
    let d = d.checked_add_signed(chrono::Duration::days(days))?;
    Some(CalendarDate { year: d.year(), month: d.month(), day: d.day() })
}

/// Days from Easter Sunday back to Good Friday.
pub const GOOD_FRIDAY_OFFSET: i64 = -2;

/// Days from Easter Sunday to Pentecost.
pub const PENTECOST_OFFSET: i64 = 49;

pub open spec fn same_month_day(a: CalendarDate, b: CalendarDate) -> bool {
    a.month == b.month && a.day == b.day
}

pub open spec fn matches_date(d: Option<CalendarDate>, date: CalendarDate) -> bool {
    match d {
        Some(x) => same_month_day(x, date),
        None => false,
    }
}

/// New Year, May Day, Victory Day, Midsummer Day, Restoration of
/// Independence, Christmas Eve, Christmas Day and Boxing Day.
pub open spec fn fixed_holiday(month: int, day: int) -> bool {
    (month == 1 && day == 1) || (month == 5 && day == 1) || (month == 6 && day == 23) || (month
        == 6 && day == 24) || (month == 8 && day == 20) || (month == 12 && day == 24) || (month
        == 12 && day == 25) || (month == 12 && day == 26)
}

/// Easter Sunday, Good Friday or Pentecost of `year`.
pub open spec fn easter_holidays_of(year: int) -> Option<Seq<CalendarDate>> {
    match easter_of(year) {
        Some(e) => match (
            date_shifted_of(e, GOOD_FRIDAY_OFFSET as int),
            date_shifted_of(e, PENTECOST_OFFSET as int),
        ) {
            (Some(gf), Some(pc)) => Some(seq![e, gf, pc]),
            _ => None,
        },
        None => None,
    }
}

/// The moving holidays of `year` and of the year after, as month and day;
/// `None` when one of them cannot be computed, or the next year is not an `i32`.
pub open spec fn moving_holidays_spec(year: int) -> Option<Seq<MonthDay>> {
    if year >= i32::MAX {
        None
    } else {
        moving_holidays_of_both(year)
    }
}

pub open spec fn moving_holidays_of_both(year: int) -> Option<Seq<MonthDay>> {
    match (easter_holidays_of(year), easter_holidays_of(year + 1)) {
        (Some(a), Some(b)) => Some(
            seq![
                MonthDay { month: a[0].month, day: a[0].day },
                MonthDay { month: b[0].month, day: b[0].day },
                MonthDay { month: a[1].month, day: a[1].day },
                MonthDay { month: b[1].month, day: b[1].day },
                MonthDay { month: a[2].month, day: a[2].day },
                MonthDay { month: b[2].month, day: b[2].day },
            ],
        ),
        _ => None,
    }
}

/// Whether `date` falls on a moving holiday of its own year or of the next
/// one, matched by month and day.
pub open spec fn moving_holiday(date: CalendarDate) -> bool {
    match moving_holidays_spec(date.year as int) {
        Some(s) => s.contains(MonthDay { month: date.month, day: date.day }),
        None => false,
    }
}

pub open spec fn national_holiday(date: CalendarDate) -> bool {
    fixed_holiday(date.month as int, date.day as int) || moving_holiday(date)
}

/// Whether two dates share month and day, whatever their years.
pub fn is_same_date(d1: &CalendarDate, d2: &CalendarDate) -> (r: bool)
    ensures
        r == same_month_day(*d1, *d2),
{
    d1.month == d2.month && d1.day == d2.day
}

pub fn is_fixed_national_holiday(date: &CalendarDate) -> (r: bool)
    ensures
        r == fixed_holiday(date.month as int, date.day as int),
{
    let (m, d) = (date.month, date.day);
    (m == 1 && d == 1) || (m == 5 && d == 1) || (m == 6 && d == 23) || (m == 6 && d == 24) || (m
        == 8 && d == 20) || (m == 12 && d == 24) || (m == 12 && d == 25) || (m == 12 && d == 26)
}

/// Whether `date` is Easter Sunday, Good Friday or Pentecost of its own year.
pub fn is_easter_or_good_friday(date: &CalendarDate) -> (r: bool)
    ensures
        r == match easter_of(date.year as int) {
            Some(e) => same_month_day(e, *date) || matches_date(
                date_shifted_of(e, GOOD_FRIDAY_OFFSET as int),
                *date,
            ) || matches_date(date_shifted_of(e, PENTECOST_OFFSET as int), *date),
            None => false,
        },
{
    match easter_date(date.year) {
        Some(easter) => {
            if is_same_date(&easter, date) {
                return true;
            }
            let good_friday = shift_date(easter, GOOD_FRIDAY_OFFSET);
            if let Some(gf) = good_friday {
                if is_same_date(&gf, date) {
                    return true;
                }
            }
            let pentecost = shift_date(easter, PENTECOST_OFFSET);
            match pentecost {
                Some(pc) => is_same_date(&pc, date),
                None => false,
            }
        },
        None => false,
    }
}

fn easter_holidays(year: i32) -> (r: Option<(CalendarDate, CalendarDate, CalendarDate)>)
    ensures
        r matches Some((e, gf, pc)) ==> easter_holidays_of(year as int) == Some(seq![e, gf, pc]),
        r is None ==> easter_holidays_of(year as int) is None,
{
    let e = easter_date(year)?;
    let gf = shift_date(e, GOOD_FRIDAY_OFFSET)?;
    let pc = shift_date(e, PENTECOST_OFFSET)?;
    Some((e, gf, pc))
}

fn month_day(d: &CalendarDate) -> (r: MonthDay)
    ensures
        r == (MonthDay { month: d.month, day: d.day }),
{
    MonthDay { month: d.month, day: d.day }
}

/// Easter Sunday, Good Friday and Pentecost of `year` and of the year after,
/// as month and day; `None` when one of them cannot be computed.
pub fn precompute_easter_dates(year: i32) -> (r: Option<Vec<MonthDay>>)
    ensures
        r matches Some(v) ==> moving_holidays_spec(year as int) == Some(v@),
        r is None <==> moving_holidays_spec(year as int) is None,
{
    if year == i32::MAX {
        return None;
    }
    let (e1, gf1, pc1) = easter_holidays(year)?;
    let (e2, gf2, pc2) = easter_holidays(year + 1)?;
    let v = vec![
        month_day(&e1),
        month_day(&e2),
        month_day(&gf1),
        month_day(&gf2),
        month_day(&pc1),
        month_day(&pc2),
    ];
    assert(v@ =~= moving_holidays_spec(year as int)->Some_0);
    Some(v)
}

/// Whether `date` falls on Easter Sunday, Good Friday or Pentecost of its own
/// year or of the next one, matched by month and day.
pub fn is_easter_related_date(date: &CalendarDate) -> (r: bool)
    ensures
        r == moving_holiday(*date),
{
    match precompute_easter_dates(date.year) {
        Some(days) => {
            let mut i: usize = 0;
            while i < days.len()
                invariant
                    0 <= i <= days.len(),
                    moving_holidays_spec(date.year as int) == Some(days@),
                    forall|j: int|
                        0 <= j < i ==> days@[j] != (MonthDay { month: date.month, day: date.day }),
                decreases days.len() - i,
            {
                if days[i].month == date.month && days[i].day == date.day {
                    assert(days@[i as int] == MonthDay { month: date.month, day: date.day });
                    return true;
                }
                i += 1;
            }
            false
        },
        None => false,
    }
}

pub fn is_moving_national_holiday(date: &CalendarDate) -> (r: bool)
    ensures
        r == moving_holiday(*date),
{
    is_easter_related_date(date)
}

pub fn is_national_holiday(date: &CalendarDate) -> (r: bool)
    ensures
        r == national_holiday(*date),
{
    is_fixed_national_holiday(date) || is_moving_national_holiday(date)
}

} // verus!

//! The day/night tariff calendar.

use crate::holidays::{is_national_holiday, national_holiday};
use crate::time::{LocalTime, Moment, Weekday, LOCAL_TZ};
use vstd::prelude::*;

verus! {

/// The tariff class of an hour.
#[derive(Clone, Copy, Debug, PartialEq, Eq, Structural)]
pub enum Tariff {
    Night,
    Day,
}

/// Night before 07:00 and from 22:00, day in between.
pub open spec fn daytime_tariff_spec(hour: int) -> Tariff {
    if hour < 7 || hour >= 22 {
        Tariff::Night
    } else {
        Tariff::Day
    }
}

pub open spec fn is_weekend(l: LocalTime) -> bool {
    l.weekday_spec() == Weekday::Sat || l.weekday_spec() == Weekday::Sun
}

/// The tariff at a local reading: night all day on weekends and national
/// holidays, otherwise by the hour.
pub open spec fn tariff_of_local(l: LocalTime) -> Tariff {
    if is_weekend(l) || national_holiday(l.date_spec()) {
        Tariff::Night
    } else {
        daytime_tariff_spec(l.hour as int)
    }
}

/// The tariff at an instant, read on the local clock.
pub open spec fn tariff_at(m: Moment) -> Tariff {
    tariff_of_local(m.local_in(LOCAL_TZ))
}

impl Tariff {
    /// The tariff of an hour of a working day.
    pub fn daytime_tariff(hour: u32) -> (r: Tariff)
        ensures
            r == daytime_tariff_spec(hour as int),
    {
        if hour < 7 || hour >= 22 {
            Tariff::Night
        } else {
            Tariff::Day
        }
    }

    /// The tariff at `time`, read on the local clock.
    pub fn get_tariff(time: &Moment) -> (r: Tariff)
        ensures
            r == tariff_at(*time),
    {
        let local = time.local_at(LOCAL_TZ);
        let day = local.weekday();
        if day == Weekday::Sat || day == Weekday::Sun || is_national_holiday(&local.date()) {
            Tariff::Night
        } else {
            Tariff::daytime_tariff(local.hour)
        }
    }
}

} // verus!

//! The base strategy that follows the tariff: on at night, off by day.

use crate::price_matrix::DaySlice;
use crate::strategy::{
    full_day_result, plan_cells, plan_day_full_of, planned_units, HourStrategy, PlanError, PowerState,
    PriceChangeUnit,
};
use crate::holidays::national_holiday;
use crate::tariff::{is_weekend, tariff_at, Tariff};
use crate::time::{Moment, LOCAL_TZ};
use vstd::prelude::*;

verus! {

/// On during the night tariff, off during the day tariff.
#[derive(Clone, Copy, Debug)]
pub struct TariffStrategy;

/// On for the night tariff, off for the day tariff.
pub open spec fn power_for_tariff(tariff: Tariff) -> PowerState {
    match tariff {
        Tariff::Night => PowerState::On,
        Tariff::Day => PowerState::Off,
    }
}

/// On a working day that is no holiday the tariff pattern is off from 07:00
/// to 21:59 local time and on for the other hours; on Saturdays and Sundays
/// it is on all day.
pub proof fn lemma_tariff_day_pattern(m: Moment)
    ensures
        ({
            let l = m.local_in(LOCAL_TZ);
            &&& is_weekend(l) ==> TariffStrategy.hour_state(m) == PowerState::On
            &&& !is_weekend(l) && !national_holiday(l.date_spec()) ==> (TariffStrategy.hour_state(m)
                == PowerState::Off <==> 7 <= l.hour <= 21)
        }),
{
}

/// On a national holiday the tariff pattern is on at every hour, whatever the
/// weekday.
pub proof fn lemma_holiday_is_on(m: Moment)
    requires
        national_holiday(m.local_in(LOCAL_TZ).date_spec()),
    ensures
        TariffStrategy.hour_state(m) == PowerState::On,
{
}

impl TariffStrategy {
    pub fn tariff_to_power_state(tariff: Tariff) -> (r: PowerState)
        ensures
            r == power_for_tariff(tariff),
    {
        match tariff {
            Tariff::Night => PowerState::On,
            Tariff::Day => PowerState::Off,
        }
    }
}

impl HourStrategy for TariffStrategy {
    open spec fn hour_state(&self, m: Moment) -> PowerState {
        power_for_tariff(tariff_at(m))
    }

    fn plan_hour(&self, datetime: &Moment) -> (r: PowerState) {
        let tariff = Tariff::get_tariff(datetime);
        TariffStrategy::tariff_to_power_state(tariff)
    }
}


impl TariffStrategy {
    /// One unit per priced hour, in the order of the cells.
    pub fn plan_day(&self, day_prices: &DaySlice) -> (r: Vec<PriceChangeUnit>)
        ensures
            r@ == planned_units(self, day_prices.0@),
    {
        plan_cells(self, day_prices)
    }

    /// Plans the local day of `date` and fills its hours without a price.
    pub fn plan_day_full(&self, day_prices: &DaySlice, date: &Moment) -> (r: Result<
        Vec<PriceChangeUnit>,
        PlanError,
    >)
        ensures
            full_day_result(self, day_prices.0@, *date, r),
    {
        plan_day_full_of(self, day_prices, date)
    }
}

} // verus!

//! Base strategies that keep the load on, or off, all day.

use crate::price_matrix::DaySlice;
use crate::strategy::{
    full_day_result, plan_cells, plan_day_full_of, planned_units, HourStrategy, PlanError, PowerState,
    PriceChangeUnit,
};
use crate::time::Moment;
use vstd::prelude::*;

verus! {

/// On at every hour.
#[derive(Clone, Copy, Debug)]
pub struct AlwaysOnStrategy;

impl HourStrategy for AlwaysOnStrategy {
    open spec fn hour_state(&self, m: Moment) -> PowerState {
        PowerState::On
    }

    fn plan_hour(&self, datetime: &Moment) -> (r: PowerState) {
        PowerState::On
    }
}

/// Off at every hour.
#[derive(Clone, Copy, Debug)]
pub struct AlwaysOffStrategy;

impl HourStrategy for AlwaysOffStrategy {
    open spec fn hour_state(&self, m: Moment) -> PowerState {
        PowerState::Off
    }

    fn plan_hour(&self, datetime: &Moment) -> (r: PowerState) {
        PowerState::Off
    }
}


impl AlwaysOnStrategy {
    /// One unit per priced hour, in the order of the cells.
    pub fn plan_day(&self, day_prices: &DaySlice) -> (r: Vec<PriceChangeUnit>)
        ensures
            r@ == planned_units(self, day_prices.0@),
    {
        plan_cells(self, day_prices)
    }

    /// Plans the local day of `date` and fills its hours without a price.
    pub fn plan_day_full(&self, day_prices: &DaySlice, date: &Moment) -> (r: Result<
        Vec<PriceChangeUnit>,
        PlanError,
    >)
        ensures
            full_day_result(self, day_prices.0@, *date, r),
    {
        plan_day_full_of(self, day_prices, date)
    }
}

impl AlwaysOffStrategy {
    /// One unit per priced hour, in the order of the cells.
    pub fn plan_day(&self, day_prices: &DaySlice) -> (r: Vec<PriceChangeUnit>)
        ensures
            r@ == planned_units(self, day_prices.0@),
    {
        plan_cells(self, day_prices)
    }

    /// Plans the local day of `date` and fills its hours without a price.
    pub fn plan_day_full(&self, day_prices: &DaySlice, date: &Moment) -> (r: Result<
        Vec<PriceChangeUnit>,
        PlanError,
    >)
        ensures
            full_day_result(self, day_prices.0@, *date, r),
    {
        plan_day_full_of(self, day_prices, date)
    }
}

} // verus!

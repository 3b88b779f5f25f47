//! The per-weekday configuration of the planner.

use crate::price_matrix::DaySlice;
use crate::strategy::always::{AlwaysOffStrategy, AlwaysOnStrategy};
use crate::strategy::default::TariffStrategy;
use crate::strategy::limit::PriceLimitStrategy;
use crate::strategy::none::NoneStrategy;
use crate::strategy::smart::SmartStrategy;
use crate::strategy::{
    full_day_result, plan_cells, plan_day_full_of, planned_units, HourStrategy,
    MaskablePowerStrategy, PlanError, PowerState, PriceChangeUnit,
};
use crate::time::{Moment, Weekday};
use vstd::prelude::*;

verus! {

/// The base pattern of a day.
#[derive(Clone, Copy, Debug)]
pub enum DayBasePlan {
    AlwaysOff(AlwaysOffStrategy),
    AlwaysOn(AlwaysOnStrategy),
    Tariff(TariffStrategy),
}

impl HourStrategy for DayBasePlan {
    open spec fn hour_state(&self, m: Moment) -> PowerState {
        match self {
            DayBasePlan::AlwaysOff(v) => v.hour_state(m),
            DayBasePlan::AlwaysOn(v) => v.hour_state(m),
            DayBasePlan::Tariff(v) => v.hour_state(m),
        }
    }

    fn plan_hour(&self, datetime: &Moment) -> (r: PowerState) {
        match self {
            DayBasePlan::AlwaysOff(v) => v.plan_hour(datetime),
            DayBasePlan::AlwaysOn(v) => v.plan_hour(datetime),
            DayBasePlan::Tariff(v) => v.plan_hour(datetime),
        }
    }
}

impl DayBasePlan {
    /// One unit per priced hour, in the order of the cells.
    pub fn plan_day(&self, day_prices: &DaySlice) -> (r: Vec<PriceChangeUnit>)
        ensures
            r@ == planned_units(self, day_prices.0@),
    {
        plan_cells(self, day_prices)
    }

    /// Plans the local day of `date` and fills its hours without a price.
    pub fn plan_day_full(&self, day_prices: &DaySlice, date: &Moment) -> (r: Result<
        Vec<PriceChangeUnit>,
        PlanError,
    >)
        ensures
            full_day_result(self, day_prices.0@, *date, r),
    {
        plan_day_full_of(self, day_prices, date)
    }
}

/// The mask a day applies to its base pattern.
#[derive(Clone, Copy, Debug)]
pub enum DayStrategy {
    NoMask(NoneStrategy),
    Limit(PriceLimitStrategy),
    Smart(SmartStrategy),
}

impl MaskablePowerStrategy for DayStrategy {
    open spec fn masks_to(&self, input: Seq<PriceChangeUnit>, output: Seq<PriceChangeUnit>) -> bool {
        match self {
            DayStrategy::NoMask(v) => v.masks_to(input, output),
            DayStrategy::Limit(v) => v.masks_to(input, output),
            DayStrategy::Smart(v) => v.masks_to(input, output),
        }
    }

    fn plan_day_masked(&self, changes: &Vec<PriceChangeUnit>) -> (r: Vec<PriceChangeUnit>) {
        match self {
            DayStrategy::NoMask(v) => v.plan_day_masked(changes),
            DayStrategy::Limit(v) => v.plan_day_masked(changes),
            DayStrategy::Smart(v) => v.plan_day_masked(changes),
        }
    }
}

/// The configuration of one weekday. Without a base the tariff pattern
/// applies; without a strategy the base pattern is kept.
#[derive(Clone, Debug)]
pub struct Day {
    pub hours_always_on: Option<Vec<u8>>,
    pub hours_always_off: Option<Vec<u8>>,
    pub base: Option<DayBasePlan>,
    pub strategy: Option<DayStrategy>,
}

/// The configuration of every weekday.
#[derive(Clone, Debug)]
pub struct ConfigFile {
    pub monday: Day,
    pub tuesday: Day,
    pub wednesday: Day,
    pub thursday: Day,
    pub friday: Day,
    pub saturday: Day,
    pub sunday: Day,
}

impl ConfigFile {
    /// The first weekday, Monday first, that lists an hour both as always on
    /// and as always off, with that hour.
    pub fn conflicting_override(&self) -> (r: Option<(Weekday, u8)>)
        ensures
            r matches Some((w, h)) ==> lists_hour(self.day_spec(w).hours_always_on, h) && lists_hour(
                self.day_spec(w).hours_always_off,
                h,
            ),
            r is None ==> forall|w: Weekday, h: u8|
                !(lists_hour(self.day_spec(w).hours_always_on, h) && #[trigger] lists_hour(
                    self.day_spec(w).hours_always_off,
                    h,
                )),
    {
        if let Some(h) = self.monday.conflicting_hour() {
            return Some((Weekday::Mon, h));
        }
        if let Some(h) = self.tuesday.conflicting_hour() {
            return Some((Weekday::Tue, h));
        }
        if let Some(h) = self.wednesday.conflicting_hour() {
            return Some((Weekday::Wed, h));
        }
        if let Some(h) = self.thursday.conflicting_hour() {
            return Some((Weekday::Thu, h));
        }
        if let Some(h) = self.friday.conflicting_hour() {
            return Some((Weekday::Fri, h));
        }
        if let Some(h) = self.saturday.conflicting_hour() {
            return Some((Weekday::Sat, h));
        }
        if let Some(h) = self.sunday.conflicting_hour() {
            return Some((Weekday::Sun, h));
        }
        None
    }

    pub open spec fn day_spec(&self, weekday: Weekday) -> &Day {
        match weekday {
            Weekday::Mon => &self.monday,
            Weekday::Tue => &self.tuesday,
            Weekday::Wed => &self.wednesday,
            Weekday::Thu => &self.thursday,
            Weekday::Fri => &self.friday,
            Weekday::Sat => &self.saturday,
            Weekday::Sun => &self.sunday,
        }
    }

    /// The configuration of `weekday`.
    pub fn get_day(&self, weekday: &Weekday) -> (r: &Day)
        ensures
            r == self.day_spec(*weekday),
    {
        match weekday {
            Weekday::Mon => &self.monday,
            Weekday::Tue => &self.tuesday,
            Weekday::Wed => &self.wednesday,
            Weekday::Thu => &self.thursday,
            Weekday::Fri => &self.friday,
            Weekday::Sat => &self.saturday,
            Weekday::Sun => &self.sunday,
        }
    }
}

/// Whether hour `h` is in the list.
pub open spec fn lists_hour(hours: Option<Vec<u8>>, h: u8) -> bool {
    match hours {
        Some(v) => v@.contains(h),
        None => false,
    }
}

fn list_has(hours: &Option<Vec<u8>>, h: u8) -> (r: bool)
    ensures
        r == lists_hour(*hours, h),
{
    match hours {
        Some(v) => {
            let mut i: usize = 0;
            while i < v.len()
                invariant
                    0 <= i <= v.len(),
                    *hours == Some(*v),
                    forall|k: int| 0 <= k < i ==> v@[k] != h,
                decreases v.len() - i,
            {
                if v[i] == h {
                    assert(v@[i as int] == h);
                    return true;
                }
                i += 1;
            }
            false
        },
        None => false,
    }
}

impl Day {
    /// An hour that the day lists both as always on and as always off, if
    /// any: such a day is not a valid configuration.
    pub fn conflicting_hour(&self) -> (r: Option<u8>)
        ensures
            r matches Some(h) ==> lists_hour(self.hours_always_on, h) && lists_hour(
                self.hours_always_off,
                h,
            ),
            r is None ==> forall|h: u8|
                !(lists_hour(self.hours_always_on, h) && #[trigger] lists_hour(self.hours_always_off, h)),
    {
        match &self.hours_always_on {
            Some(on) => {
                let mut i: usize = 0;
                while i < on.len()
                    invariant
                        0 <= i <= on.len(),
                        self.hours_always_on == Some(*on),
                        forall|k: int| 0 <= k < i ==> !lists_hour(self.hours_always_off, #[trigger] on@[k]),
                    decreases on.len() - i,
                {
                    if list_has(&self.hours_always_off, on[i]) {
                        assert(on@.contains(on@[i as int]));
                        return Some(on[i]);
                    }
                    i += 1;
                }
                proof {
                    assert forall|h: u8|
                        !(lists_hour(self.hours_always_on, h) && #[trigger] lists_hour(self.hours_always_off, h)) by {
                        if on@.contains(h) {
                            let k = choose|k: int| 0 <= k < on.len() && on@[k] == h;
                        }
                    }
                }
                None
            },
            None => None,
        }
    }

    /// The base pattern of the day: the tariff pattern where none is set.
    pub open spec fn base_spec(&self) -> DayBasePlan {
        match self.base {
            Some(b) => b,
            None => DayBasePlan::Tariff(TariffStrategy),
        }
    }

    pub fn base_plan(&self) -> (r: DayBasePlan)
        ensures
            r == self.base_spec(),
    {
        match self.base {
            Some(b) => b,
            None => DayBasePlan::Tariff(TariffStrategy),
        }
    }
}

} // verus!

//! The whole-day tariff pattern: a state for every local hour of a date.

use crate::price_matrix::DaySlice;
use crate::strategy::default::{power_for_tariff, TariffStrategy};
use crate::strategy::{PlanError, PowerState};
use crate::tariff::{tariff_at, Tariff};
use crate::time::{local_instant_of, moment_from_local, valid_timestamp, CalendarDate, Moment, Zone};
use vstd::prelude::*;

verus! {

/// A state from `moment` on.
#[derive(Clone, Copy, Debug)]
pub struct PlannedChange {
    pub moment: Moment,
    pub state: PowerState,
}

/// The prices of a date.
#[derive(Clone, Debug)]
pub struct DateColumn {
    pub date: CalendarDate,
    pub cells: DaySlice,
}

/// On during the night tariff and off by day, for each hour of a date.
#[derive(Clone, Copy, Debug)]
pub struct DefaultStrategy;

/// Whether each of the 24 local hours of `date` starts at a single instant in
/// the accepted range.
pub open spec fn whole_day_on_clock(date: CalendarDate, zone: Zone) -> bool {
    forall|h: int|
        0 <= h < 24 ==> match #[trigger] local_instant_of(zone, date, h, 0, 0) {
            Some(t) => valid_timestamp(t),
            None => false,
        }
}

impl DefaultStrategy {
    pub fn tariff_to_power_state(tariff: &Tariff) -> (r: PowerState)
        ensures
            r == power_for_tariff(*tariff),
    {
        TariffStrategy::tariff_to_power_state(*tariff)
    }

    /// One change at the start of each local hour 0 to 23 of `date` in
    /// `zone`, on for the night tariff and off for the day tariff. The prices
    /// play no part.
    pub fn plan_day(date: &CalendarDate, zone: Zone, day: Option<&DateColumn>) -> (r: Result<
        Vec<PlannedChange>,
        PlanError,
    >)
        ensures
            r is Ok <==> whole_day_on_clock(*date, zone),
            r matches Ok(v) ==> v.len() == 24 && forall|h: int|
                0 <= h < 24 ==> {
                    &&& local_instant_of(zone, *date, h, 0, 0) == Some(#[trigger] v@[h].moment.ts())
                    &&& v@[h].moment.tz() == zone
                    &&& v@[h].state == power_for_tariff(tariff_at(v@[h].moment))
                },
    {
        let mut result: Vec<PlannedChange> = Vec::new();
        let mut hour: u32 = 0;
        while hour < 24
            invariant
                0 <= hour <= 24,
                result.len() == hour,
                forall|h: int|
                    0 <= h < hour ==> match #[trigger] local_instant_of(zone, *date, h, 0, 0) {
                        Some(t) => valid_timestamp(t),
                        None => false,
                    },
                forall|h: int|
                    0 <= h < hour ==> {
                        &&& local_instant_of(zone, *date, h, 0, 0) == Some(
                            #[trigger] result@[h].moment.ts(),
                        )
                        &&& result@[h].moment.tz() == zone
                        &&& result@[h].state == power_for_tariff(tariff_at(result@[h].moment))
                    },
            decreases 24 - hour,
        {
            match moment_from_local(zone, *date, hour, 0, 0) {
                Some(moment) => {
                    let tariff = Tariff::get_tariff(&moment);
                    let state = DefaultStrategy::tariff_to_power_state(&tariff);
                    result.push(PlannedChange { moment, state });
                },
                None => {
                    assert(!whole_day_on_clock(*date, zone)) by {
                        let li = local_instant_of(zone, *date, hour as int, 0, 0);
                    }
                    return Err(PlanError::HourNotOnClock(hour));
                },
            }
            hour += 1;
        }
        Ok(result)
    }
}

} // verus!

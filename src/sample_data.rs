//! Days of sample prices.

use crate::price_cell::PriceCell;
use crate::price_matrix::{DaySlice, PricePerMwh};
use crate::time::{
    local_instant_of, moment_from_local, valid_timestamp, CalendarDate, Moment, Zone,
    SECONDS_PER_HOUR,
};
use vstd::prelude::*;

verus! {

/// A price of at least 1.00 and below 191.00 per MWh from a random draw.
pub fn random_price(draw: u32) -> (r: i32)
    ensures
        r == (draw % 19000) + 100,
        100 <= r < 19100,
{
    ((draw % 19000) + 100) as i32
}

/// Consecutive hourly cells from hour `start_hour` of `start_date`'s local
/// day, one per price. `None` where that hour is not a single local instant or
/// the hours leave the accepted range.
pub fn sample_day(start_date: &Moment, start_hour: u32, prices: &Vec<i32>) -> (r: Option<DaySlice>)
    requires
        start_hour < 24,
        prices.len() < 1_000_000,
    ensures
        r is Some <==> sample_fits(
            start_date.tz(),
            start_date.local_spec().date_spec(),
            start_hour as int,
            prices.len() as int,
        ),
        r matches Some(d) ==> d.0.len() == prices.len() && forall|i: int|
            0 <= i < prices.len() ==> {
                &&& (#[trigger] d.0@[i]).price == PricePerMwh(prices@[i])
                &&& d.0@[i].tariff_price is None
                &&& d.0@[i].market_hour == (i + start_hour) % 24
                &&& d.0@[i].moment.ts() == d.0@[0].moment.ts() + i * SECONDS_PER_HOUR
                &&& d.0@[i].moment.tz() == start_date.tz()
            },
{
    let l = start_date.local();
    let start = moment_from_local(start_date.timezone(), l.date(), start_hour, 0, 0)?;
    let r = cells_from(start, start_hour, prices);
    proof {
        if r is Some && prices.len() > 0 {
            assert(r->Some_0.0@[0].price == PricePerMwh(prices@[0]));
        }
    }
    r
}

/// Whether hourly cells for `n` prices from timestamp `t` stay in range.
pub open spec fn hours_fit(t: int, n: int) -> bool {
    valid_timestamp(t) && (n == 0 || valid_timestamp(t + (n - 1) * SECONDS_PER_HOUR))
}

/// Whether the local hour of `date` in `zone` starts at a single instant from
/// which `n` hourly cells stay in range.
pub open spec fn sample_fits(zone: Zone, date: CalendarDate, hour: int, n: int) -> bool {
    match local_instant_of(zone, date, hour, 0, 0) {
        Some(t) => hours_fit(t, n),
        None => false,
    }
}

/// Hourly cells from hour `start_hour` of 21 March 2022 in Berlin, one per
/// price.
pub fn sample_day_specified(prices: &Vec<i32>, start_hour: u32) -> (r: Option<DaySlice>)
    requires
        start_hour < 24,
        prices.len() < 1_000_000,
    ensures
        r is Some <==> sample_fits(
            Zone::Berlin,
            CalendarDate { year: 2022, month: 3, day: 21 },
            start_hour as int,
            prices.len() as int,
        ),
        r matches Some(d) ==> d.0.len() == prices.len() && forall|i: int|
            0 <= i < prices.len() ==> {
                &&& (#[trigger] d.0@[i]).price == PricePerMwh(prices@[i])
                &&& d.0@[i].tariff_price is None
                &&& d.0@[i].moment.ts() == d.0@[0].moment.ts() + i * SECONDS_PER_HOUR
            },
{
    let date = CalendarDate { year: 2022, month: 3, day: 21 };
    let start = moment_from_local(Zone::Berlin, date, start_hour, 0, 0)?;
    let r = cells_from(start, start_hour, prices);
    proof {
        if r is Some && prices.len() > 0 {
            assert(r->Some_0.0@[0].price == PricePerMwh(prices@[0]));
        }
    }
    r
}

fn cells_from(start: Moment, start_hour: u32, prices: &Vec<i32>) -> (r: Option<DaySlice>)
    requires
        start_hour < 24,
        prices.len() < 1_000_000,
        valid_timestamp(start.ts()),
    ensures
        r is Some <==> hours_fit(start.ts(), prices.len() as int),
        r matches Some(d) ==> d.0.len() == prices.len() && forall|i: int|
            0 <= i < prices.len() ==> {
                &&& (#[trigger] d.0@[i]).price == PricePerMwh(prices@[i])
                &&& d.0@[i].tariff_price is None
                &&& d.0@[i].market_hour == (i + start_hour) % 24
                &&& d.0@[i].moment.ts() == start.ts() + i * SECONDS_PER_HOUR
                &&& d.0@[i].moment.tz() == start.tz()
            },
{
    let mut vec: Vec<PriceCell> = Vec::new();
    let mut h: usize = 0;
    while h < prices.len()
        invariant
            0 <= h <= prices.len(),
            prices.len() < 1_000_000,
            start_hour < 24,
            valid_timestamp(start.ts()),
            h > 0 ==> valid_timestamp(start.ts() + (h - 1) * SECONDS_PER_HOUR),
            vec.len() == h,
            forall|i: int|
                0 <= i < h ==> {
                    &&& (#[trigger] vec@[i]).price == PricePerMwh(prices@[i])
                    &&& vec@[i].tariff_price is None
                    &&& vec@[i].market_hour == (i + start_hour) % 24
                    &&& vec@[i].moment.ts() == start.ts() + i * SECONDS_PER_HOUR
                    &&& vec@[i].moment.tz() == start.tz()
                },
        decreases prices.len() - h,
    {
        let moment = match start.add_seconds(h as i64 * SECONDS_PER_HOUR) {
            Some(m) => m,
            None => {
                assert(!hours_fit(start.ts(), prices.len() as int));
                return None;
            },
        };
        let market_hour = (h as u32 + start_hour) % 24;
        vec.push(
            PriceCell {
                price: PricePerMwh(prices[h]),
                moment,
                tariff_price: None,
                market_hour,
            },
        );
        h += 1;
    }
    Some(DaySlice(vec))
}

} // verus!

//! Price amounts and the prices of a day.

use crate::price_cell::PriceCell;
use crate::time::{sort_by_time, sorted_by_time, stable_sorted, Moment, Timed};
use vstd::prelude::*;

verus! {

/// A market price in hundredths of the currency unit per MWh: 14899 is
/// 148.99 per MWh.
#[derive(Clone, Copy, Debug, PartialEq, Eq, Structural)]
pub struct PricePerMwh(pub i32);

/// A price in thousandths of a cent per kWh: 14899 is 14.899 cents per kWh.
/// One thousandth of a cent per kWh is one hundredth of a unit per MWh, so the
/// two types hold the same number for the same price.
#[derive(Clone, Copy, Debug, PartialEq, Eq, Structural)]
pub struct CentsPerKwh(pub i32);

impl PricePerMwh {
    pub fn new(currency_per_mwh: i32) -> (r: PricePerMwh)
        ensures
            r.0 == currency_per_mwh,
    {
        PricePerMwh(currency_per_mwh)
    }

    /// The same price per kWh.
    pub fn to_cents_per_kwh(&self) -> (r: CentsPerKwh)
        ensures
            r.0 == self.0,
    {
        CentsPerKwh(self.0)
    }
}

impl CentsPerKwh {
    pub fn new(cents_per_kwh: i32) -> (r: CentsPerKwh)
        ensures
            r.0 == cents_per_kwh,
    {
        CentsPerKwh(cents_per_kwh)
    }

    /// The same price per MWh.
    pub fn to_price_per_mwh(&self) -> (r: PricePerMwh)
        ensures
            r.0 == self.0,
    {
        PricePerMwh(self.0)
    }
}

/// The prices of one day, in no particular order.
#[derive(Clone, Debug)]
pub struct DaySlice(pub Vec<PriceCell>);

/// Seconds from the start of a day to its last second: 23:59:59.
pub const ALMOST_DAY_SECONDS: i64 = 86399;

/// The moment 23 hours, 59 minutes and 59 seconds after `dt`.
pub fn add_almost_day(dt: &Moment) -> (r: Option<Moment>)
    ensures
        r is Some <==> crate::time::valid_timestamp(dt.ts() + ALMOST_DAY_SECONDS),
        r matches Some(m) ==> m.ts() == dt.ts() + ALMOST_DAY_SECONDS && m.tz() == dt.tz(),
{
    dt.add_seconds(ALMOST_DAY_SECONDS)
}

/// The cells of `day_prices` that lie within a day of its earliest cell,
/// ascending by instant.
pub fn truncate_to_24_hours(day_prices: &DaySlice) -> (r: DaySlice)
    ensures
        ({
            let s = stable_sorted(day_prices.0@);
            &&& r.0@ == s.take(r.0.len() as int)
            &&& forall|i: int| 0 <= i < r.0.len() ==> #[trigger] s[i].at() <= s[0].at() + ALMOST_DAY_SECONDS
            &&& forall|i: int|
                r.0.len() <= i < s.len() ==> #[trigger] s[i].at() > s[0].at() + ALMOST_DAY_SECONDS
        }),
{
    let sorted = sort_by_time(&day_prices.0);
    if sorted.len() == 0 {
        assert(sorted@.take(0) =~= sorted@);
        return DaySlice(sorted);
    }
    let first = sorted[0].instant();
    let mut out: Vec<PriceCell> = Vec::new();
    let mut i: usize = 0;
    while i < sorted.len() && sorted[i].instant() - first <= ALMOST_DAY_SECONDS
        invariant
            0 <= i <= sorted.len(),
            sorted.len() > 0,
            first == sorted@[0].at(),
            sorted_by_time(sorted@),
            crate::time::valid_timestamp(first as int),
            out@ == sorted@.take(i as int),
            forall|k: int| 0 <= k < i ==> sorted@[k].at() <= first + ALMOST_DAY_SECONDS,
        decreases sorted.len() - i,
    {
        out.push(sorted[i]);
        i += 1;
        assert(out@ =~= sorted@.take(i as int));
    }
    assert(forall|k: int| i <= k < sorted.len() ==> sorted@[k].at() > first + ALMOST_DAY_SECONDS);
    DaySlice(out)
}

} // verus!

//! One hour's market price, and the bounds of an hour and of a day.

use crate::price_matrix::{CentsPerKwh, DaySlice, PricePerMwh};
use crate::tariff::{tariff_at, Tariff};
use crate::time::{
    earliest_moment_from_local, local_instant_earliest_of, local_instant_of, moment_from_local,
    valid_timestamp, CalendarDate, Moment, Timed, Zone, MARKET_TZ,
};
use vstd::prelude::*;

verus! {

/// The market price of the hour that starts at `moment`, with the tariff
/// component when it is known.
#[derive(Clone, Copy, Debug)]
pub struct PriceCell {
    pub price: PricePerMwh,
    pub moment: Moment,
    pub tariff_price: Option<PricePerMwh>,
    pub market_hour: u32,
}

/// Market price plus tariff, in hundredths per MWh; an unknown tariff counts
/// as zero.
pub open spec fn total_of(c: PriceCell) -> int {
    c.price.0 + match c.tariff_price {
        Some(t) => t.0 as int,
        None => 0,
    }
}

/// The tariff component that applies at `moment`, given the day and night
/// tariffs.
pub open spec fn tariff_price_of(moment: Moment, day: CentsPerKwh, night: CentsPerKwh) -> int {
    match tariff_at(moment) {
        Tariff::Night => night.0 as int,
        Tariff::Day => day.0 as int,
    }
}

impl Timed for PriceCell {
    open spec fn at(&self) -> int {
        self.moment.ts()
    }

    fn instant(&self) -> (r: i64) {
        self.moment.timestamp()
    }
}

impl PriceCell {
    /// The tariff price that applies at `moment`.
    pub fn get_tariff_price(moment: Moment, day_tariff: &CentsPerKwh, night_tariff: &CentsPerKwh) -> (r:
        PricePerMwh)
        ensures
            r.0 == tariff_price_of(moment, *day_tariff, *night_tariff),
    {
        let tariff_value = match Tariff::get_tariff(&moment) {
            Tariff::Night => night_tariff,
            Tariff::Day => day_tariff,
        };
        tariff_value.to_price_per_mwh()
    }

    /// Sets the tariff component to the tariff that applies at the cell's
    /// moment.
    pub fn add_tariff(&mut self, day_tariff: &CentsPerKwh, night_tariff: &CentsPerKwh)
        ensures
            final(self).price == old(self).price,
            final(self).moment == old(self).moment,
            final(self).market_hour == old(self).market_hour,
            final(self).tariff_price == Some(
                PricePerMwh(tariff_price_of(old(self).moment, *day_tariff, *night_tariff) as i32),
            ),
    {
        let p = PriceCell::get_tariff_price(self.moment, day_tariff, night_tariff);
        self.tariff_price = Some(p);
    }

    /// Market price plus tariff.
    pub fn total(&self) -> (r: i64)
        ensures
            r == total_of(*self),
    {
        let price = self.price.0 as i64;
        match self.tariff_price {
            Some(t) => price + t.0 as i64,
            None => price,
        }
    }
}

/// The day tariff before any period of a tariff table: 6.650 cents per kWh.
pub const DAY_TARIFF_PRICE: i32 = 6650;

/// The night tariff before any period of a tariff table: 3.860 cents per kWh.
pub const NIGHT_TARIFF_PRICE: i32 = 3860;

/// Day and night tariffs in force from `effective_from` on.
#[derive(Clone, Copy, Debug)]
pub struct TariffPeriod {
    pub effective_from: Moment,
    pub day: CentsPerKwh,
    pub night: CentsPerKwh,
}

/// The day and night tariffs at timestamp `t` under the first `n` periods
/// of `table`: those of the last period that has begun by `t`, or the base
/// tariffs where none has.
pub open spec fn tariffs_at(table: Seq<TariffPeriod>, t: int, n: nat) -> (CentsPerKwh, CentsPerKwh)
    decreases n,
{
    if n == 0 {
        (CentsPerKwh(DAY_TARIFF_PRICE), CentsPerKwh(NIGHT_TARIFF_PRICE))
    } else if table[n - 1].effective_from.ts() <= t {
        (table[n - 1].day, table[n - 1].night)
    } else {
        tariffs_at(table, t, (n - 1) as nat)
    }
}

/// The day and night tariffs in force at `moment` under `table`.
pub fn current_tariffs(moment: &Moment, table: &Vec<TariffPeriod>) -> (r: (CentsPerKwh, CentsPerKwh))
    ensures
        r == tariffs_at(table@, moment.ts(), table.len() as nat),
{
    let t = moment.timestamp();
    let mut n: usize = table.len();
    while n > 0
        invariant
            0 <= n <= table.len(),
            t == moment.ts(),
            tariffs_at(table@, t as int, table.len() as nat) == tariffs_at(table@, t as int, n as nat),
        decreases n,
    {
        let period = table[n - 1];
        if period.effective_from.timestamp() <= t {
            return (period.day, period.night);
        }
        n -= 1;
    }
    (CentsPerKwh(DAY_TARIFF_PRICE), CentsPerKwh(NIGHT_TARIFF_PRICE))
}

/// Midnight at the start of the month in the market zone, as a timestamp.
pub open spec fn market_midnight(year: i32, month: u32) -> Option<int> {
    local_instant_earliest_of(MARKET_TZ, CalendarDate { year, month, day: 1 }, 0, 0, 0)
}

pub open spec fn period_at(t: Option<int>, prices: (CentsPerKwh, CentsPerKwh), p: TariffPeriod) -> bool {
    &&& t == Some(p.effective_from.ts())
    &&& p.effective_from.tz() == MARKET_TZ
    &&& p.day == prices.0
    &&& p.night == prices.1
}

/// Whether midnight at the start of the month exists in the market zone.
pub open spec fn midnight_ok(year: i32, month: u32) -> bool {
    match market_midnight(year, month) {
        Some(t) => valid_timestamp(t),
        None => false,
    }
}

fn period_from(year: i32, month: u32, prices: (CentsPerKwh, CentsPerKwh)) -> (r: Option<TariffPeriod>)
    ensures
        r is Some <==> midnight_ok(year, month),
        r matches Some(p) ==> period_at(market_midnight(year, month), prices, p),
{
    let from = earliest_moment_from_local(MARKET_TZ, CalendarDate { year, month, day: 1 }, 0, 0, 0)?;
    Some(TariffPeriod { effective_from: from, day: prices.0, night: prices.1 })
}

/// The dated tariff table: periods from 1 June 2022, 1 December 2022 and
/// 1 January 2023, midnight in the market zone, with the (day, night) prices
/// given for each; before the first the base tariffs apply.
///
/// Each row holds the day and the night tariff of its period, so both switch
/// at the same cut-offs. Open question: an earlier rule switched the night
/// tariff to the January 2023 price already at 1 December 2022 (its cut-off
/// read 1 January 2022); here December 2022 nights cost the December night
/// tariff, pending confirmation of the intended dates.
pub fn tariff_periods(
    october_2022: (CentsPerKwh, CentsPerKwh),
    december_2022: (CentsPerKwh, CentsPerKwh),
    january_2023: (CentsPerKwh, CentsPerKwh),
) -> (r: Option<Vec<TariffPeriod>>)
    ensures
        r is Some <==> midnight_ok(2022, 6) && midnight_ok(2022, 12) && midnight_ok(2023, 1),
        r matches Some(v) ==> v.len() == 3 && period_at(market_midnight(2022, 6), october_2022, v@[0])
            && period_at(market_midnight(2022, 12), december_2022, v@[1])
            && period_at(market_midnight(2023, 1), january_2023, v@[2]),
{
    let first = period_from(2022, 6, october_2022);
    let second = period_from(2022, 12, december_2022);
    let third = period_from(2023, 1, january_2023);
    match (first, second, third) {
        (Some(a), Some(b), Some(c)) => {
            Some(vec![a, b, c])
        },
        _ => None,
    }
}

impl PriceCell {
    /// The tariff price at `moment` under `table`.
    pub fn get_tariff_price_current(moment: Moment, table: &Vec<TariffPeriod>) -> (r: PricePerMwh)
        ensures
            r.0 == ({
                let (day, night) = tariffs_at(table@, moment.ts(), table.len() as nat);
                tariff_price_of(moment, day, night)
            }),
    {
        let (day, night) = current_tariffs(&moment, table);
        PriceCell::get_tariff_price(moment, &day, &night)
    }
}

/// The first and the last second of a local hour or day, when both exist as
/// single instants in the accepted range.
pub open spec fn bounds_spec(first: Option<int>, last: Option<int>, zone: Zone) -> Option<(Moment, Moment)> {
    match (first, last) {
        (Some(a), Some(b)) => if valid_timestamp(a) && valid_timestamp(b) {
            Some((Moment::at_spec(a, zone), Moment::at_spec(b, zone)))
        } else {
            None
        },
        _ => None,
    }
}

/// Seconds in an hour, less one: the offset of an hour's last second.
pub const HOUR_LAST_SECOND: i64 = 3599;

/// The instant at which the local clock of `m`'s zone last read minute 0,
/// second 0, at or before `m`.
pub open spec fn hour_start_ts(m: Moment) -> int {
    m.ts() - 60 * m.local_spec().minute - m.local_spec().second
}

/// The first and last second of the hour that holds `m`: the 3600 seconds
/// from the start of its local hour. Both zones change their offset only at
/// whole hours, so a repeated hour is two such spans, each its own bucket.
pub open spec fn hour_bounds_spec(m: Moment) -> Option<(Moment, Moment)> {
    let s = hour_start_ts(m);
    if valid_timestamp(s) && valid_timestamp(s + HOUR_LAST_SECOND) {
        Some((Moment::at_spec(s, m.tz()), Moment::at_spec(s + HOUR_LAST_SECOND, m.tz())))
    } else {
        None
    }
}

/// The first and last second of the local day that holds `m`, in `m`'s zone.
pub open spec fn day_bounds_spec(m: Moment) -> Option<(Moment, Moment)> {
    let l = m.local_spec();
    bounds_spec(
        local_instant_of(m.tz(), l.date_spec(), 0, 0, 0),
        local_instant_of(m.tz(), l.date_spec(), 23, 59, 59),
        m.tz(),
    )
}

/// The first and the last second of the hour that holds `datetime`, a closed
/// range of 3600 seconds; `None` only where it leaves the accepted range.
pub fn get_hour_start_end(datetime: &Moment) -> (r: Option<(Moment, Moment)>)
    ensures
        r == hour_bounds_spec(*datetime),
        r matches Some((s, e)) ==> s.ts() <= datetime.ts() <= e.ts() && e.ts() == s.ts()
            + HOUR_LAST_SECOND && s.tz() == datetime.tz() && e.tz() == datetime.tz(),
{
    let l = datetime.local();
    let t = datetime.timestamp();
    let zone = datetime.timezone();
    let start = t - 60 * (l.minute as i64) - l.second as i64;
    if start > crate::time::MAX_TIMESTAMP - HOUR_LAST_SECOND {
        return None;
    }
    match (Moment::new(start, zone), Moment::new(start + HOUR_LAST_SECOND, zone)) {
        (Some(s), Some(e)) => {
            proof {
                Moment::lemma_at_spec(start as int, zone);
                Moment::lemma_at_spec(start + HOUR_LAST_SECOND, zone);
            }
            Some((s, e))
        },
        _ => None,
    }
}

/// The first and the last second of the local day that holds `moment`; `None`
/// where either is not a single instant on the local clock.
pub fn get_day_start_end(moment: &Moment) -> (r: Option<(Moment, Moment)>)
    ensures
        r == day_bounds_spec(*moment),
{
    let l = moment.local();
    let zone = moment.timezone();
    let start = moment_from_local(zone, l.date(), 0, 0, 0);
    let end = moment_from_local(zone, l.date(), 23, 59, 59);
    match (start, end) {
        (Some(s), Some(e)) => Some((s, e)),
        _ => None,
    }
}

/// Whether a cell lies within the closed range `[start, end]`.
pub open spec fn cell_within(c: PriceCell, start: int, end: int) -> bool {
    start <= c.moment.ts() <= end
}

/// The cells of `day_prices` that fall in the local day of `date`, in their
/// order; `None` where that day has no single first or last second.
pub fn prices_of_day(day_prices: &DaySlice, date: &Moment) -> (r: Option<DaySlice>)
    ensures
        r is Some <==> day_bounds_spec(*date) is Some,
        r matches Some(d) ==> ({
            let (s, e) = day_bounds_spec(*date)->Some_0;
            d.0@ == day_prices.0@.filter(|c: PriceCell| cell_within(c, s.ts(), e.ts()))
        }),
{
    let (start, end) = get_day_start_end(date)?;
    let (s, e) = (start.timestamp(), end.timestamp());
    let ghost keep = |c: PriceCell| cell_within(c, s as int, e as int);
    let cells = &day_prices.0;
    let mut out: Vec<PriceCell> = Vec::new();
    let mut i: usize = 0;
    while i < cells.len()
        invariant
            0 <= i <= cells.len(),
            keep == (|c: PriceCell| cell_within(c, s as int, e as int)),
            out@ == cells@.take(i as int).filter(keep),
        decreases cells.len() - i,
    {
        let cell = cells[i];
        let t = cell.moment.timestamp();
        proof {
            assert(cells@.take(i as int + 1) =~= cells@.take(i as int).push(cell));
            cells@.take(i as int).lemma_filter_push(cell, keep);
        }
        if s <= t && t <= e {
            out.push(cell);
        }
        i += 1;
    }
    assert(cells@.take(cells.len() as int) =~= cells@);
    Some(DaySlice(out))
}

} // verus!

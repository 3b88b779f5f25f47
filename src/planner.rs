//! Planning a day end to end, and deciding whether planning is needed at all.
//!
//! Fetching prices, reading and writing the store, and switching the load are
//! left to the caller: it asks `plan_request` first, and plans (and caches)
//! only where that says so.

use crate::config_file::{ConfigFile, DayStrategy};
use crate::overrides::{apply_overrides, overridden};
use crate::price_cell::{get_hour_start_end, hour_bounds_spec, PriceCell};
use crate::price_matrix::DaySlice;
use crate::power_state_model::{
    bucket_state, has_row_at, in_bucket, recorded, row_of, upserted, DecisionCache, PowerStateDB,
};
use crate::strategy::{
    full_day_result, MaskablePowerStrategy, PlanError, PowerState,
    PriceChangeUnit,
};
use crate::time::{Moment, LOCAL_TZ};
use vstd::prelude::*;

verus! {

/// Whether `masked` is what the day's strategy makes of `base`; without a
/// strategy the base stays.
pub open spec fn masked_by(strategy: Option<DayStrategy>, base: Seq<PriceChangeUnit>, masked: Seq<PriceChangeUnit>) -> bool {
    match strategy {
        Some(s) => s.masks_to(base, masked),
        None => masked == base,
    }
}

/// What planning the local day of `date` gives: the weekday's base pattern
/// over the day's cells with its empty hours filled, then its mask, then the
/// overrides.
pub open spec fn day_plan_result(
    config: &ConfigFile,
    cells: Seq<PriceCell>,
    date: Moment,
    r: Result<Vec<PriceChangeUnit>, PlanError>,
) -> bool {
    let day = config.day_spec(date.local_spec().weekday_spec());
    let base = day.base_spec();
    &&& r is Ok
    &&& r matches Ok(v) ==> exists|b: Vec<PriceChangeUnit>, m: Seq<PriceChangeUnit>|
        {
            &&& full_day_result(&base, cells, date, Ok(b))
            &&& masked_by(day.strategy, b@, m)
            &&& v.len() == m.len()
            &&& forall|i: int| 0 <= i < m.len() ==> #[trigger] v@[i] == overridden(m[i], config, LOCAL_TZ)
        }
}

/// Plans the local day of `date` (in its zone) from the prices of that day.
pub fn plan_for_day(config: &ConfigFile, day_prices: &DaySlice, date: &Moment) -> (r: Result<
    Vec<PriceChangeUnit>,
    PlanError,
>)
    ensures
        day_plan_result(config, day_prices.0@, *date, r),
{
    let local = date.local();
    let day = config.get_day(&local.weekday());
    let base = day.base_plan();
    let base_prices = match base.plan_day_full(day_prices, date) {
        Ok(v) => v,
        Err(e) => return Err(e),
    };
    let ghost b = base_prices;
    let mut result = match day.strategy {
        Some(strategy) => strategy.plan_day_masked(&base_prices),
        None => base_prices,
    };
    assert(masked_by(day.strategy, b@, result@));
    let ghost m = result@;
    apply_overrides(&mut result, config, LOCAL_TZ);
    assert(result.len() == m.len());
    assert(full_day_result(&base, day_prices.0@, *date, Ok(b)));
    Ok(result)
}

/// What a planning request for an instant calls for.
#[derive(Clone, Copy, Debug, PartialEq, Eq, Structural)]
pub enum PlannerStep {
    /// The hour is decided already: this is its state.
    UseCached(PowerState),
    /// The day has to be planned (and cached).
    Recompute,
}

/// The state cached for the hour that holds `moment`, for the configuration.
pub open spec fn cached_state_at(rows: Seq<PowerStateDB>, moment: Moment, configuration_id: Option<i32>) -> Option<PowerState> {
    match hour_bounds_spec(moment) {
        Some((s, e)) => bucket_state(rows, s.ts(), e.ts(), configuration_id, rows.len()),
        None => None,
    }
}

/// Whether a request for `moment` must plan: where nothing is cached for its
/// hour, or where recomputation is forced.
pub fn plan_request(cache: &DecisionCache, moment: &Moment, configuration_id: Option<i32>, force: bool) -> (r:
    PlannerStep)
    ensures
        r == match cached_state_at(cache.rows@, *moment, configuration_id) {
            Some(x) => if force {
                PlannerStep::Recompute
            } else {
                PlannerStep::UseCached(x)
            },
            None => PlannerStep::Recompute,
        },
{
    let known = match get_hour_start_end(moment) {
        Some((start, end)) => cache.lookup(&start, &end, configuration_id),
        None => None,
    };
    match known {
        Some(x) => if force {
            PlannerStep::Recompute
        } else {
            PlannerStep::UseCached(x)
        },
        None => PlannerStep::Recompute,
    }
}

/// The cached state to switch to at `now`, if the hour of `now` is decided.
pub fn state_to_enact(cache: &DecisionCache, now: &Moment, configuration_id: Option<i32>) -> (r: Option<PowerState>)
    ensures
        r == cached_state_at(cache.rows@, *now, configuration_id),
{
    match get_hour_start_end(now) {
        Some((start, end)) => cache.lookup(&start, &end, configuration_id),
        None => None,
    }
}

/// Plans the local day of `date` and caches every unit of the plan for the
/// configuration.
pub fn plan_and_record(
    cache: &mut DecisionCache,
    config: &ConfigFile,
    configuration_id: Option<i32>,
    day_prices: &DaySlice,
    date: &Moment,
) -> (r: Result<Vec<PriceChangeUnit>, PlanError>)
    ensures
        day_plan_result(config, day_prices.0@, *date, r),
        r matches Ok(v) ==> final(cache).rows@ == recorded(
            old(cache).rows@,
            v@,
            configuration_id,
            v.len() as nat,
        ),
        r is Err ==> final(cache).rows@ == old(cache).rows@,
{
    let plan = plan_for_day(config, day_prices, date);
    if let Ok(v) = &plan {
        cache.insert_day_into_database(v, configuration_id);
    }
    plan
}

/// The state of the first of the first `n` units within `[start, end]`.
pub open spec fn unit_bucket_state(states: Seq<PriceChangeUnit>, start: int, end: int, n: nat) -> Option<PowerState>
    decreases n,
{
    if n == 0 {
        None
    } else {
        match unit_bucket_state(states, start, end, (n - 1) as nat) {
            Some(x) => Some(x),
            None => if start <= states[n - 1].moment.ts() <= end {
                Some(states[n - 1].state)
            } else {
                None
            },
        }
    }
}

proof fn lemma_unit_bucket_stays(states: Seq<PriceChangeUnit>, start: int, end: int, n: nat, m: nat)
    requires
        n <= m <= states.len(),
        unit_bucket_state(states, start, end, n) is Some,
    ensures
        unit_bucket_state(states, start, end, m) == unit_bucket_state(states, start, end, n),
    decreases m - n,
{
    if m > n {
        lemma_unit_bucket_stays(states, start, end, n, (m - 1) as nat);
    }
}

/// The state of the first unit of `states` within the hour that holds
/// `datetime`.
pub fn get_power_state_exact(datetime: &Moment, states: &Vec<PriceChangeUnit>) -> (r: Option<PowerState>)
    ensures
        r == match hour_bounds_spec(*datetime) {
            Some((s, e)) => unit_bucket_state(states@, s.ts(), e.ts(), states.len() as nat),
            None => None,
        },
{
    let (start, end) = match get_hour_start_end(datetime) {
        Some(range) => range,
        None => return None,
    };
    let (s, e) = (start.timestamp(), end.timestamp());
    let mut i: usize = 0;
    while i < states.len()
        invariant
            0 <= i <= states.len(),
            hour_bounds_spec(*datetime) == Some((start, end)),
            s == start.ts(),
            e == end.ts(),
            unit_bucket_state(states@, s as int, e as int, i as nat) is None,
        decreases states.len() - i,
    {
        let t = states[i].moment.timestamp();
        if s <= t && t <= e {
            proof {
                lemma_unit_bucket_stays(states@, s as int, e as int, (i + 1) as nat, states.len() as nat);
            }
            return Some(states[i].state);
        }
        i += 1;
    }
    None
}

proof fn lemma_bucket_prefix(
    rows: Seq<PowerStateDB>,
    extra: PowerStateDB,
    start: int,
    end: int,
    configuration_id: Option<i32>,
    n: nat,
)
    requires
        n <= rows.len(),
    ensures
        bucket_state(rows.push(extra), start, end, configuration_id, n) == bucket_state(
            rows,
            start,
            end,
            configuration_id,
            n,
        ),
    decreases n,
{
    if n > 0 {
        lemma_bucket_prefix(rows, extra, start, end, configuration_id, (n - 1) as nat);
        assert(rows.push(extra)[n - 1] == rows[n - 1]);
    }
}

/// A decision cached for an hour where none was cached before is what a
/// lookup of that hour gives back: its state, unchanged.
pub proof fn lemma_cache_round_trip(
    rows: Seq<PowerStateDB>,
    pcu: PriceChangeUnit,
    configuration_id: Option<i32>,
    start: int,
    end: int,
)
    requires
        start <= pcu.moment.ts() <= end,
        bucket_state(rows, start, end, configuration_id, rows.len()) is None,
    ensures
        ({
            let after = upserted(rows, pcu, configuration_id);
            bucket_state(after, start, end, configuration_id, after.len()) == Some(pcu.state)
        }),
{
    if has_row_at(rows, pcu.moment.ts(), configuration_id) {
        let i = choose|i: int|
            0 <= i < rows.len() && #[trigger] rows[i].moment.ts() == pcu.moment.ts()
                && rows[i].configuration_id == configuration_id;
        lemma_bucket_none_means_none_in(rows, start, end, configuration_id, rows.len(), i);
    }
    let row = row_of(pcu, configuration_id);
    lemma_bucket_prefix(rows, row, start, end, configuration_id, rows.len());
    assert(rows.push(row)[rows.len() as int] == row);
}

proof fn lemma_bucket_none_means_none_in(
    rows: Seq<PowerStateDB>,
    start: int,
    end: int,
    configuration_id: Option<i32>,
    n: nat,
    i: int,
)
    requires
        n <= rows.len(),
        0 <= i < n,
        bucket_state(rows, start, end, configuration_id, n) is None,
    ensures
        !in_bucket(rows[i], start, end, configuration_id),
    decreases n,
{
    if i < n - 1 {
        lemma_bucket_none_means_none_in(rows, start, end, configuration_id, (n - 1) as nat, i);
    }
}

proof fn lemma_row_in_bucket_gives_state(
    rows: Seq<PowerStateDB>,
    start: int,
    end: int,
    configuration_id: Option<i32>,
    k: int,
)
    requires
        0 <= k < rows.len(),
        in_bucket(rows[k], start, end, configuration_id),
    ensures
        bucket_state(rows, start, end, configuration_id, rows.len()) is Some,
{
    if bucket_state(rows, start, end, configuration_id, rows.len()) is None {
        lemma_bucket_none_means_none_in(rows, start, end, configuration_id, rows.len(), k);
    }
}

proof fn lemma_upserted_keeps_rows(rows: Seq<PowerStateDB>, pcu: PriceChangeUnit, configuration_id: Option<i32>, t: int)
    requires
        has_row_at(rows, t, configuration_id),
    ensures
        has_row_at(upserted(rows, pcu, configuration_id), t, configuration_id),
{
    let after = upserted(rows, pcu, configuration_id);
    let i = choose|i: int|
        0 <= i < rows.len() && #[trigger] rows[i].moment.ts() == t && rows[i].configuration_id
            == configuration_id;
    assert(after[i] == rows[i]);
}

proof fn lemma_recorded_holds_plan(
    rows: Seq<PowerStateDB>,
    plan: Seq<PriceChangeUnit>,
    configuration_id: Option<i32>,
    n: nat,
    j: int,
)
    requires
        n <= plan.len(),
        0 <= j < n,
    ensures
        has_row_at(recorded(rows, plan, configuration_id, n), plan[j].moment.ts(), configuration_id),
    decreases n,
{
    let prev = recorded(rows, plan, configuration_id, (n - 1) as nat);
    if j < n - 1 {
        lemma_recorded_holds_plan(rows, plan, configuration_id, (n - 1) as nat, j);
        lemma_upserted_keeps_rows(prev, plan[n - 1], configuration_id, plan[j].moment.ts());
    } else if !has_row_at(prev, plan[j].moment.ts(), configuration_id) {
        let after = prev.push(row_of(plan[j], configuration_id));
        assert(after[prev.len() as int].moment.ts() == plan[j].moment.ts());
    }
}

proof fn lemma_recorded_unchanged(
    cached: Seq<PowerStateDB>,
    plan: Seq<PriceChangeUnit>,
    configuration_id: Option<i32>,
    k: nat,
)
    requires
        k <= plan.len(),
        forall|j: int| 0 <= j < plan.len() ==> has_row_at(cached, #[trigger] plan[j].moment.ts(), configuration_id),
    ensures
        recorded(cached, plan, configuration_id, k) == cached,
    decreases k,
{
    if k > 0 {
        lemma_recorded_unchanged(cached, plan, configuration_id, (k - 1) as nat);
        assert(has_row_at(cached, plan[k - 1].moment.ts(), configuration_id));
    }
}

/// Caching a plan a second time changes nothing.
pub proof fn lemma_recording_is_idempotent(
    rows: Seq<PowerStateDB>,
    plan: Seq<PriceChangeUnit>,
    configuration_id: Option<i32>,
)
    ensures
        ({
            let once = recorded(rows, plan, configuration_id, plan.len());
            recorded(once, plan, configuration_id, plan.len()) == once
        }),
{
    let once = recorded(rows, plan, configuration_id, plan.len());
    assert forall|j: int| 0 <= j < plan.len() implies has_row_at(once, #[trigger] plan[j].moment.ts(), configuration_id) by {
        lemma_recorded_holds_plan(rows, plan, configuration_id, plan.len(), j);
    }
    lemma_recorded_unchanged(once, plan, configuration_id, plan.len());
}

/// Once a plan that covers the hour of `moment` is cached, a request for
/// `moment` without forcing is answered from the cache, and caching the plan
/// again leaves the cache as it is.
pub proof fn lemma_second_run_uses_cache(
    rows: Seq<PowerStateDB>,
    plan: Seq<PriceChangeUnit>,
    configuration_id: Option<i32>,
    moment: Moment,
    i: int,
)
    requires
        0 <= i < plan.len(),
        hour_bounds_spec(moment) matches Some((s, e)) && s.ts() <= plan[i].moment.ts() <= e.ts(),
    ensures
        ({
            let once = recorded(rows, plan, configuration_id, plan.len());
            &&& cached_state_at(once, moment, configuration_id) is Some
            &&& recorded(once, plan, configuration_id, plan.len()) == once
        }),
{
    let once = recorded(rows, plan, configuration_id, plan.len());
    lemma_recorded_holds_plan(rows, plan, configuration_id, plan.len(), i);
    let k = choose|k: int|
        0 <= k < once.len() && #[trigger] once[k].moment.ts() == plan[i].moment.ts()
            && once[k].configuration_id == configuration_id;
    let (s, e) = hour_bounds_spec(moment)->Some_0;
    lemma_row_in_bucket_gives_state(once, s.ts(), e.ts(), configuration_id, k);
    lemma_recording_is_idempotent(rows, plan, configuration_id);
}

} // verus!


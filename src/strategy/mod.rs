//! Power states, planned changes, and the base strategies that give every hour
//! of a day a state.

use crate::price_cell::PriceCell;
use crate::price_matrix::DaySlice;
use crate::time::{
    earliest_moment_from_local, index_map, local_instant_earliest_of, sort_by_time,
    stable_sorted, valid_timestamp, CalendarDate, Moment, Timed, Zone,
};
use vstd::prelude::*;

pub mod always;
pub mod default;
pub mod limit;
pub mod none;
pub mod smart;

verus! {

/// Whether the load is switched on.
#[derive(Clone, Copy, Debug, PartialEq, Eq, Structural)]
pub enum PowerState {
    On,
    Off,
}

/// A planned state from `moment` on, with what it was decided from.
#[derive(Clone, Copy, Debug)]
pub struct ChangeUnit<T> {
    pub moment: Moment,
    pub state: PowerState,
    pub price: T,
}

/// A planned state with its market price, when one was known.
pub type PriceChangeUnit = ChangeUnit<Option<PriceCell>>;

/// A planned state that either carries a price or does not.
#[derive(Clone, Copy, Debug)]
pub enum ChangeUnitEnum {
    Priced(ChangeUnit<PriceCell>),
    Blank(ChangeUnit<()>),
}

impl ChangeUnit<Option<PriceCell>> {
    /// The same unit with another state.
    pub fn clone_with_power_state(&self, state: PowerState) -> (r: PriceChangeUnit)
        ensures
            r == (PriceChangeUnit { state, ..*self }),
    {
        PriceChangeUnit { moment: self.moment, price: self.price, state }
    }
}

impl Timed for ChangeUnit<Option<PriceCell>> {
    open spec fn at(&self) -> int {
        self.moment.ts()
    }

    fn instant(&self) -> (r: i64) {
        self.moment.timestamp()
    }
}

/// The unit planned for a priced hour.
pub open spec fn unit_for_cell(c: PriceCell, state: PowerState) -> PriceChangeUnit {
    ChangeUnit { moment: c.moment, state, price: Some(c) }
}

/// The local hour of a unit's moment in `zone`.
pub open spec fn hour_in(e: PriceChangeUnit, zone: Zone) -> int {
    e.moment.local_in(zone).hour as int
}

/// Whether some unit of `s` falls in local hour `h` of `zone`.
pub open spec fn hour_present(s: Seq<PriceChangeUnit>, zone: Zone, h: int) -> bool {
    exists|i: int| 0 <= i < s.len() && #[trigger] hour_in(s[i], zone) == h
}

/// What stops a day from being planned.
#[derive(Clone, Copy, Debug, PartialEq, Eq, Structural)]
pub enum PlanError {
    /// An hour without a price does not start at a single instant of the
    /// planning day's local clock.
    HourNotOnClock(u32),
}

/// A power pattern simple enough to give a state for a single hour with no
/// price information. It serves as the base pattern of a day.
pub trait HourStrategy: Sized {
    /// The state this strategy gives the hour at `m`.
    spec fn hour_state(&self, m: Moment) -> PowerState;

    fn plan_hour(&self, datetime: &Moment) -> (r: PowerState)
        ensures
            r == self.hour_state(*datetime),
    ;
}

/// A strategy that may change the states of an already planned day, and
/// nothing else.
pub trait MaskablePowerStrategy: Sized {
    /// Whether `output` is what this strategy makes of `input`.
    spec fn masks_to(&self, input: Seq<PriceChangeUnit>, output: Seq<PriceChangeUnit>) -> bool;

    fn plan_day_masked(&self, changes: &Vec<PriceChangeUnit>) -> (r: Vec<PriceChangeUnit>)
        ensures
            self.masks_to(changes@, r@),
    ;
}

/// One unit per cell, each with the state that `s` gives its hour.
pub fn plan_cells<S: HourStrategy>(s: &S, day_prices: &DaySlice) -> (r: Vec<PriceChangeUnit>)
    ensures
        r@ == planned_units(s, day_prices.0@),
{
    let cells = &day_prices.0;
    let mut out: Vec<PriceChangeUnit> = Vec::new();
    let mut i: usize = 0;
    while i < cells.len()
        invariant
            0 <= i <= cells.len(),
            out.len() == i,
            forall|k: int|
                0 <= k < i ==> #[trigger] out@[k] == unit_for_cell(
                    cells@[k],
                    s.hour_state(cells@[k].moment),
                ),
        decreases cells.len() - i,
    {
        let cell = cells[i];
        let state = s.plan_hour(&cell.moment);
        out.push(PriceChangeUnit { price: Some(cell), state, moment: cell.moment });
        i += 1;
    }
    assert(out@ =~= planned_units(s, day_prices.0@));
    out
}

/// The units that a base strategy plans for priced hours.
pub open spec fn planned_units<S: HourStrategy>(s: &S, cells: Seq<PriceCell>) -> Seq<
    PriceChangeUnit,
> {
    Seq::new(cells.len(), |i: int| unit_for_cell(cells[i], s.hour_state(cells[i].moment)))
}

/// The unit for an hour without a price, starting at timestamp `t`.
pub open spec fn fill_unit<S: HourStrategy>(s: &S, t: int, zone: Zone) -> PriceChangeUnit {
    ChangeUnit {
        moment: Moment::at_spec(t, zone),
        state: s.hour_state(Moment::at_spec(t, zone)),
        price: None,
    }
}

/// Whether cell `c` falls on local date `day` of `zone`.
pub open spec fn on_day(c: PriceCell, zone: Zone, day: CalendarDate) -> bool {
    c.moment.local_in(zone).date_spec() == day
}

/// The local hour of a cell's moment in `zone`.
pub open spec fn cell_hour(c: PriceCell, zone: Zone) -> int {
    c.moment.local_in(zone).hour as int
}

/// Whether cell `i` is the one kept for its local hour of `day`: it falls on
/// that day, and every other cell of the same day and hour comes later, or at
/// the same instant but further on in the input.
pub open spec fn kept(cells: Seq<PriceCell>, zone: Zone, day: CalendarDate, i: int) -> bool {
    &&& on_day(cells[i], zone, day)
    &&& forall|j: int|
        0 <= j < cells.len() && j != i && on_day(cells[j], zone, day) && #[trigger] cell_hour(
            cells[j],
            zone,
        ) == cell_hour(cells[i], zone) ==> cells[i].moment.ts() < cells[j].moment.ts() || (
        cells[i].moment.ts() == cells[j].moment.ts() && i < j)
}

/// The kept cells among the first `n`, in input order.
pub open spec fn kept_cells(cells: Seq<PriceCell>, zone: Zone, day: CalendarDate, n: nat) -> Seq<
    PriceCell,
>
    decreases n,
{
    if n == 0 {
        seq![]
    } else {
        let prev = kept_cells(cells, zone, day, (n - 1) as nat);
        if kept(cells, zone, day, n - 1) {
            prev.push(cells[n - 1])
        } else {
            prev
        }
    }
}

/// Whether local hour `h` of `day` has a first instant in the accepted range.
pub open spec fn hour_exists(zone: Zone, day: CalendarDate, h: int) -> bool {
    match local_instant_earliest_of(zone, day, h, 0, 0) {
        Some(t) => valid_timestamp(t),
        None => false,
    }
}

/// The units for the hours below `n` of `day` that `base` leaves empty and
/// that exist, by hour; each starts at the first instant of its hour.
pub open spec fn fills<S: HourStrategy>(
    s: &S,
    base: Seq<PriceChangeUnit>,
    zone: Zone,
    day: CalendarDate,
    n: nat,
) -> Seq<PriceChangeUnit>
    decreases n,
{
    if n == 0 {
        seq![]
    } else {
        let prev = fills(s, base, zone, day, (n - 1) as nat);
        let h = n - 1;
        if hour_present(base, zone, h) || !hour_exists(zone, day, h) {
            prev
        } else {
            prev.push(fill_unit(s, local_instant_earliest_of(zone, day, h, 0, 0)->Some_0, zone))
        }
    }
}

/// The units of the kept cells of the local day that holds `date`, then the
/// units of its empty hours, before sorting.
pub open spec fn full_day_units<S: HourStrategy>(s: &S, cells: Seq<PriceCell>, date: Moment) -> Seq<
    PriceChangeUnit,
> {
    let (zone, day) = (date.tz(), date.local_spec().date_spec());
    let base = planned_units(s, kept_cells(cells, zone, day, cells.len()));
    base + fills(s, base, zone, day, 24)
}

/// What planning a full day with `s` gives: always a plan, holding only units
/// of the local day of `date`, at most one per local hour and one for every
/// hour that exists, ascending by instant; 24 units on a day of 24 hours.
pub open spec fn full_day_result<S: HourStrategy>(
    s: &S,
    cells: Seq<PriceCell>,
    date: Moment,
    r: Result<Vec<PriceChangeUnit>, PlanError>,
) -> bool {
    let (zone, day) = (date.tz(), date.local_spec().date_spec());
    &&& r is Ok
    &&& r matches Ok(v) ==> v@ == stable_sorted(full_day_units(s, cells, date))
    &&& r matches Ok(v) ==> forall|i: int, j: int|
        0 <= i < j < v.len() ==> v@[i].moment.ts() < v@[j].moment.ts()
    &&& r matches Ok(v) ==> hours_distinct(v@, zone)
    &&& r matches Ok(v) ==> forall|i: int|
        0 <= i < v.len() ==> (#[trigger] v@[i]).moment.local_in(zone).date_spec() == day && 0
            <= hour_in(v@[i], zone) < 24
    &&& r matches Ok(v) ==> forall|h: int|
        0 <= h < 24 && hour_exists(zone, day, h) ==> #[trigger] hour_present(v@, zone, h)
    &&& r matches Ok(v) ==> (forall|h: int| 0 <= h < 24 ==> #[trigger] hour_exists(zone, day, h))
        ==> v.len() == 24
}

/// Whether no two units of `s` fall in the same local hour of `zone`.
pub open spec fn hours_distinct(s: Seq<PriceChangeUnit>, zone: Zone) -> bool {
    forall|i: int, j: int|
        0 <= i < j < s.len() ==> #[trigger] hour_in(s[i], zone) != #[trigger] hour_in(s[j], zone)
}

/// How many of the hours below `n` some unit of `s` falls in.
pub open spec fn present_count(s: Seq<PriceChangeUnit>, zone: Zone, n: nat) -> nat
    decreases n,
{
    if n == 0 {
        0
    } else {
        present_count(s, zone, (n - 1) as nat) + if hour_present(s, zone, n - 1) {
            1nat
        } else {
            0nat
        }
    }
}

proof fn lemma_present_count_push(s: Seq<PriceChangeUnit>, e: PriceChangeUnit, zone: Zone, n: nat)
    requires
        !hour_present(s, zone, hour_in(e, zone)),
    ensures
        present_count(s.push(e), zone, n) == present_count(s, zone, n) + if 0 <= hour_in(e, zone) < n {
            1nat
        } else {
            0nat
        },
    decreases n,
{
    if n > 0 {
        lemma_present_count_push(s, e, zone, (n - 1) as nat);
        let h = n - 1;
        let t = s.push(e);
        if hour_present(s, zone, h) {
            let i = choose|i: int| 0 <= i < s.len() && #[trigger] hour_in(s[i], zone) == h;
            assert(t[i] == s[i]);
        }
        if hour_present(t, zone, h) && h != hour_in(e, zone) {
            let i = choose|i: int| 0 <= i < t.len() && #[trigger] hour_in(t[i], zone) == h;
            assert(i < s.len());
            assert(s[i] == t[i]);
        }
        if h == hour_in(e, zone) {
            assert(t[s.len() as int] == e);
        }
    }
}

proof fn lemma_distinct_hours_count(s: Seq<PriceChangeUnit>, zone: Zone)
    requires
        hours_distinct(s, zone),
        forall|i: int| 0 <= i < s.len() ==> 0 <= #[trigger] hour_in(s[i], zone) < 24,
    ensures
        present_count(s, zone, 24) == s.len(),
    decreases s.len(),
{
    if s.len() == 0 {
        lemma_present_count_zero(s, zone, 24);
    } else {
        let p = s.drop_last();
        let e = s.last();
        assert(s == p.push(e));
        assert forall|i: int| 0 <= i < p.len() implies 0 <= #[trigger] hour_in(p[i], zone) < 24 by {
            assert(p[i] == s[i]);
        }
        assert forall|i: int, j: int| 0 <= i < j < p.len() implies #[trigger] hour_in(p[i], zone)
            != #[trigger] hour_in(p[j], zone) by {
            assert(p[i] == s[i] && p[j] == s[j]);
        }
        lemma_distinct_hours_count(p, zone);
        if hour_present(p, zone, hour_in(e, zone)) {
            let i = choose|i: int| 0 <= i < p.len() && #[trigger] hour_in(p[i], zone) == hour_in(e, zone);
            assert(p[i] == s[i]);
            assert(hour_in(s[i], zone) != hour_in(s[s.len() - 1], zone));
        }
        assert(0 <= hour_in(s[s.len() - 1], zone) < 24);
        lemma_present_count_push(p, e, zone, 24);
    }
}

proof fn lemma_present_count_all(s: Seq<PriceChangeUnit>, zone: Zone, n: nat)
    requires
        forall|h: int| 0 <= h < n ==> hour_present(s, zone, h),
    ensures
        present_count(s, zone, n) == n,
    decreases n,
{
    if n > 0 {
        lemma_present_count_all(s, zone, (n - 1) as nat);
    }
}

proof fn lemma_present_count_zero(s: Seq<PriceChangeUnit>, zone: Zone, n: nat)
    requires
        s.len() == 0,
    ensures
        present_count(s, zone, n) == 0,
    decreases n,
{
    if n > 0 {
        lemma_present_count_zero(s, zone, (n - 1) as nat);
    }
}

fn find_hour(vec: &Vec<PriceChangeUnit>, zone: Zone, hour: u32) -> (r: bool)
    ensures
        r == hour_present(vec@, zone, hour as int),
{
    let mut i: usize = 0;
    while i < vec.len()
        invariant
            0 <= i <= vec.len(),
            forall|k: int| 0 <= k < i ==> hour_in(vec@[k], zone) != hour,
        decreases vec.len() - i,
    {
        if vec[i].moment.local_at(zone).hour == hour {
            assert(hour_in(vec@[i as int], zone) == hour);
            return true;
        }
        i += 1;
    }
    false
}

/// The kept cells of `day`: for each local hour of the day, its earliest cell.
fn select_day_cells(cells: &Vec<PriceCell>, zone: Zone, day: CalendarDate) -> (r: Vec<PriceCell>)
    ensures
        r@ == kept_cells(cells@, zone, day, cells.len() as nat),
        forall|k: int|
            0 <= k < r.len() ==> on_day(#[trigger] r@[k], zone, day) && 0 <= cell_hour(r@[k], zone)
                < 24,
        forall|a: int, b: int|
            0 <= a < b < r.len() ==> #[trigger] cell_hour(r@[a], zone) != #[trigger] cell_hour(
                r@[b],
                zone,
            ),
{
    let mut out: Vec<PriceCell> = Vec::new();
    let ghost mut idx: Seq<int> = seq![];
    let mut i: usize = 0;
    while i < cells.len()
        invariant
            0 <= i <= cells.len(),
            out@ == kept_cells(cells@, zone, day, i as nat),
            idx.len() == out.len(),
            forall|k: int|
                0 <= k < idx.len() ==> 0 <= #[trigger] idx[k] < i && out@[k] == cells@[idx[k]] && kept(
                    cells@,
                    zone,
                    day,
                    idx[k],
                ),
            forall|k: int|
                0 <= k < out.len() ==> on_day(#[trigger] out@[k], zone, day) && 0 <= cell_hour(
                    out@[k],
                    zone,
                ) < 24,
            forall|a: int, b: int|
                0 <= a < b < out.len() ==> #[trigger] cell_hour(out@[a], zone) != #[trigger] cell_hour(
                    out@[b],
                    zone,
                ),
        decreases cells.len() - i,
    {
        let li = cells[i].moment.local_at(zone);
        let mut ok = li.date() == day;
        if ok {
            let ti = cells[i].moment.timestamp();
            let mut j: usize = 0;
            while j < cells.len()
                invariant
                    0 <= i < cells.len(),
                    0 <= j <= cells.len(),
                    li == cells@[i as int].moment.local_in(zone),
                    ti == cells@[i as int].moment.ts(),
                    ok == forall|j2: int|
                        0 <= j2 < j && j2 != i && on_day(cells@[j2], zone, day) && #[trigger] cell_hour(
                            cells@[j2],
                            zone,
                        ) == cell_hour(cells@[i as int], zone) ==> ti < cells@[j2].moment.ts() || (ti
                            == cells@[j2].moment.ts() && i < j2),
                decreases cells.len() - j,
            {
                let lj = cells[j].moment.local_at(zone);
                let tj = cells[j].moment.timestamp();
                if j != i && lj.date() == day && lj.hour == li.hour && !(ti < tj || (ti == tj && i < j)) {
                    assert(cell_hour(cells@[j as int], zone) == cell_hour(cells@[i as int], zone));
                    ok = false;
                }
                j += 1;
            }
        }
        proof {
            assert(ok == kept(cells@, zone, day, i as int));
        }
        if ok {
            proof {
                assert forall|k: int| 0 <= k < out.len() implies #[trigger] cell_hour(out@[k], zone)
                    != cell_hour(cells@[i as int], zone) by {
                    let ik = idx[k];
                    assert(kept(cells@, zone, day, ik));
                    if cell_hour(cells@[ik], zone) == cell_hour(cells@[i as int], zone) {
                        assert(cell_hour(cells@[i as int], zone) == cell_hour(cells@[ik], zone));
                    }
                }
                idx = idx.push(i as int);
            }
            out.push(cells[i]);
        }
        i += 1;
    }
    out
}

/// Plans the local day of `date` (in its zone) with the base strategy `s`:
/// a unit for the earliest cell of each local hour of that day, and a unit at
/// the first instant of every other hour of the day; ascending by instant.
pub fn plan_day_full_of<S: HourStrategy>(s: &S, day_prices: &DaySlice, date: &Moment) -> (r: Result<
    Vec<PriceChangeUnit>,
    PlanError,
>)
    ensures
        full_day_result(s, day_prices.0@, *date, r),
{
    let zone = date.timezone();
    let day = date.local().date();
    let slice = DaySlice(select_day_cells(&day_prices.0, zone, day));
    let ghost base = planned_units(s, slice.0@);
    let mut vec = plan_cells(s, &slice);
    proof {
        assert forall|a: int, b: int| 0 <= a < b < vec.len() implies #[trigger] hour_in(vec@[a], zone)
            != #[trigger] hour_in(vec@[b], zone) by {
            assert(cell_hour(slice.0@[a], zone) != cell_hour(slice.0@[b], zone));
        }
        assert forall|k: int| 0 <= k < vec.len() implies (#[trigger] vec@[k]).moment.local_in(
            zone,
        ).date_spec() == day && 0 <= hour_in(vec@[k], zone) < 24 by {
            assert(on_day(slice.0@[k], zone, day));
        }
    }
    let mut hour: u32 = 0;
    while hour < 24
        invariant
            0 <= hour <= 24,
            base == planned_units(s, slice.0@),
            zone == date.tz(),
            day == date.local_spec().date_spec(),
            vec@ == base + fills(s, base, zone, day, hour as nat),
            forall|k: int|
                base.len() <= k < vec.len() ==> 0 <= #[trigger] hour_in(vec@[k], zone) < hour,
            forall|k: int|
                0 <= k < vec.len() ==> (#[trigger] vec@[k]).moment.local_in(zone).date_spec() == day
                    && 0 <= hour_in(vec@[k], zone) < 24,
            forall|a: int, b: int|
                0 <= a < b < vec.len() ==> #[trigger] hour_in(vec@[a], zone) != #[trigger] hour_in(
                    vec@[b],
                    zone,
                ),
            forall|h: int| 0 <= h < hour && hour_exists(zone, day, h) ==> hour_present(vec@, zone, h),
        decreases 24 - hour,
    {
        let present = find_hour(&vec, zone, hour);
        proof {
            if hour_present(base, zone, hour as int) {
                let i = choose|i: int| 0 <= i < base.len() && #[trigger] hour_in(base[i], zone) == hour;
                assert(vec@[i] == base[i]);
            }
            if present {
                let i = choose|i: int| 0 <= i < vec.len() && #[trigger] hour_in(vec@[i], zone) == hour;
                assert(i < base.len());
                assert(base[i] == vec@[i]);
            }
        }
        if !present {
            if let Some(moment) = earliest_moment_from_local(zone, day, hour, 0, 0) {
                let state = s.plan_hour(&moment);
                let unit = PriceChangeUnit { moment, price: None, state };
                proof {
                    Moment::lemma_at_spec(moment.ts(), zone);
                    assert(unit == fill_unit(s, moment.ts(), zone));
                }
                let ghost before = vec@;
                vec.push(unit);
                proof {
                    assert(hour_in(vec@[vec.len() - 1], zone) == hour);
                    assert forall|a: int, b: int| 0 <= a < b < vec.len() implies #[trigger] hour_in(
                        vec@[a],
                        zone,
                    ) != #[trigger] hour_in(vec@[b], zone) by {
                        if b == vec.len() - 1 {
                            assert(vec@[a] == before[a]);
                            if hour_in(before[a], zone) == hour {
                                assert(hour_present(before, zone, hour as int));
                            }
                        } else {
                            assert(vec@[a] == before[a] && vec@[b] == before[b]);
                        }
                    }
                    assert forall|h: int|
                        0 <= h <= hour && hour_exists(zone, day, h) implies hour_present(vec@, zone, h) by {
                        if h < hour {
                            assert(hour_present(before, zone, h));
                            let i = choose|i: int|
                                0 <= i < before.len() && #[trigger] hour_in(before[i], zone) == h;
                            assert(vec@[i] == before[i]);
                        }
                    }
                }
            }
        }
        hour += 1;
        proof {
            assert(vec@ =~= base + fills(s, base, zone, day, hour as nat));
        }
    }
    let sorted = sort_by_time(&vec);
    proof {
        broadcast use vstd::seq_lib::group_to_multiset_ensures;

        let p = choose|p: Seq<int>| index_map(p, sorted@, vec@);
        assert forall|k: int| 0 <= k < sorted.len() implies (#[trigger] sorted@[k]).moment.local_in(
            zone,
        ).date_spec() == day && 0 <= hour_in(sorted@[k], zone) < 24 by {
            assert(sorted@[k] == vec@[p[k]]);
        }
        assert forall|a: int, b: int| 0 <= a < b < sorted.len() implies #[trigger] hour_in(
            sorted@[a],
            zone,
        ) != #[trigger] hour_in(sorted@[b], zone) by {
            assert(sorted@[a] == vec@[p[a]] && sorted@[b] == vec@[p[b]]);
            assert(p[a] != p[b]);
            if p[a] > p[b] {
                assert(hour_in(vec@[p[b]], zone) != hour_in(vec@[p[a]], zone));
            }
        }
        assert forall|i: int, j: int| 0 <= i < j < sorted.len() implies sorted@[i].moment.ts()
            < sorted@[j].moment.ts() by {
            assert(sorted@[i].moment.ts() <= sorted@[j].moment.ts());
            assert(hour_in(sorted@[i], zone) != hour_in(sorted@[j], zone));
        }
        assert forall|h: int| 0 <= h < 24 && hour_exists(zone, day, h) implies #[trigger] hour_present(
            sorted@,
            zone,
            h,
        ) by {
            assert(hour_present(vec@, zone, h));
            let i = choose|i: int| 0 <= i < vec.len() && #[trigger] hour_in(vec@[i], zone) == h;
            assert(vec@.contains(vec@[i]));
            assert(sorted@.to_multiset().count(vec@[i]) > 0);
            assert(sorted@.contains(vec@[i]));
            let j = choose|j: int| 0 <= j < sorted.len() && sorted@[j] == vec@[i];
            assert(hour_in(sorted@[j], zone) == h);
        }
        if forall|h: int| 0 <= h < 24 ==> #[trigger] hour_exists(zone, day, h) {
            lemma_present_count_all(sorted@, zone, 24);
            lemma_distinct_hours_count(sorted@, zone);
        }
        assert(vec@ == full_day_units(s, day_prices.0@, *date));
        assert(sorted@ == stable_sorted(full_day_units(s, day_prices.0@, *date)));
        assert(hours_distinct(sorted@, zone));
        assert((forall|h: int| 0 <= h < 24 ==> #[trigger] hour_exists(zone, day, h)) ==> sorted.len() == 24);
    }
    Ok(sorted)
}

} // verus!

//! The decision cache: planned states kept per instant and configuration, so
//! that an hour already decided is not decided again.

use crate::strategy::{PowerState, PriceChangeUnit};
use crate::time::Moment;
use vstd::prelude::*;

verus! {

/// A cached decision as stored: the state as a number, 1 for on.
#[derive(Clone, Copy, Debug)]
pub struct PowerStateDB {
    pub moment: Moment,
    pub state: i32,
    pub configuration_id: Option<i32>,
}

/// A decision about to be stored.
#[derive(Clone, Copy, Debug)]
pub struct NewPowerStateDB {
    pub moment: Moment,
    pub state: i32,
    pub configuration_id: Option<i32>,
}

pub open spec fn state_of_num(num: int) -> PowerState {
    if num == 1 {
        PowerState::On
    } else {
        PowerState::Off
    }
}

pub open spec fn num_of_state(state: PowerState) -> i32 {
    match state {
        PowerState::On => 1,
        PowerState::Off => 0,
    }
}

impl PowerStateDB {
    /// 1 is on; any other number is off.
    pub fn num_to_state(num: i32) -> (r: PowerState)
        ensures
            r == state_of_num(num as int),
    {
        match num {
            1 => PowerState::On,
            _ => PowerState::Off,
        }
    }

    /// On is 1, off is 0.
    pub fn state_to_num(num: PowerState) -> (r: i32)
        ensures
            r == num_of_state(num),
    {
        match num {
            PowerState::On => 1,
            PowerState::Off => 0,
        }
    }

    /// The decision as a planned unit, without a price.
    pub fn to_unit(&self) -> (r: PriceChangeUnit)
        ensures
            r == (PriceChangeUnit {
                moment: self.moment,
                state: state_of_num(self.state as int),
                price: None,
            }),
    {
        PriceChangeUnit { moment: self.moment, price: None, state: PowerStateDB::num_to_state(self.state) }
    }
}

impl NewPowerStateDB {
    pub fn from_pcu(pcu: PriceChangeUnit, configuration_id: Option<i32>) -> (r: NewPowerStateDB)
        ensures
            r == (NewPowerStateDB {
                moment: pcu.moment,
                state: num_of_state(pcu.state),
                configuration_id,
            }),
    {
        NewPowerStateDB {
            moment: pcu.moment,
            state: PowerStateDB::state_to_num(pcu.state),
            configuration_id,
        }
    }
}

/// The row that caching `pcu` under `configuration_id` stores.
pub open spec fn row_of(pcu: PriceChangeUnit, configuration_id: Option<i32>) -> PowerStateDB {
    PowerStateDB { moment: pcu.moment, state: num_of_state(pcu.state), configuration_id }
}

/// Whether `rows` hold a decision at instant `t` for the configuration.
pub open spec fn has_row_at(rows: Seq<PowerStateDB>, t: int, configuration_id: Option<i32>) -> bool {
    exists|i: int|
        0 <= i < rows.len() && #[trigger] rows[i].moment.ts() == t && rows[i].configuration_id
            == configuration_id
}

/// The rows after caching `pcu`: unchanged where a decision at its instant
/// exists for the configuration, else with the new row added.
pub open spec fn upserted(rows: Seq<PowerStateDB>, pcu: PriceChangeUnit, configuration_id: Option<i32>) -> Seq<
    PowerStateDB,
> {
    if has_row_at(rows, pcu.moment.ts(), configuration_id) {
        rows
    } else {
        rows.push(row_of(pcu, configuration_id))
    }
}

/// The rows after caching the first `n` units of `plan`, in order.
pub open spec fn recorded(
    rows: Seq<PowerStateDB>,
    plan: Seq<PriceChangeUnit>,
    configuration_id: Option<i32>,
    n: nat,
) -> Seq<PowerStateDB>
    decreases n,
{
    if n == 0 {
        rows
    } else {
        upserted(recorded(rows, plan, configuration_id, (n - 1) as nat), plan[n - 1], configuration_id)
    }
}

/// Whether a row is a decision of the configuration within `[start, end]`.
pub open spec fn in_bucket(row: PowerStateDB, start: int, end: int, configuration_id: Option<i32>) -> bool {
    row.configuration_id == configuration_id && start <= row.moment.ts() <= end
}

/// The state of the first of the first `n` rows that is a decision of the
/// configuration within `[start, end]`.
pub open spec fn bucket_state(
    rows: Seq<PowerStateDB>,
    start: int,
    end: int,
    configuration_id: Option<i32>,
    n: nat,
) -> Option<PowerState>
    decreases n,
{
    if n == 0 {
        None
    } else {
        match bucket_state(rows, start, end, configuration_id, (n - 1) as nat) {
            Some(x) => Some(x),
            None => if in_bucket(rows[n - 1], start, end, configuration_id) {
                Some(state_of_num(rows[n - 1].state as int))
            } else {
                None
            },
        }
    }
}

/// The decisions made so far.
#[derive(Clone, Debug)]
pub struct DecisionCache {
    pub rows: Vec<PowerStateDB>,
}

impl DecisionCache {
    pub fn new() -> (r: DecisionCache)
        ensures
            r.rows@ == Seq::<PowerStateDB>::empty(),
    {
        DecisionCache { rows: Vec::new() }
    }

    fn has_row(&self, t: i64, configuration_id: Option<i32>) -> (r: bool)
        ensures
            r == has_row_at(self.rows@, t as int, configuration_id),
    {
        let mut i: usize = 0;
        while i < self.rows.len()
            invariant
                0 <= i <= self.rows.len(),
                forall|k: int|
                    0 <= k < i ==> !(#[trigger] self.rows@[k].moment.ts() == t
                        && self.rows@[k].configuration_id == configuration_id),
            decreases self.rows.len() - i,
        {
            let row = self.rows[i];
            if row.moment.timestamp() == t && row.configuration_id == configuration_id {
                return true;
            }
            i += 1;
        }
        false
    }

    /// Caches `pcu` for the configuration, unless a decision at its instant
    /// is cached already.
    pub fn upsert_cached_decision(&mut self, pcu: &PriceChangeUnit, configuration_id: Option<i32>)
        ensures
            final(self).rows@ == upserted(old(self).rows@, *pcu, configuration_id),
    {
        if !self.has_row(pcu.moment.timestamp(), configuration_id) {
            let row = NewPowerStateDB::from_pcu(*pcu, configuration_id);
            self.rows.push(
                PowerStateDB {
                    moment: row.moment,
                    state: row.state,
                    configuration_id: row.configuration_id,
                },
            );
        }
    }

    /// Caches every unit of `plan`, in order.
    pub fn insert_day_into_database(&mut self, plan: &Vec<PriceChangeUnit>, configuration_id: Option<i32>)
        ensures
            final(self).rows@ == recorded(old(self).rows@, plan@, configuration_id, plan.len() as nat),
    {
        let mut i: usize = 0;
        while i < plan.len()
            invariant
                0 <= i <= plan.len(),
                self.rows@ == recorded(old(self).rows@, plan@, configuration_id, i as nat),
            decreases plan.len() - i,
        {
            self.upsert_cached_decision(&plan[i], configuration_id);
            i += 1;
        }
    }

    /// The state cached for the configuration within `[start, end]`: that of
    /// the first such row.
    pub fn lookup(&self, start: &Moment, end: &Moment, configuration_id: Option<i32>) -> (r: Option<PowerState>)
        ensures
            r == bucket_state(self.rows@, start.ts(), end.ts(), configuration_id, self.rows.len() as nat),
    {
        let (s, e) = (start.timestamp(), end.timestamp());
        let mut i: usize = 0;
        while i < self.rows.len()
            invariant
                0 <= i <= self.rows.len(),
                s == start.ts(),
                e == end.ts(),
                bucket_state(self.rows@, s as int, e as int, configuration_id, i as nat) is None,
            decreases self.rows.len() - i,
        {
            let row = self.rows[i];
            let t = row.moment.timestamp();
            if row.configuration_id == configuration_id && s <= t && t <= e {
                let state = PowerStateDB::num_to_state(row.state);
                proof {
                    lemma_bucket_state_stays(
                        self.rows@,
                        s as int,
                        e as int,
                        configuration_id,
                        (i + 1) as nat,
                        self.rows.len() as nat,
                    );
                }
                return Some(state);
            }
            i += 1;
        }
        None
    }

    /// The decisions of the configuration within `[day_start, day_end]`, as
    /// planned units, one per such row, in the order they were cached.
    pub fn get_day_from_database(&self, day_start: &Moment, day_end: &Moment, configuration_id: Option<i32>) -> (r:
        Vec<PriceChangeUnit>)
        ensures
            r@ == self.rows@.filter(
                |row: PowerStateDB| in_bucket(row, day_start.ts(), day_end.ts(), configuration_id),
            ).map_values(|row: PowerStateDB| row.to_unit_spec()),
    {
        let (s, e) = (day_start.timestamp(), day_end.timestamp());
        let ghost keep = |row: PowerStateDB| in_bucket(row, s as int, e as int, configuration_id);
        let ghost unit = |row: PowerStateDB| row.to_unit_spec();
        let mut out: Vec<PriceChangeUnit> = Vec::new();
        let mut i: usize = 0;
        while i < self.rows.len()
            invariant
                0 <= i <= self.rows.len(),
                keep == (|row: PowerStateDB| in_bucket(row, s as int, e as int, configuration_id)),
                unit == (|row: PowerStateDB| row.to_unit_spec()),
                out@ == self.rows@.take(i as int).filter(keep).map_values(unit),
            decreases self.rows.len() - i,
        {
            let row = self.rows[i];
            let t = row.moment.timestamp();
            proof {
                assert(self.rows@.take(i as int + 1) =~= self.rows@.take(i as int).push(row));
                self.rows@.take(i as int).lemma_filter_push(row, keep);
            }
            if row.configuration_id == configuration_id && s <= t && t <= e {
                let ghost before = self.rows@.take(i as int).filter(keep);
                out.push(row.to_unit());
                proof {
                    assert(before.push(row).map_values(unit) =~= before.map_values(unit).push(unit(row)));
                }
            }
            i += 1;
        }
        assert(self.rows@.take(self.rows.len() as int) =~= self.rows@);
        out
    }
}

impl PowerStateDB {
    pub open spec fn to_unit_spec(self) -> PriceChangeUnit {
        PriceChangeUnit { moment: self.moment, state: state_of_num(self.state as int), price: None }
    }
}

proof fn lemma_bucket_state_stays(
    rows: Seq<PowerStateDB>,
    start: int,
    end: int,
    configuration_id: Option<i32>,
    n: nat,
    m: nat,
)
    requires
        n <= m <= rows.len(),
        bucket_state(rows, start, end, configuration_id, n) is Some,
    ensures
        bucket_state(rows, start, end, configuration_id, m) == bucket_state(
            rows,
            start,
            end,
            configuration_id,
            n,
        ),
    decreases m - n,
{
    if m > n {
        lemma_bucket_state_stays(rows, start, end, configuration_id, n, (m - 1) as nat);
    }
}

} // verus!

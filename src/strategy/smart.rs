//! The rationing mask: a budget of hours on, given to the cheapest hours, with
//! some reserved for the morning and a hard price ceiling.

use crate::price_cell::total_of;
use crate::strategy::{MaskablePowerStrategy, PowerState, PriceChangeUnit};
use crate::time::{
    lemma_stable_sorted_from, sort_by_time, stable_insert, stable_sorted, Timed, LOCAL_TZ,
};
use vstd::prelude::*;

verus! {

/// At most `hour_budget` hours on, the cheapest ones; up to `morning_hours`
/// (at most 7) of them are the cheapest hours before 07:00 local time; no hour
/// whose total price exceeds `hard_limit_mwh` (hundredths per MWh) stays on.
#[derive(Clone, Copy, Debug)]
pub struct SmartStrategy {
    pub hour_budget: u8,
    pub morning_hours: u8,
    pub hard_limit_mwh: i64,
}

/// Fewer priced hours than this leave the plan unchanged.
pub const MIN_PRICED_HOURS: usize = 20;

/// Local hours before this one are morning hours.
pub const MORNING_END_HOUR: u32 = 7;

/// Whether the unit's local hour is before 07:00.
pub open spec fn is_morning(e: PriceChangeUnit) -> bool {
    e.moment.local_in(LOCAL_TZ).hour < MORNING_END_HOUR
}

/// The number of units of `s` that carry a price.
pub open spec fn priced_count(s: Seq<PriceChangeUnit>) -> nat
    decreases s.len(),
{
    if s.len() == 0 {
        0
    } else {
        priced_count(s.drop_last()) + if s.last().price is Some {
            1nat
        } else {
            0nat
        }
    }
}

/// The sum of the total prices of the units of `s` that carry a price.
pub open spec fn priced_sum(s: Seq<PriceChangeUnit>) -> int
    decreases s.len(),
{
    if s.len() == 0 {
        0
    } else {
        priced_sum(s.drop_last()) + match s.last().price {
            Some(c) => total_of(c),
            None => 0,
        }
    }
}

/// The price a unit ranks by, scaled by the number `n` of priced units: a
/// priced unit ranks by its total price, a unit without one by the average
/// `sum / n` of the priced units.
pub open spec fn scaled_key(e: PriceChangeUnit, n: int, sum: int) -> int {
    match e.price {
        Some(c) => total_of(c) * n,
        None => sum,
    }
}

/// Whether unit `j` comes before unit `i` among the morning units: cheaper,
/// or as cheap and earlier in the input.
pub open spec fn precedes_morning(s: Seq<PriceChangeUnit>, n: int, sum: int, j: int, i: int) -> bool {
    let (kj, ki) = (scaled_key(s[j], n, sum), scaled_key(s[i], n, sum));
    kj < ki || (kj == ki && j < i)
}

/// Whether unit `j` comes before unit `i` in the second round: cheaper; or as
/// cheap, and a morning unit where `i` is not; or as cheap, both or neither
/// morning, and earlier in the input.
pub open spec fn precedes_rest(s: Seq<PriceChangeUnit>, n: int, sum: int, j: int, i: int) -> bool {
    let (kj, ki) = (scaled_key(s[j], n, sum), scaled_key(s[i], n, sum));
    kj < ki || (kj == ki && is_morning(s[j]) && !is_morning(s[i])) || (kj == ki && is_morning(s[j])
        == is_morning(s[i]) && j < i)
}

/// How many of the first `upto` units are morning units before unit `i`.
pub open spec fn morning_rank(s: Seq<PriceChangeUnit>, n: int, sum: int, i: int, upto: nat) -> nat
    decreases upto,
{
    if upto == 0 {
        0
    } else {
        let j = upto - 1;
        morning_rank(s, n, sum, i, (upto - 1) as nat) + if is_morning(s[j]) && precedes_morning(
            s,
            n,
            sum,
            j,
            i,
        ) {
            1nat
        } else {
            0nat
        }
    }
}

/// Whether unit `i` is one of the `morning` cheapest morning units.
pub open spec fn is_reserved(s: Seq<PriceChangeUnit>, n: int, sum: int, morning: int, i: int) -> bool {
    is_morning(s[i]) && morning_rank(s, n, sum, i, s.len()) < morning
}

/// How many of the first `upto` units are unreserved units before unit `i` in
/// the second round.
pub open spec fn rest_rank(
    s: Seq<PriceChangeUnit>,
    n: int,
    sum: int,
    morning: int,
    i: int,
    upto: nat,
) -> nat
    decreases upto,
{
    if upto == 0 {
        0
    } else {
        let j = upto - 1;
        rest_rank(s, n, sum, morning, i, (upto - 1) as nat) + if !is_reserved(s, n, sum, morning, j)
            && precedes_rest(s, n, sum, j, i) {
            1nat
        } else {
            0nat
        }
    }
}

/// Whether unit `i` is chosen to be on, before the hard limit.
pub open spec fn is_selected(
    s: Seq<PriceChangeUnit>,
    n: int,
    sum: int,
    morning: int,
    rest: int,
    i: int,
) -> bool {
    is_reserved(s, n, sum, morning, i) || rest_rank(s, n, sum, morning, i, s.len()) < rest
}

/// Whether a unit's total price exceeds the hard limit.
pub open spec fn over_limit(e: PriceChangeUnit, limit: int) -> bool {
    match e.price {
        Some(c) => total_of(c) > limit,
        None => false,
    }
}

impl SmartStrategy {
    /// Morning hours to reserve: `morning_hours`, at most 7.
    pub open spec fn morning_spec(&self) -> int {
        if self.morning_hours > 7 {
            7
        } else {
            self.morning_hours as int
        }
    }

    /// Hours left to the second round: the budget less the morning hours, or
    /// none where the budget is smaller.
    pub open spec fn rest_spec(&self) -> int {
        if self.hour_budget as int >= self.morning_spec() {
            self.hour_budget - self.morning_spec()
        } else {
            0
        }
    }

    /// The state the strategy gives unit `i` of `s`.
    pub open spec fn state_of(&self, s: Seq<PriceChangeUnit>, i: int) -> PowerState {
        let (n, sum) = (priced_count(s) as int, priced_sum(s));
        if is_selected(s, n, sum, self.morning_spec(), self.rest_spec(), i) && !over_limit(
            s[i],
            self.hard_limit_mwh as int,
        ) {
            PowerState::On
        } else {
            PowerState::Off
        }
    }

    /// The units of `s` with the states the strategy gives them, in input order.
    pub open spec fn marked(&self, s: Seq<PriceChangeUnit>) -> Seq<PriceChangeUnit> {
        Seq::new(s.len(), |i: int| PriceChangeUnit { state: self.state_of(s, i), ..s[i] })
    }
}


/// A bound on a sum of total prices: each lies within 2^32 of zero.
pub const TOTAL_BOUND: i128 = 4_294_967_296;

proof fn lemma_priced_bounds(s: Seq<PriceChangeUnit>)
    ensures
        priced_count(s) <= s.len(),
        -(s.len() * TOTAL_BOUND) <= priced_sum(s) <= s.len() * TOTAL_BOUND,
    decreases s.len(),
{
    if s.len() > 0 {
        lemma_priced_bounds(s.drop_last());
    }
}

proof fn lemma_take_last(s: Seq<PriceChangeUnit>, i: int)
    requires
        0 <= i < s.len(),
    ensures
        s.take(i + 1).drop_last() == s.take(i),
        s.take(i + 1).last() == s[i],
{
    assert(s.take(i + 1).drop_last() =~= s.take(i));
}

/// The number of units that carry a price, and the sum of their total
/// prices: their average is the sum over the number.
pub fn average_price(changes: &Vec<PriceChangeUnit>) -> (r: (usize, i128))
    ensures
        r.0 == priced_count(changes@),
        r.1 == priced_sum(changes@),
{
    let mut count: usize = 0;
    let mut sum: i128 = 0;
    let mut i: usize = 0;
    while i < changes.len()
        invariant
            0 <= i <= changes.len(),
            count == priced_count(changes@.take(i as int)),
            sum == priced_sum(changes@.take(i as int)),
        decreases changes.len() - i,
    {
        proof {
            lemma_take_last(changes@, i as int);
            lemma_priced_bounds(changes@.take(i as int));
            assert(i * TOTAL_BOUND <= usize::MAX * TOTAL_BOUND) by (nonlinear_arith)
                requires
                    i <= usize::MAX,
            ;
        }
        match changes[i].price {
            Some(c) => {
                count += 1;
                sum = sum + c.total() as i128;
            },
            None => {},
        }
        i += 1;
    }
    assert(changes@.take(changes.len() as int) =~= changes@);
    (count, sum)
}

fn copy_units(changes: &Vec<PriceChangeUnit>) -> (r: Vec<PriceChangeUnit>)
    ensures
        r@ == changes@,
{
    let mut out: Vec<PriceChangeUnit> = Vec::new();
    let mut i: usize = 0;
    while i < changes.len()
        invariant
            0 <= i <= changes.len(),
            out@ == changes@.take(i as int),
        decreases changes.len() - i,
    {
        out.push(changes[i]);
        i += 1;
        assert(out@ =~= changes@.take(i as int));
    }
    assert(changes@.take(changes.len() as int) =~= changes@);
    out
}

/// The scaled ranking keys and the morning flags of the units.
fn keys_and_mornings(changes: &Vec<PriceChangeUnit>, n: usize, sum: i128) -> (r: (
    Vec<i128>,
    Vec<bool>,
))
    requires
        n == priced_count(changes@),
        sum == priced_sum(changes@),
    ensures
        r.0.len() == changes.len(),
        r.1.len() == changes.len(),
        forall|i: int|
            0 <= i < changes.len() ==> #[trigger] r.0@[i] == scaled_key(changes@[i], n as int, sum as int),
        forall|i: int| 0 <= i < changes.len() ==> #[trigger] r.1@[i] == is_morning(changes@[i]),
{
    let mut keys: Vec<i128> = Vec::new();
    let mut mornings: Vec<bool> = Vec::new();
    let mut i: usize = 0;
    while i < changes.len()
        invariant
            0 <= i <= changes.len(),
            n == priced_count(changes@),
            sum == priced_sum(changes@),
            keys.len() == i,
            mornings.len() == i,
            forall|k: int|
                0 <= k < i ==> #[trigger] keys@[k] == scaled_key(changes@[k], n as int, sum as int),
            forall|k: int| 0 <= k < i ==> #[trigger] mornings@[k] == is_morning(changes@[k]),
        decreases changes.len() - i,
    {
        let e = changes[i];
        let key: i128 = match e.price {
            Some(c) => {
                proof {
                    assert(n as int * TOTAL_BOUND <= usize::MAX * TOTAL_BOUND) by (nonlinear_arith)
                        requires
                            n <= usize::MAX,
                    ;
                    let t = total_of(c);
                    assert(-TOTAL_BOUND <= t <= TOTAL_BOUND);
                    assert(-(TOTAL_BOUND * n) <= t * n <= TOTAL_BOUND * n) by (nonlinear_arith)
                        requires
                            -TOTAL_BOUND <= t <= TOTAL_BOUND,
                            0 <= n,
                    ;
                }
                (c.total() as i128) * (n as i128)
            },
            None => sum,
        };
        keys.push(key);
        mornings.push(e.moment.local_at(LOCAL_TZ).hour < MORNING_END_HOUR);
        i += 1;
    }
    (keys, mornings)
}

impl SmartStrategy {
    fn morning_count(&self) -> (r: usize)
        ensures
            r == self.morning_spec(),
    {
        if self.morning_hours > 7 {
            7
        } else {
            self.morning_hours as usize
        }
    }

    fn rest_count(&self) -> (r: usize)
        ensures
            r == self.rest_spec(),
    {
        let m = self.morning_count();
        if self.hour_budget as usize >= m {
            self.hour_budget as usize - m
        } else {
            0
        }
    }

    /// The units of `changes` with the states the strategy gives them.
    fn mark(&self, changes: &Vec<PriceChangeUnit>, n: usize, sum: i128) -> (r: Vec<PriceChangeUnit>)
        requires
            n == priced_count(changes@),
            sum == priced_sum(changes@),
        ensures
            r@ == self.marked(changes@),
    {
        let ghost s = changes@;
        let (keys, mornings) = keys_and_mornings(changes, n, sum);
        let morning = self.morning_count();
        let rest = self.rest_count();
        let len = changes.len();
        // the morning units that are reserved
        let mut reserved: Vec<bool> = Vec::new();
        let mut i: usize = 0;
        while i < len
            invariant
                0 <= i <= len,
                len == s.len(),
                s == changes@,
                keys.len() == len,
                mornings.len() == len,
                forall|k: int| 0 <= k < len ==> #[trigger] keys@[k] == scaled_key(s[k], n as int, sum as int),
                forall|k: int| 0 <= k < len ==> #[trigger] mornings@[k] == is_morning(s[k]),
                morning == self.morning_spec(),
                reserved.len() == i,
                forall|k: int|
                    0 <= k < i ==> #[trigger] reserved@[k] == is_reserved(
                        s,
                        n as int,
                        sum as int,
                        morning as int,
                        k,
                    ),
            decreases len - i,
        {
            let mut is_res = false;
            if mornings[i] {
                let mut rank: usize = 0;
                let mut j: usize = 0;
                while j < len
                    invariant
                        0 <= j <= len,
                        0 <= i < len,
                        len == s.len(),
                        keys.len() == len,
                        mornings.len() == len,
                        forall|k: int|
                            0 <= k < len ==> #[trigger] keys@[k] == scaled_key(s[k], n as int, sum as int),
                        forall|k: int| 0 <= k < len ==> #[trigger] mornings@[k] == is_morning(s[k]),
                        rank == morning_rank(s, n as int, sum as int, i as int, j as nat),
                        rank <= j,
                    decreases len - j,
                {
                    if mornings[j] && (keys[j] < keys[i] || (keys[j] == keys[i] && j < i)) {
                        rank += 1;
                    }
                    j += 1;
                }
                is_res = rank < morning;
            }
            reserved.push(is_res);
            i += 1;
        }
        // the states
        let mut out: Vec<PriceChangeUnit> = Vec::new();
        let mut i: usize = 0;
        while i < len
            invariant
                0 <= i <= len,
                len == s.len(),
                s == changes@,
                keys.len() == len,
                mornings.len() == len,
                reserved.len() == len,
                forall|k: int| 0 <= k < len ==> #[trigger] keys@[k] == scaled_key(s[k], n as int, sum as int),
                forall|k: int| 0 <= k < len ==> #[trigger] mornings@[k] == is_morning(s[k]),
                n == priced_count(s),
                sum == priced_sum(s),
                morning == self.morning_spec(),
                rest == self.rest_spec(),
                forall|k: int|
                    0 <= k < len ==> #[trigger] reserved@[k] == is_reserved(
                        s,
                        n as int,
                        sum as int,
                        morning as int,
                        k,
                    ),
                out.len() == i,
                forall|k: int| 0 <= k < i ==> #[trigger] out@[k] == self.marked(s)[k],
            decreases len - i,
        {
            let mut selected = reserved[i];
            if !selected {
                let mut rank: usize = 0;
                let mut j: usize = 0;
                while j < len
                    invariant
                        0 <= j <= len,
                        0 <= i < len,
                        len == s.len(),
                        keys.len() == len,
                        mornings.len() == len,
                        reserved.len() == len,
                        forall|k: int|
                            0 <= k < len ==> #[trigger] keys@[k] == scaled_key(s[k], n as int, sum as int),
                        forall|k: int| 0 <= k < len ==> #[trigger] mornings@[k] == is_morning(s[k]),
                        forall|k: int|
                            0 <= k < len ==> #[trigger] reserved@[k] == is_reserved(
                                s,
                                n as int,
                                sum as int,
                                morning as int,
                                k,
                            ),
                        rank == rest_rank(s, n as int, sum as int, morning as int, i as int, j as nat),
                        rank <= j,
                    decreases len - j,
                {
                    let (kj, ki) = (keys[j], keys[i]);
                    if !reserved[j] && (kj < ki || (kj == ki && mornings[j] && !mornings[i]) || (kj
                        == ki && mornings[j] == mornings[i] && j < i)) {
                        rank += 1;
                    }
                    j += 1;
                }
                selected = rank < rest;
            }
            let e = changes[i];
            let over = match e.price {
                Some(c) => c.total() > self.hard_limit_mwh,
                None => false,
            };
            let state = if selected && !over {
                PowerState::On
            } else {
                PowerState::Off
            };
            out.push(e.clone_with_power_state(state));
            i += 1;
        }
        assert(out@ =~= self.marked(s));
        out
    }
}

/// The hard limit only switches off hours that exceed it: the hours on under a
/// limit are exactly the hours on under a limit that no hour exceeds, less
/// those that exceed it, so no other hour takes the place of one switched off.
pub proof fn lemma_hard_limit_never_backfills(
    limited: SmartStrategy,
    unlimited: SmartStrategy,
    s: Seq<PriceChangeUnit>,
    i: int,
)
    requires
        limited.hour_budget == unlimited.hour_budget,
        limited.morning_hours == unlimited.morning_hours,
        forall|k: int| 0 <= k < s.len() ==> !over_limit(#[trigger] s[k], unlimited.hard_limit_mwh as int),
        0 <= i < s.len(),
    ensures
        limited.state_of(s, i) == PowerState::On <==> (unlimited.state_of(s, i) == PowerState::On
            && !over_limit(s[i], limited.hard_limit_mwh as int)),
{
}

proof fn lemma_rest_rank_monotone(
    s: Seq<PriceChangeUnit>,
    n: int,
    sum: int,
    morning: int,
    x: int,
    y: int,
    upto: nat,
)
    requires
        0 <= x < s.len(),
        0 <= y < s.len(),
        upto <= s.len(),
        precedes_rest(s, n, sum, y, x),
    ensures
        rest_rank(s, n, sum, morning, x, upto) >= rest_rank(s, n, sum, morning, y, upto) + if y < upto
            && !is_reserved(s, n, sum, morning, y) {
            1int
        } else {
            0int
        },
    decreases upto,
{
    if upto > 0 {
        lemma_rest_rank_monotone(s, n, sum, morning, x, y, (upto - 1) as nat);
    }
}

/// The second round picks the cheapest hours: an unreserved hour that is
/// selected ranks no dearer than an unreserved hour that is not. Keys are the
/// total prices, or the average for an hour without a price, scaled by the
/// number of priced hours.
pub proof fn lemma_cheapest_hours_chosen(st: SmartStrategy, s: Seq<PriceChangeUnit>, x: int, y: int)
    requires
        0 <= x < s.len(),
        0 <= y < s.len(),
        ({
            let (n, sum) = (priced_count(s) as int, priced_sum(s));
            &&& !is_reserved(s, n, sum, st.morning_spec(), x)
            &&& !is_reserved(s, n, sum, st.morning_spec(), y)
            &&& is_selected(s, n, sum, st.morning_spec(), st.rest_spec(), x)
            &&& !is_selected(s, n, sum, st.morning_spec(), st.rest_spec(), y)
        }),
    ensures
        scaled_key(s[x], priced_count(s) as int, priced_sum(s)) <= scaled_key(
            s[y],
            priced_count(s) as int,
            priced_sum(s),
        ),
{
    let (n, sum) = (priced_count(s) as int, priced_sum(s));
    if scaled_key(s[y], n, sum) < scaled_key(s[x], n, sum) {
        lemma_rest_rank_monotone(s, n, sum, st.morning_spec(), x, y, s.len());
    }
}

/// With no morning hours reserved, every hour on is no dearer than any hour
/// off that does not exceed the hard limit.
pub proof fn lemma_on_hours_are_cheapest(st: SmartStrategy, s: Seq<PriceChangeUnit>, x: int, y: int)
    requires
        st.morning_hours == 0,
        0 <= x < s.len(),
        0 <= y < s.len(),
        st.state_of(s, x) == PowerState::On,
        st.state_of(s, y) == PowerState::Off,
        !over_limit(s[y], st.hard_limit_mwh as int),
    ensures
        scaled_key(s[x], priced_count(s) as int, priced_sum(s)) <= scaled_key(
            s[y],
            priced_count(s) as int,
            priced_sum(s),
        ),
{
    lemma_cheapest_hours_chosen(st, s, x, y);
}

/// In the plan as returned, with no morning hours reserved: every hour on is
/// no dearer than any hour off that does not exceed the hard limit.
pub proof fn lemma_plan_on_hours_are_cheapest(st: SmartStrategy, input: Seq<PriceChangeUnit>, a: int, b: int)
    requires
        st.morning_hours == 0,
        0 <= a < input.len(),
        0 <= b < input.len(),
        stable_sorted(st.marked(input))[a].state == PowerState::On,
        stable_sorted(st.marked(input))[b].state == PowerState::Off,
        !over_limit(stable_sorted(st.marked(input))[b], st.hard_limit_mwh as int),
    ensures
        scaled_key(stable_sorted(st.marked(input))[a], priced_count(input) as int, priced_sum(input))
            <= scaled_key(
            stable_sorted(st.marked(input))[b],
            priced_count(input) as int,
            priced_sum(input),
        ),
{
    let m = st.marked(input);
    let out = stable_sorted(m);
    lemma_stable_sorted_from(m);
    assert(m.contains(out[a]));
    assert(m.contains(out[b]));
    let i = choose|i: int| 0 <= i < m.len() && m[i] == out[a];
    let j = choose|j: int| 0 <= j < m.len() && m[j] == out[b];
    lemma_on_hours_are_cheapest(st, input, i, j);
}

/// Whether `x` is `y` with at most its state changed, on only where `y` is on
/// and does not exceed `limit`.
pub open spec fn limited_twin(x: PriceChangeUnit, y: PriceChangeUnit, limit: int) -> bool {
    &&& x.moment == y.moment
    &&& x.price == y.price
    &&& (x.state == PowerState::On <==> (y.state == PowerState::On && !over_limit(y, limit)))
}

pub open spec fn twins(a: Seq<PriceChangeUnit>, b: Seq<PriceChangeUnit>, limit: int) -> bool {
    a.len() == b.len() && forall|i: int| 0 <= i < a.len() ==> #[trigger] limited_twin(a[i], b[i], limit)
}

proof fn lemma_twins_insert(a: Seq<PriceChangeUnit>, b: Seq<PriceChangeUnit>, x: PriceChangeUnit, y: PriceChangeUnit, limit: int)
    requires
        twins(a, b, limit),
        limited_twin(x, y, limit),
    ensures
        twins(stable_insert(a, x), stable_insert(b, y), limit),
    decreases a.len(),
{
    if a.len() > 0 {
        assert(limited_twin(a[a.len() - 1], b[b.len() - 1], limit));
        if a.last().at() > x.at() {
            let (pa, pb) = (a.drop_last(), b.drop_last());
            assert forall|i: int| 0 <= i < pa.len() implies #[trigger] limited_twin(pa[i], pb[i], limit) by {
                assert(limited_twin(a[i], b[i], limit));
            }
            lemma_twins_insert(pa, pb, x, y, limit);
            let (ia, ib) = (stable_insert(pa, x), stable_insert(pb, y));
            assert forall|i: int| 0 <= i < ia.len() + 1 implies #[trigger] limited_twin(
                ia.push(a.last())[i],
                ib.push(b.last())[i],
                limit,
            ) by {
                if i < ia.len() {
                    assert(limited_twin(ia[i], ib[i], limit));
                }
            }
        } else {
            assert forall|i: int| 0 <= i < a.len() + 1 implies #[trigger] limited_twin(
                a.push(x)[i],
                b.push(y)[i],
                limit,
            ) by {
                if i < a.len() {
                    assert(limited_twin(a[i], b[i], limit));
                }
            }
        }
    } else {
        assert(limited_twin(seq![x][0], seq![y][0], limit));
    }
}

proof fn lemma_twins_sorted(a: Seq<PriceChangeUnit>, b: Seq<PriceChangeUnit>, limit: int)
    requires
        twins(a, b, limit),
    ensures
        twins(stable_sorted(a), stable_sorted(b), limit),
    decreases a.len(),
{
    if a.len() > 0 {
        let (pa, pb) = (a.drop_last(), b.drop_last());
        assert forall|i: int| 0 <= i < pa.len() implies #[trigger] limited_twin(pa[i], pb[i], limit) by {
            assert(limited_twin(a[i], b[i], limit));
        }
        lemma_twins_sorted(pa, pb, limit);
        assert(limited_twin(a[a.len() - 1], b[b.len() - 1], limit));
        lemma_twins_insert(stable_sorted(pa), stable_sorted(pb), a.last(), b.last(), limit);
    }
}

/// The hard limit only switches off, in the plan as returned: position by
/// position, the plan under a limit is the plan without one, with the hours
/// that exceed the limit switched off, and no other hour switched on.
pub proof fn lemma_hard_limit_never_backfills_in_plan(
    limited: SmartStrategy,
    unlimited: SmartStrategy,
    input: Seq<PriceChangeUnit>,
)
    requires
        limited.hour_budget == unlimited.hour_budget,
        limited.morning_hours == unlimited.morning_hours,
        forall|k: int|
            0 <= k < input.len() ==> !over_limit(#[trigger] input[k], unlimited.hard_limit_mwh as int),
    ensures
        twins(
            stable_sorted(limited.marked(input)),
            stable_sorted(unlimited.marked(input)),
            limited.hard_limit_mwh as int,
        ),
{
    let (a, b) = (limited.marked(input), unlimited.marked(input));
    assert forall|i: int| 0 <= i < a.len() implies #[trigger] limited_twin(
        a[i],
        b[i],
        limited.hard_limit_mwh as int,
    ) by {
        lemma_hard_limit_never_backfills(limited, unlimited, input, i);
    }
    lemma_twins_sorted(a, b, limited.hard_limit_mwh as int);
}

impl MaskablePowerStrategy for SmartStrategy {
    /// With fewer than 20 priced units the plan stays as it is; otherwise every
    /// unit gets the state the strategy gives it, ascending by instant, units
    /// at the same instant in input order.
    open spec fn masks_to(&self, input: Seq<PriceChangeUnit>, output: Seq<PriceChangeUnit>) -> bool {
        if priced_count(input) < MIN_PRICED_HOURS {
            output == input
        } else {
            output == stable_sorted(self.marked(input))
        }
    }

    fn plan_day_masked(&self, changes: &Vec<PriceChangeUnit>) -> (r: Vec<PriceChangeUnit>) {
        let (count, sum) = average_price(changes);
        if count < MIN_PRICED_HOURS {
            return copy_units(changes);
        }
        let marked = self.mark(changes, count, sum);
        sort_by_time(&marked)
    }
}

} // verus!

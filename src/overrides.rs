//! Overrides: states forced for a weekday and local hour by the
//! configuration, whatever the strategies planned.

use crate::config_file::{ConfigFile, Day};
use crate::strategy::{PowerState, PriceChangeUnit};
use crate::time::{LocalTime, Weekday, Zone};
use vstd::prelude::*;

verus! {

/// A state forced at a local hour of a weekday.
#[derive(Clone, Copy, Debug, PartialEq, Eq, Structural)]
pub struct Oride {
    pub day: Weekday,
    pub hour: u32,
    pub state: PowerState,
}

/// The overrides of a list of hours.
pub open spec fn orides_of(hours: Option<Vec<u8>>, weekday: Weekday, state: PowerState) -> Seq<Oride> {
    match hours {
        Some(v) => v@.map_values(|h: u8| Oride { day: weekday, hour: h as u32, state }),
        None => seq![],
    }
}

/// The overrides of one day: its hours always on, then its hours always off.
pub open spec fn day_orides(day: &Day, weekday: Weekday) -> Seq<Oride> {
    orides_of(day.hours_always_on, weekday, PowerState::On) + orides_of(
        day.hours_always_off,
        weekday,
        PowerState::Off,
    )
}

/// The overrides of a configuration, Monday first.
pub open spec fn config_orides(config: &ConfigFile) -> Seq<Oride> {
    day_orides(&config.monday, Weekday::Mon) + day_orides(&config.tuesday, Weekday::Tue)
        + day_orides(&config.wednesday, Weekday::Wed) + day_orides(&config.thursday, Weekday::Thu)
        + day_orides(&config.friday, Weekday::Fri) + day_orides(&config.saturday, Weekday::Sat)
        + day_orides(&config.sunday, Weekday::Sun)
}

/// The state of the first of the first `n` overrides that names the weekday
/// and hour of `l`.
pub open spec fn first_oride(s: Seq<Oride>, l: LocalTime, n: nat) -> Option<PowerState>
    decreases n,
{
    if n == 0 {
        None
    } else {
        match first_oride(s, l, (n - 1) as nat) {
            Some(x) => Some(x),
            None => if s[n - 1].day == l.weekday_spec() && s[n - 1].hour == l.hour {
                Some(s[n - 1].state)
            } else {
                None
            },
        }
    }
}

/// The state the overrides force at local reading `l`, if any.
pub open spec fn oride_at(config: &ConfigFile, l: LocalTime) -> Option<PowerState> {
    let s = config_orides(config);
    first_oride(s, l, s.len())
}

/// A unit after the overrides, read in `zone`.
pub open spec fn overridden(e: PriceChangeUnit, config: &ConfigFile, zone: Zone) -> PriceChangeUnit {
    match oride_at(config, e.moment.local_in(zone)) {
        Some(x) => PriceChangeUnit { state: x, ..e },
        None => e,
    }
}

/// An override decides the state of its hour, whatever was planned before.
pub proof fn lemma_override_wins(e: PriceChangeUnit, config: &ConfigFile, zone: Zone, state: PowerState)
    requires
        oride_at(config, e.moment.local_in(zone)) == Some(state),
    ensures
        overridden(e, config, zone).state == state,
        overridden(e, config, zone).moment == e.moment,
        overridden(e, config, zone).price == e.price,
{
}

/// Whether override `o` names the weekday and hour of `l`.
pub open spec fn names(o: Oride, l: LocalTime) -> bool {
    o.day == l.weekday_spec() && o.hour == l.hour
}

proof fn lemma_first_oride_uniform(s: Seq<Oride>, l: LocalTime, st: PowerState, n: nat)
    requires
        n <= s.len(),
        forall|i: int| 0 <= i < n ==> (#[trigger] s[i]).state == st,
    ensures
        first_oride(s, l, n) == if exists|i: int| 0 <= i < n && names(#[trigger] s[i], l) {
            Some(st)
        } else {
            None::<PowerState>
        },
    decreases n,
{
    if n > 0 {
        lemma_first_oride_uniform(s, l, st, (n - 1) as nat);
        if exists|i: int| 0 <= i < n - 1 && names(#[trigger] s[i], l) {
            let i = choose|i: int| 0 <= i < n - 1 && names(#[trigger] s[i], l);
            assert(0 <= i < n && names(s[i], l));
        }
        if names(s[n - 1], l) {
            assert(0 <= n - 1 < n && names(s[n - 1], l));
        }
    }
}

proof fn lemma_first_oride_prefix(a: Seq<Oride>, b: Seq<Oride>, l: LocalTime, n: nat)
    requires
        n <= a.len(),
    ensures
        first_oride(a + b, l, n) == first_oride(a, l, n),
    decreases n,
{
    if n > 0 {
        lemma_first_oride_prefix(a, b, l, (n - 1) as nat);
        assert((a + b)[n - 1] == a[n - 1]);
    }
}

proof fn lemma_first_oride_append(a: Seq<Oride>, b: Seq<Oride>, l: LocalTime, n: nat)
    requires
        a.len() <= n <= a.len() + b.len(),
    ensures
        first_oride(a + b, l, n) == match first_oride(a, l, a.len()) {
            Some(x) => Some(x),
            None => first_oride(b, l, (n - a.len()) as nat),
        },
    decreases n,
{
    if n == a.len() {
        lemma_first_oride_prefix(a, b, l, n);
    } else {
        lemma_first_oride_append(a, b, l, (n - 1) as nat);
        assert((a + b)[n - 1] == b[n - 1 - a.len()]);
    }
}

/// Whether the list holds an hour that reads as `hour`.
pub open spec fn lists_reading(hours: Option<Vec<u8>>, hour: u32) -> bool {
    match hours {
        Some(v) => exists|i: int| 0 <= i < v.len() && #[trigger] v@[i] as u32 == hour,
        None => false,
    }
}

proof fn lemma_orides_of(hours: Option<Vec<u8>>, weekday: Weekday, state: PowerState, l: LocalTime)
    ensures
        ({
            let s = orides_of(hours, weekday, state);
            first_oride(s, l, s.len()) == if weekday == l.weekday_spec() && lists_reading(hours, l.hour) {
                Some(state)
            } else {
                None::<PowerState>
            }
        }),
{
    let s = orides_of(hours, weekday, state);
    lemma_first_oride_uniform(s, l, state, s.len());
    if let Some(v) = hours {
        if exists|i: int| 0 <= i < s.len() && names(#[trigger] s[i], l) {
            let i = choose|i: int| 0 <= i < s.len() && names(#[trigger] s[i], l);
            assert(v@[i] as u32 == l.hour);
        }
        if weekday == l.weekday_spec() && lists_reading(hours, l.hour) {
            let i = choose|i: int| 0 <= i < v.len() && #[trigger] v@[i] as u32 == l.hour;
            assert(names(s[i], l));
        }
    }
}

proof fn lemma_day_orides(day: &Day, weekday: Weekday, l: LocalTime)
    ensures
        ({
            let s = day_orides(day, weekday);
            first_oride(s, l, s.len()) == if weekday != l.weekday_spec() {
                None::<PowerState>
            } else if lists_reading(day.hours_always_on, l.hour) {
                Some(PowerState::On)
            } else if lists_reading(day.hours_always_off, l.hour) {
                Some(PowerState::Off)
            } else {
                None
            }
        }),
{
    let a = orides_of(day.hours_always_on, weekday, PowerState::On);
    let b = orides_of(day.hours_always_off, weekday, PowerState::Off);
    lemma_orides_of(day.hours_always_on, weekday, PowerState::On, l);
    lemma_orides_of(day.hours_always_off, weekday, PowerState::Off, l);
    lemma_first_oride_append(a, b, l, a.len() + b.len());
}

proof fn lemma_first_oride_join(a: Seq<Oride>, b: Seq<Oride>, l: LocalTime)
    ensures
        first_oride(a + b, l, (a + b).len()) == match first_oride(a, l, a.len()) {
            Some(x) => Some(x),
            None => first_oride(b, l, b.len()),
        },
{
    lemma_first_oride_append(a, b, l, a.len() + b.len());
}

/// The overrides of a unit's own weekday decide its state: on where the day
/// lists its local hour as always on, else off where it lists it as always
/// off, else the unit stays as it is; whatever was planned before.
pub proof fn lemma_configured_override_wins(config: &ConfigFile, e: PriceChangeUnit, zone: Zone)
    ensures
        ({
            let l = e.moment.local_in(zone);
            let day = config.day_spec(l.weekday_spec());
            &&& lists_reading(day.hours_always_on, l.hour) ==> overridden(e, config, zone).state
                == PowerState::On
            &&& !lists_reading(day.hours_always_on, l.hour) && lists_reading(
                day.hours_always_off,
                l.hour,
            ) ==> overridden(e, config, zone).state == PowerState::Off
            &&& !lists_reading(day.hours_always_on, l.hour) && !lists_reading(
                day.hours_always_off,
                l.hour,
            ) ==> overridden(e, config, zone) == e
        }),
{
    let l = e.moment.local_in(zone);
    let d1 = day_orides(&config.monday, Weekday::Mon);
    let d2 = day_orides(&config.tuesday, Weekday::Tue);
    let d3 = day_orides(&config.wednesday, Weekday::Wed);
    let d4 = day_orides(&config.thursday, Weekday::Thu);
    let d5 = day_orides(&config.friday, Weekday::Fri);
    let d6 = day_orides(&config.saturday, Weekday::Sat);
    let d7 = day_orides(&config.sunday, Weekday::Sun);
    lemma_day_orides(&config.monday, Weekday::Mon, l);
    lemma_day_orides(&config.tuesday, Weekday::Tue, l);
    lemma_day_orides(&config.wednesday, Weekday::Wed, l);
    lemma_day_orides(&config.thursday, Weekday::Thu, l);
    lemma_day_orides(&config.friday, Weekday::Fri, l);
    lemma_day_orides(&config.saturday, Weekday::Sat, l);
    lemma_day_orides(&config.sunday, Weekday::Sun, l);
    lemma_first_oride_join(d1, d2, l);
    lemma_first_oride_join(d1 + d2, d3, l);
    lemma_first_oride_join(d1 + d2 + d3, d4, l);
    lemma_first_oride_join(d1 + d2 + d3 + d4, d5, l);
    lemma_first_oride_join(d1 + d2 + d3 + d4 + d5, d6, l);
    lemma_first_oride_join(d1 + d2 + d3 + d4 + d5 + d6, d7, l);
}

fn push_hours(vec: &mut Vec<Oride>, hours: &Option<Vec<u8>>, weekday: Weekday, state: PowerState)
    ensures
        final(vec)@ == old(vec)@ + orides_of(*hours, weekday, state),
{
    if let Some(list) = hours {
        let ghost start = vec@;
        let mut i: usize = 0;
        while i < list.len()
            invariant
                0 <= i <= list.len(),
                vec@ == start + list@.take(i as int).map_values(
                    |h: u8| Oride { day: weekday, hour: h as u32, state },
                ),
            decreases list.len() - i,
        {
            vec.push(Oride { day: weekday, hour: list[i] as u32, state });
            i += 1;
            assert(vec@ =~= start + list@.take(i as int).map_values(
                |h: u8| Oride { day: weekday, hour: h as u32, state },
            ));
        }
        assert(list@.take(list.len() as int) =~= list@);
    } else {
        assert(vec@ =~= old(vec)@ + orides_of(*hours, weekday, state));
    }
}

fn append_day(vec: &mut Vec<Oride>, day: &Day, weekday: Weekday)
    ensures
        final(vec)@ == old(vec)@ + day_orides(day, weekday),
{
    push_hours(vec, &day.hours_always_on, weekday, PowerState::On);
    push_hours(vec, &day.hours_always_off, weekday, PowerState::Off);
    assert(vec@ =~= old(vec)@ + day_orides(day, weekday));
}

fn get_overrides_from_config(config: &ConfigFile) -> (r: Vec<Oride>)
    ensures
        r@ == config_orides(config),
{
    let mut vec: Vec<Oride> = Vec::new();
    append_day(&mut vec, &config.monday, Weekday::Mon);
    append_day(&mut vec, &config.tuesday, Weekday::Tue);
    append_day(&mut vec, &config.wednesday, Weekday::Wed);
    append_day(&mut vec, &config.thursday, Weekday::Thu);
    append_day(&mut vec, &config.friday, Weekday::Fri);
    append_day(&mut vec, &config.saturday, Weekday::Sat);
    append_day(&mut vec, &config.sunday, Weekday::Sun);
    assert(vec@ =~= config_orides(config));
    vec
}

fn find_oride(orides: &Vec<Oride>, l: &LocalTime) -> (r: Option<PowerState>)
    requires
        l.weekday < 7,
    ensures
        r == first_oride(orides@, *l, orides@.len()),
{
    let day = l.weekday();
    let mut i: usize = 0;
    while i < orides.len()
        invariant
            0 <= i <= orides.len(),
            day == l.weekday_spec(),
            first_oride(orides@, *l, i as nat) is None,
        decreases orides.len() - i,
    {
        if orides[i].day == day && orides[i].hour == l.hour {
            proof {
                assert(first_oride(orides@, *l, (i + 1) as nat) == Some(orides@[i as int].state));
                lemma_first_oride_stays(orides@, *l, (i + 1) as nat, orides@.len());
            }
            return Some(orides[i].state);
        }
        i += 1;
    }
    None
}

proof fn lemma_first_oride_stays(s: Seq<Oride>, l: LocalTime, n: nat, m: nat)
    requires
        n <= m <= s.len(),
        first_oride(s, l, n) is Some,
    ensures
        first_oride(s, l, m) == first_oride(s, l, n),
    decreases m - n,
{
    if m > n {
        lemma_first_oride_stays(s, l, n, (m - 1) as nat);
    }
}

/// Forces on every unit the state of the first override that names its
/// weekday and local hour in `timezone`; other units stay as they are.
pub fn apply_overrides(vec: &mut Vec<PriceChangeUnit>, config: &ConfigFile, timezone: Zone)
    ensures
        final(vec).len() == old(vec).len(),
        forall|i: int|
            0 <= i < old(vec).len() ==> #[trigger] final(vec)@[i] == overridden(
                old(vec)@[i],
                config,
                timezone,
            ),
{
    let orides = get_overrides_from_config(config);
    let mut i: usize = 0;
    while i < vec.len()
        invariant
            0 <= i <= vec.len(),
            vec.len() == old(vec).len(),
            orides@ == config_orides(config),
            forall|k: int| 0 <= k < i ==> #[trigger] vec@[k] == overridden(old(vec)@[k], config, timezone),
            forall|k: int| i <= k < vec.len() ==> #[trigger] vec@[k] == old(vec)@[k],
        decreases vec.len() - i,
    {
        let pcu = vec[i];
        let local = pcu.moment.local_at(timezone);
        if let Some(state) = find_oride(&orides, &local) {
            vec.set(i, pcu.clone_with_power_state(state));
        }
        i += 1;
    }
}

} // verus!

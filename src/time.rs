//! Instants, time zones and the local calendar fields of an instant.
//!
//! An instant is held as whole seconds since the Unix epoch together with the
//! zone it is displayed in. What a zone's rules make of an instant is computed
//! by chrono and chrono-tz behind the trusted functions of this module.

use chrono::{Datelike, TimeZone, Timelike};
use vstd::prelude::*;

verus! {

/// Earliest accepted instant: 0001-01-01T00:00:00Z.
pub const MIN_TIMESTAMP: i64 = -62_135_596_800;

/// Latest accepted instant: 9999-12-31T23:59:59Z.
pub const MAX_TIMESTAMP: i64 = 253_402_300_799;

/// Seconds in one hour.
pub const SECONDS_PER_HOUR: i64 = 3600;

pub open spec fn valid_timestamp(t: int) -> bool {
    MIN_TIMESTAMP <= t <= MAX_TIMESTAMP
}

/// The named time zones the planner works with.
#[derive(Clone, Copy, Debug, PartialEq, Eq, Structural)]
pub enum Zone {
    Berlin,
    Tallinn,
}

/// Zone of the market's price timestamps.
pub const MARKET_TZ: Zone = Zone::Berlin;

/// Zone of the tariff calendar and of the overrides.
pub const LOCAL_TZ: Zone = Zone::Tallinn;

/// Zone in which a day is planned hour by hour.
pub const PLANNING_TZ: Zone = MARKET_TZ;

/// A calendar date (proleptic Gregorian).
#[derive(Clone, Copy, Debug, PartialEq, Eq, Structural)]
pub struct CalendarDate {
    pub year: i32,
    pub month: u32,
    pub day: u32,
}

/// Days of the week, Monday first.
#[derive(Clone, Copy, Debug, PartialEq, Eq, Structural)]
pub enum Weekday {
    Mon,
    Tue,
    Wed,
    Thu,
    Fri,
    Sat,
    Sun,
}

/// The weekday numbered from Monday = 0.
pub open spec fn weekday_of_index(i: int) -> Weekday {
    if i == 0 {
        Weekday::Mon
    } else if i == 1 {
        Weekday::Tue
    } else if i == 2 {
        Weekday::Wed
    } else if i == 3 {
        Weekday::Thu
    } else if i == 4 {
        Weekday::Fri
    } else if i == 5 {
        Weekday::Sat
    } else {
        Weekday::Sun
    }
}

/// The local wall-clock reading of an instant in a zone.
#[derive(Clone, Copy, Debug, PartialEq, Eq, Structural)]
pub struct LocalTime {
    pub year: i32,
    pub month: u32,
    pub day: u32,
    pub hour: u32,
    pub minute: u32,
    pub second: u32,
    /// Days since Monday: 0 for Monday, 6 for Sunday.
    pub weekday: u32,
}

impl LocalTime {
    pub open spec fn date_spec(self) -> CalendarDate {
        CalendarDate { year: self.year, month: self.month, day: self.day }
    }

    pub open spec fn weekday_spec(self) -> Weekday {
        weekday_of_index(self.weekday as int)
    }

    /// The calendar date of this reading.
    pub fn date(&self) -> (r: CalendarDate)
        ensures
            r == self.date_spec(),
    {
        CalendarDate { year: self.year, month: self.month, day: self.day }
    }

    /// The day of the week of this reading.
    pub fn weekday(&self) -> (r: Weekday)
        ensures
            r == self.weekday_spec(),
    {
        if self.weekday == 0 {
            Weekday::Mon
        } else if self.weekday == 1 {
            Weekday::Tue
        } else if self.weekday == 2 {
            Weekday::Wed
        } else if self.weekday == 3 {
            Weekday::Thu
        } else if self.weekday == 4 {
            Weekday::Fri
        } else if self.weekday == 5 {
            Weekday::Sat
        } else {
            Weekday::Sun
        }
    }
}

/// What the zone's rules make of a timestamp, on the local wall clock.
pub uninterp spec fn local_time_of(timestamp: int, zone: Zone) -> LocalTime;

/// The unique instant whose local reading in `zone` is the given date and
/// time, if there is exactly one (none in a gap, two in an overlap).
pub uninterp spec fn local_instant_of(
    zone: Zone,
    date: CalendarDate,
    hour: int,
    minute: int,
    second: int,
) -> Option<int>;

/// Relies on chrono's `DateTime::from_timestamp` and `with_timezone` with
/// chrono-tz's zone rules: the local reading of an instant, whose fields chrono
/// keeps in their calendar ranges.
#[verifier::external_body]
fn local_reading(timestamp: i64, zone: Zone) -> (r: LocalTime)
    requires
        valid_timestamp(timestamp as int),
    ensures
        r == local_time_of(timestamp as int, zone),
        1 <= r.month <= 12,
        1 <= r.day <= 31,
        r.hour < 24,
        r.minute < 60,
        r.second < 60,
        r.weekday < 7,
{
    let tz = match zone {
        Zone::Berlin => chrono_tz::Europe::Berlin,
        Zone::Tallinn => chrono_tz::Europe::Tallinn,
    };
    let t = chrono::DateTime::from_timestamp(timestamp, 0).unwrap().with_timezone(&tz);
    let (year, month, day, hour) = (t.year(), t.month(), t.day(), t.hour());
    let weekday = t.weekday().num_days_from_monday();
    LocalTime { year, month, day, hour, minute: t.minute(), second: t.second(), weekday }
}

/// Relies on chrono's `TimeZone::with_ymd_and_hms` and `LocalResult::single`
/// with chrono-tz's zone rules: the instant whose local reading is the given
/// one, when exactly one such instant exists.
#[verifier::external_body]
fn instant_from_local(zone: Zone, date: CalendarDate, hour: u32, minute: u32, second: u32) -> (r:
    Option<i64>)
    ensures
        r matches Some(t) ==> local_instant_of(zone, date, hour as int, minute as int, second as int)
            == Some(t as int),
        r is None ==> local_instant_of(zone, date, hour as int, minute as int, second as int)
            is None,
        r matches Some(t) ==> valid_timestamp(t as int) ==> ({
            let l = local_time_of(t as int, zone);
            l.date_spec() == date && l.hour == hour && l.minute == minute && l.second == second
        }),
{
    let tz = match zone {
        Zone::Berlin => chrono_tz::Europe::Berlin,
        Zone::Tallinn => chrono_tz::Europe::Tallinn,
    };
    let local = tz.with_ymd_and_hms(date.year, date.month, date.day, hour, minute, second);
    local.single().map(|t| t.timestamp())
}

/// The earlier of the instants whose local reading in `zone` is the given
/// date and time, if there is any (none in a gap; the first pass of a
/// repeated hour in an overlap).
pub uninterp spec fn local_instant_earliest_of(
    zone: Zone,
    date: CalendarDate,
    hour: int,
    minute: int,
    second: int,
) -> Option<int>;

/// Relies on chrono's `TimeZone::with_ymd_and_hms` and `LocalResult::earliest`
/// with chrono-tz's zone rules: the earlier instant whose local reading is the
/// given one, when there is one.
#[verifier::external_body]
fn earliest_instant_from_local(zone: Zone, date: CalendarDate, hour: u32, minute: u32, second: u32) -> (r:
    Option<i64>)
    ensures
        r matches Some(t) ==> local_instant_earliest_of(
            zone,
            date,
            hour as int,
            minute as int,
            second as int,
        ) == Some(t as int),
        r is None ==> local_instant_earliest_of(zone, date, hour as int, minute as int, second as int)
            is None,
        r matches Some(t) ==> valid_timestamp(t as int) ==> ({
            let l = local_time_of(t as int, zone);
            l.date_spec() == date && l.hour == hour && l.minute == minute && l.second == second
        }),
{
    let tz = match zone {
        Zone::Berlin => chrono_tz::Europe::Berlin,
        Zone::Tallinn => chrono_tz::Europe::Tallinn,
    };
    let local = tz.with_ymd_and_hms(date.year, date.month, date.day, hour, minute, second);
    local.earliest().map(|t| t.timestamp())
}

/// A point in time, shown in a zone. Two moments are equal when both the
/// instant and the zone agree.
#[derive(Clone, Copy, Debug, PartialEq, Eq, Structural)]
pub struct Moment {
    timestamp: i64,
    zone: Zone,
}

impl Moment {
    #[verifier::type_invariant]
    spec fn inv(&self) -> bool {
        valid_timestamp(self.timestamp as int)
    }

    /// Seconds since the Unix epoch.
    pub closed spec fn ts(self) -> int {
        self.timestamp as int
    }

    /// The zone the moment is shown in.
    pub closed spec fn tz(self) -> Zone {
        self.zone
    }

    /// The moment at timestamp `t` shown in `zone`, for a valid `t`.
    pub closed spec fn at_spec(t: int, zone: Zone) -> Moment {
        Moment { timestamp: t as i64, zone }
    }

    pub proof fn lemma_at_spec(t: int, zone: Zone)
        requires
            valid_timestamp(t),
        ensures
            Moment::at_spec(t, zone).ts() == t,
            Moment::at_spec(t, zone).tz() == zone,
    {
    }

    /// The local reading of the moment in its own zone.
    pub open spec fn local_spec(self) -> LocalTime {
        local_time_of(self.ts(), self.tz())
    }

    /// The local reading of the moment in another zone.
    pub open spec fn local_in(self, zone: Zone) -> LocalTime {
        local_time_of(self.ts(), zone)
    }

    /// The moment at `timestamp` seconds since the epoch, shown in `zone`;
    /// `None` outside the years 1 to 9999.
    pub fn new(timestamp: i64, zone: Zone) -> (r: Option<Moment>)
        ensures
            r is Some <==> valid_timestamp(timestamp as int),
            r matches Some(m) ==> m.ts() == timestamp && m.tz() == zone,
            r matches Some(m) ==> m == Moment::at_spec(timestamp as int, zone),
    {
        if MIN_TIMESTAMP <= timestamp && timestamp <= MAX_TIMESTAMP {
            Some(Moment { timestamp, zone })
        } else {
            None
        }
    }

    pub fn timestamp(&self) -> (r: i64)
        ensures
            r == self.ts(),
            valid_timestamp(r as int),
    {
        proof {
            use_type_invariant(self);
        }
        self.timestamp
    }

    pub fn timezone(&self) -> (r: Zone)
        ensures
            r == self.tz(),
    {
        self.zone
    }

    /// The same instant, shown in `zone`.
    pub fn with_timezone(&self, zone: Zone) -> (r: Moment)
        ensures
            r.ts() == self.ts(),
            r.tz() == zone,
    {
        proof {
            use_type_invariant(self);
        }
        Moment { timestamp: self.timestamp, zone }
    }

    /// The local reading of the moment in its own zone.
    pub fn local(&self) -> (r: LocalTime)
        ensures
            r == self.local_spec(),
            1 <= r.month <= 12,
            1 <= r.day <= 31,
            r.hour < 24,
            r.minute < 60,
        r.second < 60,
            r.weekday < 7,
    {
        proof {
            use_type_invariant(self);
        }
        local_reading(self.timestamp, self.zone)
    }

    /// The local reading of the moment in `zone`.
    pub fn local_at(&self, zone: Zone) -> (r: LocalTime)
        ensures
            r == self.local_in(zone),
            1 <= r.month <= 12,
            1 <= r.day <= 31,
            r.hour < 24,
            r.minute < 60,
        r.second < 60,
            r.weekday < 7,
    {
        proof {
            use_type_invariant(self);
        }
        local_reading(self.timestamp, zone)
    }

    /// The moment `seconds` later; `None` when that leaves the accepted range.
    pub fn add_seconds(&self, seconds: i64) -> (r: Option<Moment>)
        ensures
            r is Some <==> valid_timestamp(self.ts() + seconds),
            r matches Some(m) ==> m.ts() == self.ts() + seconds && m.tz() == self.tz(),
    {
        proof {
            use_type_invariant(self);
        }
        if seconds > MAX_TIMESTAMP - self.timestamp || seconds < MIN_TIMESTAMP - self.timestamp {
            None
        } else {
            Moment::new(self.timestamp + seconds, self.zone)
        }
    }
}

/// The moment in `zone` whose local reading is the given date and time, if
/// exactly one exists and it lies in the accepted range.
pub fn moment_from_local(zone: Zone, date: CalendarDate, hour: u32, minute: u32, second: u32) -> (r:
    Option<Moment>)
    ensures
        r matches Some(m) ==> m.tz() == zone && local_instant_of(
            zone,
            date,
            hour as int,
            minute as int,
            second as int,
        ) == Some(m.ts()),
        r matches Some(m) ==> m.local_spec().date_spec() == date && m.local_spec().hour == hour
            && m.local_spec().minute == minute && m.local_spec().second == second,
        r matches Some(m) ==> m == Moment::at_spec(m.ts(), zone),
        r is None <==> (match local_instant_of(zone, date, hour as int, minute as int, second as int) {
            Some(t) => !valid_timestamp(t),
            None => true,
        }),
{
    match instant_from_local(zone, date, hour, minute, second) {
        Some(t) => Moment::new(t, zone),
        None => None,
    }
}

/// Something that has a time of day.
pub trait AndTime {
    /// Accepts a time of day; the reading it is called on stays as it is.
    fn and_time(hours: u32, minutes: u32, seconds: u32) {
    }
}

impl AndTime for LocalTime {

}

impl AndTime for Moment {

}

/// The earliest moment in `zone` whose local reading is the given date and
/// time, if there is one and it lies in the accepted range.
pub fn earliest_moment_from_local(zone: Zone, date: CalendarDate, hour: u32, minute: u32, second: u32) -> (r:
    Option<Moment>)
    ensures
        r is Some <==> (match local_instant_earliest_of(
            zone,
            date,
            hour as int,
            minute as int,
            second as int,
        ) {
            Some(t) => valid_timestamp(t),
            None => false,
        }),
        r matches Some(m) ==> m.tz() == zone && local_instant_earliest_of(
            zone,
            date,
            hour as int,
            minute as int,
            second as int,
        ) == Some(m.ts()),
        r matches Some(m) ==> m.local_spec().date_spec() == date && m.local_spec().hour == hour
            && m.local_spec().minute == minute && m.local_spec().second == second,
        r matches Some(m) ==> m == Moment::at_spec(m.ts(), zone),
{
    match earliest_instant_from_local(zone, date, hour, minute, second) {
        Some(t) => Moment::new(t, zone),
        None => None,
    }
}

/// Whether `p` maps each position of `r` to a distinct position of `v`
/// holding the same value.
pub open spec fn index_map<T>(p: Seq<int>, r: Seq<T>, v: Seq<T>) -> bool {
    &&& p.len() == r.len()
    &&& forall|k: int| 0 <= k < p.len() ==> 0 <= #[trigger] p[k] < v.len() && r[k] == v[p[k]]
    &&& forall|a: int, b: int| 0 <= a < p.len() && 0 <= b < p.len() && a != b ==> #[trigger] p[a] != #[trigger] p[b]
}

/// A value that stands at an instant.
pub trait Timed: Sized + Copy {
    spec fn at(&self) -> int;

    fn instant(&self) -> (r: i64)
        ensures
            r == self.at(),
            valid_timestamp(r as int),
    ;
}

/// Ascending by instant.
pub open spec fn sorted_by_time<T: Timed>(s: Seq<T>) -> bool {
    forall|i: int, j: int| 0 <= i <= j < s.len() ==> s[i].at() <= s[j].at()
}

/// `s` with `x` placed after every value at or before its instant, where `s`
/// is ascending.
pub open spec fn stable_insert<T: Timed>(s: Seq<T>, x: T) -> Seq<T>
    decreases s.len(),
{
    if s.len() == 0 {
        seq![x]
    } else if s.last().at() > x.at() {
        stable_insert(s.drop_last(), x).push(s.last())
    } else {
        s.push(x)
    }
}

/// The values of `s` ascending by instant, values at the same instant in
/// their order in `s`.
pub open spec fn stable_sorted<T: Timed>(s: Seq<T>) -> Seq<T>
    decreases s.len(),
{
    if s.len() == 0 {
        s
    } else {
        stable_insert(stable_sorted(s.drop_last()), s.last())
    }
}

proof fn lemma_stable_insert_from<T: Timed>(s: Seq<T>, x: T)
    ensures
        stable_insert(s, x).len() == s.len() + 1,
        forall|k: int|
            0 <= k < s.len() + 1 ==> #[trigger] stable_insert(s, x)[k] == x || s.contains(
                stable_insert(s, x)[k],
            ),
    decreases s.len(),
{
    if s.len() > 0 && s.last().at() > x.at() {
        let p = s.drop_last();
        lemma_stable_insert_from(p, x);
        assert forall|k: int| 0 <= k < s.len() + 1 implies #[trigger] stable_insert(s, x)[k] == x
            || s.contains(stable_insert(s, x)[k]) by {
            if k < s.len() {
                let y = stable_insert(p, x)[k];
                if y != x {
                    let j = choose|j: int| 0 <= j < p.len() && p[j] == y;
                    assert(s[j] == y);
                }
            } else {
                assert(s[s.len() - 1] == s.last());
            }
        }
    } else if s.len() > 0 {
        assert forall|k: int| 0 <= k < s.len() + 1 implies #[trigger] stable_insert(s, x)[k] == x
            || s.contains(stable_insert(s, x)[k]) by {
            if k < s.len() {
                assert(s[k] == stable_insert(s, x)[k]);
            }
        }
    }
}

/// Every value of `stable_sorted(s)` is a value of `s`, and there are as many.
pub proof fn lemma_stable_sorted_from<T: Timed>(s: Seq<T>)
    ensures
        stable_sorted(s).len() == s.len(),
        forall|k: int| 0 <= k < s.len() ==> s.contains(#[trigger] stable_sorted(s)[k]),
    decreases s.len(),
{
    if s.len() > 0 {
        let p = s.drop_last();
        lemma_stable_sorted_from(p);
        lemma_stable_insert_from(stable_sorted(p), s.last());
        assert forall|k: int| 0 <= k < s.len() implies s.contains(#[trigger] stable_sorted(s)[k]) by {
            let y = stable_sorted(s)[k];
            if y == s.last() {
                assert(s[s.len() - 1] == y);
            } else {
                let j = choose|j: int| 0 <= j < stable_sorted(p).len() && stable_sorted(p)[j] == y;
                let i = choose|i: int| 0 <= i < p.len() && p[i] == stable_sorted(p)[j];
                assert(s[i] == y);
            }
        }
    }
}

proof fn lemma_stable_insert_at<T: Timed>(s: Seq<T>, x: T, pos: int)
    requires
        0 <= pos <= s.len(),
        forall|k: int| pos <= k < s.len() ==> s[k].at() > x.at(),
        pos == 0 || s[pos - 1].at() <= x.at(),
    ensures
        stable_insert(s, x) == s.insert(pos, x),
    decreases s.len(),
{
    if s.len() == 0 {
        assert(s.insert(pos, x) =~= seq![x]);
    } else if pos == s.len() {
        assert(s.insert(pos, x) =~= s.push(x));
    } else {
        let p = s.drop_last();
        lemma_stable_insert_at(p, x, pos);
        assert(s.insert(pos, x) =~= p.insert(pos, x).push(s.last()));
    }
}

/// The values of `v` in ascending order of instant; values at the same instant
/// keep their order.
pub fn sort_by_time<T: Timed>(v: &Vec<T>) -> (r: Vec<T>)
    ensures
        r@ == stable_sorted(v@),
        sorted_by_time(r@),
        exists|p: Seq<int>| index_map(p, r@, v@),
        r@.to_multiset() == v@.to_multiset(),
        r.len() == v.len(),
{
    broadcast use vstd::seq_lib::group_to_multiset_ensures;

    let mut out: Vec<T> = Vec::new();
    let ghost mut perm: Seq<int> = seq![];
    let mut i: usize = 0;
    while i < v.len()
        invariant
            0 <= i <= v.len(),
            sorted_by_time(out@),
            out@.to_multiset() == v@.take(i as int).to_multiset(),
            out@ == stable_sorted(v@.take(i as int)),
            out.len() == i,
            index_map(perm, out@, v@),
            forall|k: int| 0 <= k < perm.len() ==> #[trigger] perm[k] < i,
        decreases v.len() - i,
    {
        let x = v[i];
        let t = x.instant();
        let mut pos: usize = out.len();
        while pos > 0 && out[pos - 1].instant() > t
            invariant
                0 <= pos <= out.len(),
                sorted_by_time(out@),
                forall|k: int| pos <= k < out.len() ==> out@[k].at() > t,
            decreases pos,
        {
            pos -= 1;
        }
        let ghost before = out@;
        proof {
            lemma_stable_insert_at(before, x, pos as int);
            let tk = v@.take(i as int + 1);
            assert(tk.drop_last() =~= v@.take(i as int));
        }
        out.insert(pos, x);
        proof {
            let old_perm = perm;
            perm = old_perm.insert(pos as int, i as int);
            assert forall|k: int| 0 <= k < perm.len() implies 0 <= #[trigger] perm[k] < v.len()
                && out@[k] == v@[perm[k]] && perm[k] < i + 1 by {
                if k < pos {
                    assert(perm[k] == old_perm[k]);
                } else if k > pos {
                    assert(perm[k] == old_perm[k - 1]);
                }
            }
            assert forall|a: int, b: int|
                0 <= a < perm.len() && 0 <= b < perm.len() && a != b implies #[trigger] perm[a]
                != #[trigger] perm[b] by {
                let oa = if a < pos { a } else { a - 1 };
                let ob = if b < pos { b } else { b - 1 };
                if a != pos && b != pos {
                    assert(perm[a] == old_perm[oa]);
                    assert(perm[b] == old_perm[ob]);
                } else if a == pos {
                    assert(perm[b] == old_perm[ob]);
                    assert(old_perm[ob] < i);
                } else {
                    assert(perm[a] == old_perm[oa]);
                    assert(old_perm[oa] < i);
                }
            }
            assert(v@.take(i as int + 1) =~= v@.take(i as int).push(x));
            assert(out@ == before.insert(pos as int, x));
            vstd::seq_lib::to_multiset_insert(before, pos as int, x);
            vstd::seq_lib::to_multiset_build(v@.take(i as int), x);
        }
        i += 1;
    }
    proof {
        assert(v@.take(v.len() as int) =~= v@);
        assert(index_map(perm, out@, v@));
    }
    out
}

} // verus!

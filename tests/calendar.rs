use chrono::TimeZone;
use kiel::holidays::{is_easter_or_good_friday, is_national_holiday, precompute_easter_dates, MonthDay};
use kiel::tariff::Tariff;
use kiel::time::{CalendarDate, Moment, Zone};

fn ymd(year: i32, month: u32, day: u32) -> CalendarDate {
    CalendarDate { year, month, day }
}

fn tallinn(y: i32, mo: u32, d: u32, h: u32, mi: u32, s: u32) -> Moment {
    let t = chrono_tz::Europe::Tallinn.with_ymd_and_hms(y, mo, d, h, mi, s).unwrap();
    Moment::new(t.timestamp(), Zone::Tallinn).unwrap()
}

fn berlin(y: i32, mo: u32, d: u32, h: u32, mi: u32, s: u32) -> Moment {
    let t = chrono_tz::Europe::Berlin.with_ymd_and_hms(y, mo, d, h, mi, s).unwrap();
    Moment::new(t.timestamp(), Zone::Berlin).unwrap()
}

#[test]
fn checks_easter() {
    assert!(is_easter_or_good_friday(&ymd(2021, 4, 4)));
    assert!(!is_easter_or_good_friday(&ymd(2021, 4, 5)));
    assert!(is_easter_or_good_friday(&ymd(2022, 4, 17)));
    assert!(!is_easter_or_good_friday(&ymd(2022, 4, 16)));
    assert!(is_easter_or_good_friday(&ymd(2023, 4, 9)));
    assert!(is_easter_or_good_friday(&ymd(2024, 3, 31)));
}

#[test]
fn checks_good_friday() {
    assert!(is_easter_or_good_friday(&ymd(2021, 4, 2)));
    assert!(!is_easter_or_good_friday(&ymd(2021, 4, 1)));
    assert!(is_easter_or_good_friday(&ymd(2022, 4, 15)));
    assert!(!is_easter_or_good_friday(&ymd(2022, 4, 16)));
    assert!(is_easter_or_good_friday(&ymd(2023, 4, 7)));
    assert!(is_easter_or_good_friday(&ymd(2024, 3, 29)));
}

#[test]
fn checks_pentecost() {
    assert!(is_easter_or_good_friday(&ymd(2021, 5, 23)));
    assert!(!is_easter_or_good_friday(&ymd(2021, 5, 24)));
    assert!(is_easter_or_good_friday(&ymd(2022, 6, 5)));
    assert!(!is_easter_or_good_friday(&ymd(2022, 6, 12)));
    assert!(is_easter_or_good_friday(&ymd(2023, 5, 28)));
    assert!(!is_easter_or_good_friday(&ymd(2023, 5, 29)));
    assert!(is_easter_or_good_friday(&ymd(2024, 5, 19)));
    assert!(!is_easter_or_good_friday(&ymd(2024, 5, 20)));
}

#[test]
fn checks_fixed_holidays() {
    assert!(is_national_holiday(&ymd(2023, 1, 1)));
    assert!(is_national_holiday(&ymd(2024, 5, 1)));
    assert!(is_national_holiday(&ymd(2025, 6, 23)));
    assert!(is_national_holiday(&ymd(2026, 6, 24)));
    assert!(is_national_holiday(&ymd(2027, 8, 20)));
    assert!(is_national_holiday(&ymd(2028, 12, 24)));
    assert!(is_national_holiday(&ymd(2029, 12, 25)));
    assert!(is_national_holiday(&ymd(2030, 12, 26)));
    assert!(!is_national_holiday(&ymd(2023, 12, 31)));
    assert!(!is_national_holiday(&ymd(2020, 9, 1)));
}

#[test]
fn moving_holidays_of_this_and_next_year() {
    let days = precompute_easter_dates(2022).unwrap();
    assert_eq!(
        days,
        vec![
            MonthDay { month: 4, day: 17 },
            MonthDay { month: 4, day: 9 },
            MonthDay { month: 4, day: 15 },
            MonthDay { month: 4, day: 7 },
            MonthDay { month: 6, day: 5 },
            MonthDay { month: 5, day: 28 },
        ]
    );
    // next year's Easter Sunday counts by month and day
    assert!(is_national_holiday(&ymd(2022, 4, 9)));
    assert!(is_national_holiday(&ymd(2022, 6, 5)));
    assert!(!is_national_holiday(&ymd(2022, 4, 18)));
}

#[test]
fn easter_fails_open_before_the_reform() {
    assert!(precompute_easter_dates(1500).is_none());
    assert!(!is_easter_or_good_friday(&ymd(1500, 4, 15)));
    assert!(!is_national_holiday(&ymd(1500, 4, 15)));
    assert!(is_national_holiday(&ymd(1500, 12, 25)));
}

#[test]
fn midnight_is_night() {
    assert!(Tariff::get_tariff(&tallinn(2022, 3, 23, 0, 0, 0)) == Tariff::Night);
}

#[test]
fn wed_7() {
    assert!(Tariff::get_tariff(&tallinn(2022, 3, 23, 7, 0, 0)) == Tariff::Day);
}

#[test]
fn wed_6_59() {
    assert!(Tariff::get_tariff(&tallinn(2022, 3, 23, 6, 59, 59)) == Tariff::Night);
}

#[test]
fn wed_22() {
    assert!(Tariff::get_tariff(&tallinn(2022, 3, 23, 22, 0, 0)) == Tariff::Night);
}

#[test]
fn wed_midday() {
    assert!(Tariff::get_tariff(&tallinn(2022, 3, 23, 12, 0, 0)) == Tariff::Day);
}

#[test]
fn sat_midday() {
    assert!(Tariff::get_tariff(&tallinn(2022, 3, 26, 12, 0, 0)) == Tariff::Night);
}

#[test]
fn sat_midnight() {
    assert!(Tariff::get_tariff(&tallinn(2022, 3, 26, 0, 0, 0)) == Tariff::Night);
}

#[test]
fn german_morning_is_correct() {
    assert!(Tariff::get_tariff(&berlin(2022, 3, 23, 6, 13, 0)) == Tariff::Day);
}

#[test]
fn german_evening_is_correct() {
    assert!(Tariff::get_tariff(&berlin(2022, 3, 23, 21, 13, 0)) == Tariff::Night);
}

#[test]
fn daytime_tariff_bounds() {
    assert_eq!(Tariff::daytime_tariff(6), Tariff::Night);
    assert_eq!(Tariff::daytime_tariff(7), Tariff::Day);
    assert_eq!(Tariff::daytime_tariff(21), Tariff::Day);
    assert_eq!(Tariff::daytime_tariff(22), Tariff::Night);
}

#[test]
fn holiday_on_a_weekday_is_night() {
    // 1 January 2025 is a Wednesday
    assert!(Tariff::get_tariff(&tallinn(2025, 1, 1, 12, 0, 0)) == Tariff::Night);
    assert!(Tariff::get_tariff(&tallinn(2025, 1, 2, 12, 0, 0)) == Tariff::Day);
}

#[test]
fn local_reading_follows_the_zone() {
    let m = berlin(2022, 3, 23, 23, 30, 15);
    let here = m.local();
    assert_eq!((here.year, here.month, here.day, here.hour, here.minute, here.second), (2022, 3, 23, 23, 30, 15));
    assert_eq!(here.weekday, 2);
    let there = m.local_at(Zone::Tallinn);
    assert_eq!((there.day, there.hour, there.weekday), (24, 0, 3));
    assert_eq!(m.timestamp(), 1648074615);
}

#[test]
fn moments_outside_the_range_are_refused() {
    assert!(Moment::new(253_402_300_800, Zone::Berlin).is_none());
    assert!(Moment::new(-62_135_596_801, Zone::Berlin).is_none());
    assert!(Moment::new(0, Zone::Berlin).is_some());
}

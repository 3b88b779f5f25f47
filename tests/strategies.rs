use chrono::TimeZone;
use kiel::default_strategy::DefaultStrategy;
use kiel::price_cell::PriceCell;
use kiel::price_matrix::{add_almost_day, truncate_to_24_hours, CentsPerKwh, DaySlice, PricePerMwh};
use kiel::sample_data::{random_price, sample_day, sample_day_specified};
use kiel::strategy::always::{AlwaysOffStrategy, AlwaysOnStrategy};
use kiel::strategy::default::TariffStrategy;
use kiel::strategy::limit::PriceLimitStrategy;
use kiel::strategy::none::NoneStrategy;
use kiel::strategy::{HourStrategy, MaskablePowerStrategy, PlanError, PowerState};
use kiel::tariff::Tariff;
use kiel::time::{CalendarDate, Moment, Zone, PLANNING_TZ};
use rand::{Rng, SeedableRng};

fn at(zone: Zone, y: i32, mo: u32, d: u32, h: u32) -> Moment {
    let t = match zone {
        Zone::Berlin => chrono_tz::Europe::Berlin.with_ymd_and_hms(y, mo, d, h, 0, 0).unwrap().timestamp(),
        Zone::Tallinn => chrono_tz::Europe::Tallinn.with_ymd_and_hms(y, mo, d, h, 0, 0).unwrap().timestamp(),
    };
    Moment::new(t, zone).unwrap()
}

fn random_prices(n: usize) -> Vec<i32> {
    let mut rng = rand::thread_rng();
    (0..n).map(|_| random_price(rng.gen::<u32>())).collect()
}

const SAMPLE_DAY_PRICES: [i32; 8] = [3943, 13430, 7410, 19039, 9039, 15039, 1039, 3339];

#[test]
fn converts_to_cpkh() {
    let mwh = PricePerMwh(14899);
    let kph = mwh.to_cents_per_kwh();
    // 14.899 cents per kWh, in thousandths of a cent
    assert!(kph.0 == 14899);
}

#[test]
fn converts_to_mh() {
    // 9.48 cents per kWh
    let kph = CentsPerKwh(9480);
    let mwh = kph.to_price_per_mwh();
    // 94.8 per MWh, in hundredths
    assert!(mwh.0 == 9480);
}

#[test]
fn adds_almost_day() {
    let date1 = at(Zone::Berlin, 2022, 3, 3, 0);
    let added = add_almost_day(&date1).unwrap();
    let expected = chrono_tz::Europe::Berlin.with_ymd_and_hms(2022, 3, 3, 23, 59, 59).unwrap().timestamp();
    assert!(added == Moment::new(expected, Zone::Berlin).unwrap());
}

#[test]
fn truncates_properly() {
    let date1 = at(Zone::Berlin, 2022, 3, 3, 0);
    let sample = sample_day(&date1, 16, &random_prices(30)).unwrap();
    assert!(sample.0.len() == 30);
    let truncated = truncate_to_24_hours(&sample);
    assert!(truncated.0.len() == 24);
}

#[test]
fn truncation_sorts_and_keeps_the_first_day() {
    let date1 = at(Zone::Berlin, 2022, 3, 3, 0);
    let mut cells = sample_day(&date1, 0, &vec![100, 200, 300, 400]).unwrap().0;
    cells.reverse();
    let far = PriceCell { moment: date1.add_seconds(86_400).unwrap(), ..cells[0] };
    cells.push(far);
    let truncated = truncate_to_24_hours(&DaySlice(cells));
    let prices: Vec<i32> = truncated.0.iter().map(|c| c.price.0).collect();
    assert_eq!(prices, vec![100, 200, 300, 400]);
    assert!(truncate_to_24_hours(&DaySlice(vec![])).0.is_empty());
}

#[test]
fn random_price_in_range() {
    let mut rng = rand::rngs::StdRng::seed_from_u64(711);
    let limit = 20000;
    for _ in 0..10000 {
        let price = random_price(rng.gen::<u32>());
        assert!(price < limit);
        assert!(price > 0);
    }
    assert_eq!(random_price(0), 100);
    assert_eq!(random_price(18999), 19099);
    assert_eq!(random_price(19000), 100);
}

#[test]
fn strategy_makes_default_strategy() {
    let date = CalendarDate { year: 2022, month: 3, day: 23 };
    let planned_day = DefaultStrategy::plan_day(&date, Zone::Tallinn, None).unwrap();
    for change in &planned_day {
        println!("{:?} {:?}", change.moment, change.state);
    }
    assert_eq!(planned_day.len(), 24);
    assert_eq!(planned_day[6].state, PowerState::On);
    assert_eq!(planned_day[7].state, PowerState::Off);
    assert_eq!(planned_day[21].state, PowerState::Off);
    assert_eq!(planned_day[22].state, PowerState::On);
    assert_eq!(DefaultStrategy::tariff_to_power_state(&Tariff::Day), PowerState::Off);
}

#[test]
fn default_strategy_fails_on_a_missing_hour() {
    // clocks in Berlin skip from 02:00 to 03:00 on 27 March 2022
    let date = CalendarDate { year: 2022, month: 3, day: 27 };
    assert_eq!(DefaultStrategy::plan_day(&date, Zone::Berlin, None).unwrap_err(), PlanError::HourNotOnClock(2));
}

#[test]
fn default_makes_default_strategy() {
    // Wednesday
    let date = at(Zone::Tallinn, 2022, 3, 23, 0);
    let sample = sample_day(&date, 14, &random_prices(24)).unwrap();
    let planned_day = TariffStrategy.plan_day(&sample);
    let fourteen = at(Zone::Tallinn, 2022, 3, 23, 14);
    assert!(planned_day[0].moment == fourteen);
    let fifteen = at(Zone::Tallinn, 2022, 3, 23, 15);
    assert!(planned_day[1].moment == fifteen);

    assert!(planned_day[0].state == PowerState::Off);
    assert!(planned_day[1].state == PowerState::Off);
    assert!(planned_day[10].state == PowerState::On);
    assert!(planned_day[23].state == PowerState::Off);
}

#[test]
fn makes_default_strategy_on_saturday() {
    let date = at(Zone::Tallinn, 2022, 3, 19, 0);
    let sample = sample_day(&date, 14, &random_prices(24)).unwrap();
    let planned_day = TariffStrategy.plan_day(&sample);
    assert!(planned_day[0].state == PowerState::On);
    assert!(planned_day[1].state == PowerState::On);
    assert!(planned_day[10].state == PowerState::On);
    assert!(planned_day[23].state == PowerState::On);
}

#[test]
fn tariff_strategy_on_a_wednesday() {
    let date = at(Zone::Tallinn, 2022, 3, 23, 0);
    let full = TariffStrategy.plan_day_full(&DaySlice(vec![]), &date).unwrap();
    assert_eq!(full.len(), 24);
    for (h, unit) in full.iter().enumerate() {
        let expected = if (7..=21).contains(&h) { PowerState::Off } else { PowerState::On };
        assert_eq!(unit.state, expected, "hour {}", h);
        assert_eq!(unit.moment.local().hour as usize, h);
        assert!(unit.price.is_none());
    }
}

#[test]
fn tariff_strategy_on_a_holiday_and_a_sunday() {
    for date in [at(Zone::Tallinn, 2025, 1, 1, 0), at(Zone::Tallinn, 2022, 3, 20, 0)] {
        let full = TariffStrategy.plan_day_full(&DaySlice(vec![]), &date).unwrap();
        assert_eq!(full.len(), 24);
        assert!(full.iter().all(|u| u.state == PowerState::On));
    }
}

#[test]
fn always_strategies() {
    let m = at(Zone::Berlin, 2022, 3, 23, 12);
    assert_eq!(AlwaysOnStrategy.plan_hour(&m), PowerState::On);
    assert_eq!(AlwaysOffStrategy.plan_hour(&m), PowerState::Off);
    let sample = sample_day_specified(&SAMPLE_DAY_PRICES.to_vec(), 0).unwrap();
    assert!(AlwaysOnStrategy.plan_day(&sample).iter().all(|u| u.state == PowerState::On && u.price.is_some()));
    let full = AlwaysOffStrategy.plan_day_full(&sample, &sample.0[0].moment).unwrap();
    assert_eq!(full.len(), 24);
    assert!(full.iter().all(|u| u.state == PowerState::Off));
    assert_eq!(full.iter().filter(|u| u.price.is_some()).count(), 8);
}

#[test]
fn fills_gaps() {
    let date = at(PLANNING_TZ, 2022, 7, 14, 0);
    let day = sample_day(&date, 4, &random_prices(12)).unwrap();
    let filled = TariffStrategy.plan_day_full(&day, &date).unwrap();
    assert!(filled[0].moment.local().hour == 0);
    assert!(filled[0].state == PowerState::On);
    assert!(filled[4].moment.local().hour == 4);
    assert!(filled[4].state == PowerState::On);
    assert!(filled[6].moment.local().hour == 6);
    assert!(filled[6].state == PowerState::Off);
    assert!(filled[12].moment.local().hour == 12);
    assert!(filled[12].state == PowerState::Off);
    assert!(filled[20].moment.local().hour == 20);
    assert!(filled[20].state == PowerState::Off);
    assert!(filled[23].moment.local().hour == 23);
    assert!(filled[23].state == PowerState::On);
}

#[test]
fn fills_gaps_in_an_unsorted_day() {
    let date = at(PLANNING_TZ, 2022, 7, 14, 0);
    let mut cells = sample_day(&date, 10, &random_prices(5)).unwrap().0;
    cells.reverse();
    let filled = TariffStrategy.plan_day_full(&DaySlice(cells), &date).unwrap();
    assert_eq!(filled.len(), 24);
    for (h, unit) in filled.iter().enumerate() {
        assert_eq!(unit.moment.local().hour as usize, h);
        assert_eq!(unit.price.is_some(), (10..15).contains(&h));
    }
}

#[test]
fn gap_filling_on_the_spring_forward_day() {
    // clocks in Berlin skip from 02:00 to 03:00 on 27 March 2022
    let date = at(Zone::Berlin, 2022, 3, 27, 0);
    let r = TariffStrategy.plan_day_full(&DaySlice(vec![]), &date).unwrap();
    assert_eq!(r.len(), 23);
    let hours: Vec<u32> = r.iter().map(|u| u.moment.local().hour).collect();
    assert!(!hours.contains(&2));
    assert!(r.windows(2).all(|w| w[0].moment.timestamp() < w[1].moment.timestamp()));
}

#[test]
fn gap_filling_on_the_fall_back_day() {
    // 02:00 to 03:00 happens twice in Berlin on 30 October 2022
    let date = at(Zone::Berlin, 2022, 10, 30, 0);
    let r = TariffStrategy.plan_day_full(&DaySlice(vec![]), &date).unwrap();
    assert_eq!(r.len(), 24);
    let first_two = chrono_tz::Europe::Berlin.with_ymd_and_hms(2022, 10, 30, 2, 0, 0).earliest().unwrap();
    assert_eq!(r[2].moment.timestamp(), first_two.timestamp());
    assert_eq!(r[3].moment.timestamp() - r[2].moment.timestamp(), 7200);
}

#[test]
fn gap_filling_keeps_only_the_day_and_one_cell_per_hour() {
    let date = at(PLANNING_TZ, 2022, 7, 14, 0);
    // 14 July 20:00 to 15 July 03:00, and a second cell at 21:00
    let mut cells = sample_day(&date, 20, &vec![100, 200, 300, 400, 500, 600, 700, 800]).unwrap().0;
    let extra = PriceCell { price: PricePerMwh(999), ..cells[1] };
    cells.push(extra);
    cells.reverse();
    let r = TariffStrategy.plan_day_full(&DaySlice(cells), &date).unwrap();
    assert_eq!(r.len(), 24);
    for (h, unit) in r.iter().enumerate() {
        let l = unit.moment.local();
        assert_eq!((l.day, l.hour as usize), (14, h));
    }
    let prices: Vec<Option<i32>> = r[20..].iter().map(|u| u.price.map(|c| c.price.0)).collect();
    // the input order is reversed: the later of the two 21:00 cells comes first
    assert_eq!(prices, vec![Some(100), Some(999), Some(300), Some(400)]);
}

#[test]
fn hits_limit() {
    let sample = sample_day_specified(&SAMPLE_DAY_PRICES.to_vec(), 0).unwrap();
    let base = TariffStrategy.plan_day(&sample);
    let strategy = PriceLimitStrategy { limit_mwh: 15000 };
    let result = strategy.plan_day_masked(&base);
    assert!(result[0].state == PowerState::On);
    assert!(result[1].state == PowerState::On);
    assert!(result[2].state == PowerState::On);
    assert!(result[3].state == PowerState::Off);
    assert!(result[4].state == PowerState::On);
    assert!(result[5].state == PowerState::Off);
    assert!(result[6].state == PowerState::Off);
    assert!(result[7].state == PowerState::Off);
}

#[test]
fn limit_counts_the_tariff_and_spares_unpriced_hours() {
    let mut sample = sample_day_specified(&vec![14000, 14000], 0).unwrap();
    sample.0[1].tariff_price = Some(PricePerMwh(1001));
    let mut base = AlwaysOnStrategy.plan_day(&sample);
    base.push(kiel::strategy::PriceChangeUnit { price: None, ..base[0] });
    let result = PriceLimitStrategy { limit_mwh: 15000 }.plan_day_masked(&base);
    let states: Vec<PowerState> = result.iter().map(|u| u.state).collect();
    assert_eq!(states, vec![PowerState::On, PowerState::Off, PowerState::On]);
    assert_eq!(result[1].moment, base[1].moment);
}

#[test]
fn none_strategy_keeps_the_plan() {
    let sample = sample_day_specified(&SAMPLE_DAY_PRICES.to_vec(), 0).unwrap();
    let base = TariffStrategy.plan_day(&sample);
    let result = NoneStrategy.plan_day_masked(&base);
    assert_eq!(result.len(), base.len());
    for (a, b) in result.iter().zip(base.iter()) {
        assert_eq!((a.moment, a.state), (b.moment, b.state));
    }
}

#[test]
fn total_adds_the_tariff() {
    let mut sample = sample_day_specified(&vec![3943], 0).unwrap();
    assert_eq!(sample.0[0].total(), 3943);
    // a Monday at 00:00 in Berlin is 01:00 in Tallinn: the night tariff
    sample.0[0].add_tariff(&CentsPerKwh(6650), &CentsPerKwh(3860));
    assert_eq!(sample.0[0].tariff_price, Some(PricePerMwh(3860)));
    assert_eq!(sample.0[0].total(), 7803);
}

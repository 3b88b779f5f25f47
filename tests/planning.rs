use chrono::TimeZone;
use kiel::config_file::{ConfigFile, Day, DayBasePlan, DayStrategy};
use kiel::overrides::apply_overrides;
use kiel::planner::{get_power_state_exact, plan_and_record, plan_for_day, plan_request, PlannerStep};
use kiel::power_state_model::{DecisionCache, NewPowerStateDB, PowerStateDB};
use kiel::price_cell::{get_day_start_end, get_hour_start_end};
use kiel::price_matrix::DaySlice;
use kiel::sample_data::sample_day;
use kiel::strategy::always::AlwaysOnStrategy;
use kiel::strategy::limit::PriceLimitStrategy;
use kiel::strategy::smart::SmartStrategy;
use kiel::strategy::{PowerState, PriceChangeUnit};
use kiel::time::{Moment, Weekday, Zone, LOCAL_TZ, MARKET_TZ};

fn berlin(y: i32, mo: u32, d: u32, h: u32, mi: u32) -> Moment {
    let t = chrono_tz::Europe::Berlin.with_ymd_and_hms(y, mo, d, h, mi, 0).unwrap();
    Moment::new(t.timestamp(), Zone::Berlin).unwrap()
}

fn plain_day() -> Day {
    Day { hours_always_on: None, hours_always_off: None, base: None, strategy: None }
}

fn config_with(sunday: Day, wednesday: Day) -> ConfigFile {
    ConfigFile {
        monday: plain_day(),
        tuesday: plain_day(),
        wednesday,
        thursday: plain_day(),
        friday: plain_day(),
        saturday: plain_day(),
        sunday,
    }
}

fn prices(n: usize) -> Vec<i32> {
    (0..n as i32).map(|i| 1000 + 500 * i).collect()
}

#[test]
fn fetch_from_database() {
    let mut cache = DecisionCache::new();
    let day_date = berlin(2022, 3, 13, 0, 0);
    for hour in 0..24u32 {
        let moment = berlin(2022, 3, 13, hour, 0);
        let state = if hour % 2 == 1 { PowerState::On } else { PowerState::Off };
        let row = NewPowerStateDB::from_pcu(PriceChangeUnit { moment, state, price: None }, Some(71));
        cache.rows.push(PowerStateDB { moment: row.moment, state: row.state, configuration_id: row.configuration_id });
    }
    let (start, end) = get_day_start_end(&day_date).unwrap();
    let day = cache.get_day_from_database(&start, &end, Some(71));
    for hour in 0..24usize {
        let expected = (hour % 2) as i32;
        let actual = PowerStateDB::state_to_num(day[hour].state);
        assert!(expected == actual);
    }
    assert!(cache.get_day_from_database(&start, &end, Some(72)).is_empty());
}

#[test]
fn state_numbers() {
    assert_eq!(PowerStateDB::num_to_state(1), PowerState::On);
    assert_eq!(PowerStateDB::num_to_state(0), PowerState::Off);
    assert_eq!(PowerStateDB::num_to_state(7), PowerState::Off);
    assert_eq!(PowerStateDB::state_to_num(PowerState::On), 1);
}

#[test]
fn hour_and_day_bounds() {
    let m = berlin(2022, 3, 23, 14, 25);
    let (s, e) = get_hour_start_end(&m).unwrap();
    assert_eq!(s, berlin(2022, 3, 23, 14, 0));
    assert_eq!(e.timestamp() - s.timestamp(), 3599);
    let (ds, de) = get_day_start_end(&m).unwrap();
    assert_eq!(ds, berlin(2022, 3, 23, 0, 0));
    assert_eq!(de.timestamp() - ds.timestamp(), 86399);
    // the repeated hour when clocks go back: each pass is its own bucket
    let midnight = berlin(2022, 10, 30, 0, 0).timestamp();
    let first = Moment::new(midnight + 2 * 3600 + 600, Zone::Berlin).unwrap();
    let second = Moment::new(midnight + 3 * 3600 + 600, Zone::Berlin).unwrap();
    assert_eq!((first.local().hour, second.local().hour), (2, 2));
    let (s1, e1) = get_hour_start_end(&first).unwrap();
    let (s2, _) = get_hour_start_end(&second).unwrap();
    assert_eq!((s1.timestamp(), e1.timestamp()), (midnight + 7200, midnight + 7200 + 3599));
    assert_eq!(s2.timestamp(), midnight + 3 * 3600);
}

#[test]
fn exact_state_of_an_hour() {
    let units: Vec<PriceChangeUnit> = (0..3)
        .map(|h| PriceChangeUnit {
            moment: berlin(2022, 3, 23, h, 0),
            state: if h == 1 { PowerState::On } else { PowerState::Off },
            price: None,
        })
        .collect();
    assert_eq!(get_power_state_exact(&berlin(2022, 3, 23, 1, 59), &units), Some(PowerState::On));
    assert_eq!(get_power_state_exact(&berlin(2022, 3, 23, 2, 0), &units), Some(PowerState::Off));
    assert_eq!(get_power_state_exact(&berlin(2022, 3, 23, 5, 0), &units), None);
}

#[test]
fn overrides_always_win() {
    let wednesday = Day {
        hours_always_on: Some(vec![12]),
        hours_always_off: Some(vec![2]),
        base: None,
        strategy: Some(DayStrategy::Smart(SmartStrategy { hour_budget: 0, morning_hours: 0, hard_limit_mwh: 0 })),
    };
    let config = config_with(plain_day(), wednesday);
    let date = berlin(2022, 3, 23, 0, 0);
    let cells = sample_day(&date, 0, &prices(24)).unwrap();
    let plan = plan_for_day(&config, &cells, &date).unwrap();
    assert_eq!(plan.len(), 24);
    for unit in &plan {
        let local = unit.moment.local_at(LOCAL_TZ);
        let expected = match local.hour {
            12 => PowerState::On,
            _ => PowerState::Off,
        };
        assert_eq!(unit.state, expected);
    }
    // Berlin 01:00 is 02:00 in Tallinn: without the override it is night, on
    let mut tariff_only = kiel::strategy::default::TariffStrategy.plan_day_full(&cells, &date).unwrap();
    assert_eq!(tariff_only[1].state, PowerState::On);
    apply_overrides(&mut tariff_only, &config, LOCAL_TZ);
    assert_eq!(tariff_only[1].state, PowerState::Off);
    assert_eq!(tariff_only[11].state, PowerState::On);
    assert_eq!(config.get_day(&Weekday::Wed).hours_always_on, Some(vec![12]));
}

#[test]
fn pipeline_uses_the_weekday_configuration() {
    let sunday = Day {
        hours_always_on: None,
        hours_always_off: Some(vec![15, 16]),
        base: Some(DayBasePlan::AlwaysOn(AlwaysOnStrategy)),
        strategy: Some(DayStrategy::Limit(PriceLimitStrategy { limit_mwh: 11000 })),
    };
    let config = config_with(sunday, plain_day());
    let start_date = berlin(2022, 3, 13, 0, 0);
    let cells = sample_day(&start_date, 0, &prices(24)).unwrap();
    let plan = plan_for_day(&config, &cells, &start_date).unwrap();
    let states: Vec<PowerState> = plan.iter().map(|u| u.state).collect();
    let mut expected = vec![PowerState::On; 24];
    // over 110.00 from hour 21 on; 15 and 16 in Tallinn are 14 and 15 in Berlin
    for h in [14, 15, 21, 22, 23] {
        expected[h] = PowerState::Off;
    }
    assert_eq!(states, expected);
}

#[test]
fn second_run_is_served_from_the_cache() {
    let config = config_with(plain_day(), plain_day());
    let now = berlin(2022, 3, 23, 14, 30);
    let mut cache = DecisionCache::new();
    assert_eq!(plan_request(&cache, &now, Some(3), false), PlannerStep::Recompute);
    let cells = sample_day(&now, 0, &prices(24)).unwrap();
    let plan = plan_and_record(&mut cache, &config, Some(3), &cells, &now).unwrap();
    assert_eq!(cache.rows.len(), 24);
    let first = plan_request(&cache, &now, Some(3), false);
    assert_eq!(first, PlannerStep::UseCached(plan[14].state));
    let rows_before: Vec<(i64, i32)> = cache.rows.iter().map(|r| (r.moment.timestamp(), r.state)).collect();
    cache.insert_day_into_database(&plan, Some(3));
    let rows_after: Vec<(i64, i32)> = cache.rows.iter().map(|r| (r.moment.timestamp(), r.state)).collect();
    assert_eq!(rows_before, rows_after);
    assert_eq!(plan_request(&cache, &now, Some(3), false), first);
    assert_eq!(plan_request(&cache, &now, Some(3), true), PlannerStep::Recompute);
    assert_eq!(plan_request(&cache, &now, Some(4), false), PlannerStep::Recompute);
}

#[test]
fn cached_decision_round_trip() {
    let mut cache = DecisionCache::new();
    let moment = berlin(2022, 3, 23, 9, 0);
    let (start, end) = get_hour_start_end(&moment).unwrap();
    assert_eq!(cache.lookup(&start, &end, None), None);
    cache.upsert_cached_decision(&PriceChangeUnit { moment, state: PowerState::On, price: None }, None);
    assert_eq!(cache.lookup(&start, &end, None), Some(PowerState::On));
    // an existing decision is kept
    cache.upsert_cached_decision(&PriceChangeUnit { moment, state: PowerState::Off, price: None }, None);
    assert_eq!(cache.rows.len(), 1);
    assert_eq!(cache.lookup(&start, &end, None), Some(PowerState::On));
    assert_eq!(get_power_state_exact(&berlin(2022, 3, 23, 9, 45), &vec![cache.rows[0].to_unit()]), Some(PowerState::On));
}

#[test]
fn planning_a_day_with_a_missing_hour() {
    let config = config_with(plain_day(), plain_day());
    let date = berlin(2022, 3, 27, 0, 0);
    let mut cache = DecisionCache::new();
    let plan = plan_and_record(&mut cache, &config, None, &DaySlice(vec![]), &date).unwrap();
    assert_eq!(plan.len(), 23);
    assert_eq!(cache.rows.len(), 23);
    assert_eq!(MARKET_TZ, Zone::Berlin);
}

#[test]
fn repeated_hour_is_served_from_the_cache() {
    let config = config_with(plain_day(), plain_day());
    let date = berlin(2022, 10, 30, 0, 0);
    let mut cache = DecisionCache::new();
    plan_and_record(&mut cache, &config, Some(1), &DaySlice(vec![]), &date).unwrap();
    let first_pass = Moment::new(date.timestamp() + 2 * 3600 + 60, Zone::Berlin).unwrap();
    assert_eq!(plan_request(&cache, &first_pass, Some(1), false), PlannerStep::UseCached(PowerState::On));
}

#[test]
fn selects_the_cells_of_the_day() {
    let date = berlin(2022, 3, 23, 12, 0);
    let cells = sample_day(&berlin(2022, 3, 22, 0, 0), 20, &prices(30)).unwrap();
    let day = kiel::price_cell::prices_of_day(&cells, &date).unwrap();
    // 22 March 20:00 to 24 March 01:00: the 24 hours of 23 March are kept
    assert_eq!(day.0.len(), 24);
    assert_eq!(day.0[0].moment, berlin(2022, 3, 23, 0, 0));
    assert_eq!(day.0[23].moment, berlin(2022, 3, 23, 23, 0));
}

#[test]
fn conflicting_overrides_are_found() {
    let clash = Day { hours_always_on: Some(vec![3, 9]), hours_always_off: Some(vec![1, 9]), base: None, strategy: None };
    assert_eq!(clash.conflicting_hour(), Some(9));
    let config = config_with(plain_day(), clash);
    assert_eq!(config.conflicting_override(), Some((Weekday::Wed, 9)));
    let fine = Day { hours_always_on: Some(vec![3]), hours_always_off: Some(vec![4]), base: None, strategy: None };
    assert_eq!(fine.conflicting_hour(), None);
    assert_eq!(config_with(fine, plain_day()).conflicting_override(), None);
}

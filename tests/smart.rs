use kiel::sample_data::sample_day_specified;
use kiel::strategy::default::TariffStrategy;
use kiel::strategy::smart::{average_price, SmartStrategy};
use kiel::strategy::{MaskablePowerStrategy, PowerState, PriceChangeUnit};

const SAMPLE_DAY_PRICES: [i32; 8] = [3943, 13430, 7410, 19039, 9039, 15039, 1039, 3339];

const SAMPLE_DAY_PRICES_FULL: [i32; 24] = [
    13943, 13430, 17410, 19039, 19039, 15039, 11039, 3339, 4933, 5930, 10010, 14039, 15939, 14139,
    4239, 3339, 12033, 5130, 20110, 4139, 5839, 9539, 7939, 1239,
];

fn base_of(prices: &[i32]) -> Vec<PriceChangeUnit> {
    let sample = sample_day_specified(&prices.to_vec(), 0).unwrap();
    TariffStrategy.plan_day(&sample)
}

fn states(result: &[PriceChangeUnit]) -> Vec<PowerState> {
    result.iter().map(|u| u.state).collect()
}

#[test]
fn gets_average() {
    let base = base_of(&SAMPLE_DAY_PRICES);
    let (count, sum) = average_price(&base);
    println!("{} / {}", sum, count);
    // at least 90.34 and below 90.35
    assert!(sum >= 9034 * count as i128);
    assert!(sum < 9035 * count as i128);
}

#[test]
fn sorts_prices() {
    let base = base_of(&SAMPLE_DAY_PRICES_FULL);
    for r in &base {
        println!("{:?}", r);
    }
    let strat = SmartStrategy { hour_budget: 7, morning_hours: 0, hard_limit_mwh: 30000 };
    let result = strat.plan_day_masked(&base);
    println!("Smart: \n");
    for r in &result {
        println!("{:?}", r);
    }
    assert!(result[0].state == PowerState::Off);
    assert!(result[1].state == PowerState::Off);
    assert!(result[2].state == PowerState::Off);
    assert!(result[3].state == PowerState::Off);
    assert!(result[4].state == PowerState::Off);
    assert!(result[5].state == PowerState::Off);
    assert!(result[6].state == PowerState::Off);
    assert!(result[7].state == PowerState::On);
    assert!(result[17].state == PowerState::On);
    assert!(result[18].state == PowerState::Off);
    assert!(result[19].state == PowerState::On);
    assert!(result[23].state == PowerState::On);
}

#[test]
fn sorts_prices_with_morning() {
    let base = base_of(&SAMPLE_DAY_PRICES_FULL);
    let strat = SmartStrategy { hour_budget: 7, morning_hours: 2, hard_limit_mwh: 30000 };
    let result = strat.plan_day_masked(&base);
    for r in &result {
        println!("{:?}", r);
    }
    assert!(result[0].state == PowerState::Off);
    assert!(result[1].state == PowerState::On);
    assert!(result[2].state == PowerState::Off);
    assert!(result[3].state == PowerState::Off);
    assert!(result[4].state == PowerState::Off);
    assert!(result[5].state == PowerState::Off);
    assert!(result[6].state == PowerState::Off);
    assert!(result[7].state == PowerState::On);
    assert!(result[17].state == PowerState::Off);
    assert!(result[18].state == PowerState::Off);
    assert!(result[19].state == PowerState::On);
    assert!(result[23].state == PowerState::On);
}

#[test]
fn obeys_hard_limit() {
    let base = base_of(&SAMPLE_DAY_PRICES_FULL);
    let strat = SmartStrategy { hour_budget: 7, morning_hours: 2, hard_limit_mwh: 10000 };
    let result = strat.plan_day_masked(&base);
    for r in &result {
        println!("{:?}", r);
    }
    assert!(result[0].state == PowerState::Off);
    assert!(result[1].state == PowerState::Off);
    assert!(result[2].state == PowerState::Off);
    assert!(result[3].state == PowerState::Off);
    assert!(result[4].state == PowerState::Off);
    assert!(result[5].state == PowerState::Off);
    assert!(result[6].state == PowerState::Off);
    assert!(result[7].state == PowerState::On);
    assert!(result[17].state == PowerState::Off);
    assert!(result[18].state == PowerState::Off);
    assert!(result[19].state == PowerState::On);
    assert!(result[23].state == PowerState::On);
}

#[test]
fn seven_cheapest_hours_exactly() {
    let base = base_of(&SAMPLE_DAY_PRICES_FULL);
    let strat = SmartStrategy { hour_budget: 7, morning_hours: 0, hard_limit_mwh: 30000 };
    let result = strat.plan_day_masked(&base);
    let on: Vec<usize> = (0..24).filter(|&i| result[i].state == PowerState::On).collect();
    assert_eq!(on, vec![7, 8, 14, 15, 17, 19, 23]);
    let with_morning = SmartStrategy { morning_hours: 2, ..strat }.plan_day_masked(&base);
    let on: Vec<usize> = (0..24).filter(|&i| with_morning[i].state == PowerState::On).collect();
    assert_eq!(on, vec![1, 7, 8, 14, 15, 19, 23]);
}

#[test]
fn hard_limit_frees_no_budget() {
    let base = base_of(&SAMPLE_DAY_PRICES_FULL);
    let strat = SmartStrategy { hour_budget: 7, morning_hours: 2, hard_limit_mwh: 10000 };
    let result = strat.plan_day_masked(&base);
    let on = result.iter().filter(|u| u.state == PowerState::On).count();
    assert_eq!(on, 6);
}

#[test]
fn few_prices_leave_the_plan() {
    let base = base_of(&SAMPLE_DAY_PRICES_FULL[..19]);
    let strat = SmartStrategy { hour_budget: 1, morning_hours: 0, hard_limit_mwh: 0 };
    let result = strat.plan_day_masked(&base);
    assert_eq!(states(&result), states(&base));
}

#[test]
fn budget_beyond_the_day_turns_everything_on() {
    let base = base_of(&SAMPLE_DAY_PRICES_FULL);
    let strat = SmartStrategy { hour_budget: 30, morning_hours: 9, hard_limit_mwh: 19000 };
    let result = strat.plan_day_masked(&base);
    let off: Vec<usize> = (0..24).filter(|&i| result[i].state == PowerState::Off).collect();
    // only the hours above 190.00 stay off
    assert_eq!(off, vec![3, 4, 18]);
}

#[test]
fn unpriced_hours_rank_as_average() {
    let mut base = base_of(&SAMPLE_DAY_PRICES_FULL);
    // hour 10 loses its price and ranks at the average of the others, 104.70,
    // between 95.39 (hour 21) and 110.39 (hour 6)
    base[10].price = None;
    let strat = SmartStrategy { hour_budget: 13, morning_hours: 0, hard_limit_mwh: 30000 };
    let result = strat.plan_day_masked(&base);
    let on: Vec<usize> = (0..24).filter(|&i| result[i].state == PowerState::On).collect();
    assert_eq!(on, vec![6, 7, 8, 9, 10, 14, 15, 17, 19, 20, 21, 22, 23]);
    let strat = SmartStrategy { hour_budget: 11, ..strat };
    let result = strat.plan_day_masked(&base);
    assert_eq!(result[10].state, PowerState::Off);
    assert_eq!(result[21].state, PowerState::On);
}

use chrono::TimeZone;
use kiel::bar_chart::chart_data_as_str_ref;
use kiel::config_select::{config_attempt_loop, ConfigAction, ConfigCandidate};
use kiel::planner::state_to_enact;
use kiel::power_state_model::DecisionCache;
use kiel::price_cell::{current_tariffs, PriceCell, TariffPeriod};
use kiel::price_matrix::{CentsPerKwh, PricePerMwh};
use kiel::strategy::{PowerState, PriceChangeUnit};
use kiel::time::{Moment, Zone};

fn berlin(y: i32, mo: u32, d: u32, h: u32) -> Moment {
    let t = chrono_tz::Europe::Berlin.with_ymd_and_hms(y, mo, d, h, 0, 0).unwrap();
    Moment::new(t.timestamp(), Zone::Berlin).unwrap()
}

#[test]
fn first_decoding_configuration_is_used() {
    let cfgs = vec![
        ConfigCandidate { id: 9, tried: false, decodes: false },
        ConfigCandidate { id: 8, tried: false, decodes: true },
        ConfigCandidate { id: 7, tried: true, decodes: true },
    ];
    let (chosen, actions) = config_attempt_loop(&cfgs);
    assert_eq!(chosen, Some(1));
    assert_eq!(
        actions,
        vec![
            ConfigAction::MarkBroken(9),
            ConfigAction::IncrementFailures,
            ConfigAction::MarkTried(8),
            ConfigAction::ResetFailures,
        ]
    );
}

#[test]
fn tried_configuration_is_not_marked_again() {
    let cfgs = vec![ConfigCandidate { id: 4, tried: true, decodes: true }];
    assert_eq!(config_attempt_loop(&cfgs), (Some(0), vec![ConfigAction::ResetFailures]));
}

#[test]
fn no_decoding_configuration() {
    let cfgs = vec![
        ConfigCandidate { id: 2, tried: true, decodes: false },
        ConfigCandidate { id: 1, tried: false, decodes: false },
    ];
    let (chosen, actions) = config_attempt_loop(&cfgs);
    assert_eq!(chosen, None);
    assert_eq!(actions.len(), 4);
    assert_eq!(actions[2], ConfigAction::MarkBroken(1));
    assert_eq!(config_attempt_loop(&vec![]), (None, vec![]));
}

#[test]
fn tariff_table_lookup() {
    let table = vec![
        TariffPeriod { effective_from: berlin(2022, 6, 1, 0), day: CentsPerKwh(7000), night: CentsPerKwh(4000) },
        TariffPeriod { effective_from: berlin(2023, 1, 1, 0), day: CentsPerKwh(8000), night: CentsPerKwh(5000) },
    ];
    let before = current_tariffs(&berlin(2022, 5, 31, 23), &table);
    assert_eq!((before.0 .0, before.1 .0), (6650, 3860));
    let middle = current_tariffs(&berlin(2022, 6, 1, 0), &table);
    assert_eq!((middle.0 .0, middle.1 .0), (7000, 4000));
    let after = current_tariffs(&berlin(2023, 3, 1, 0), &table);
    assert_eq!((after.0 .0, after.1 .0), (8000, 5000));
    // a Wednesday noon in Berlin is day tariff time; midnight is night
    assert_eq!(PriceCell::get_tariff_price_current(berlin(2023, 3, 1, 12), &table), PricePerMwh(8000));
    assert_eq!(PriceCell::get_tariff_price_current(berlin(2023, 3, 1, 0), &table), PricePerMwh(5000));
    assert_eq!(PriceCell::get_tariff_price(berlin(2022, 3, 23, 12), &CentsPerKwh(6650), &CentsPerKwh(3860)), PricePerMwh(6650));
}

#[test]
fn chart_labels_are_borrowed() {
    let data = vec![("00".to_string(), 39u64), ("01".to_string(), 134u64)];
    let refs = chart_data_as_str_ref(&data);
    assert_eq!(refs, vec![("00", 39u64), ("01", 134u64)]);
}

#[test]
fn enacts_only_a_decided_hour() {
    let mut cache = DecisionCache::new();
    let now = berlin(2022, 3, 23, 10);
    assert_eq!(state_to_enact(&cache, &now, Some(1)), None);
    cache.upsert_cached_decision(&PriceChangeUnit { moment: now, state: PowerState::Off, price: None }, Some(1));
    assert_eq!(state_to_enact(&cache, &now, Some(1)), Some(PowerState::Off));
    assert_eq!(state_to_enact(&cache, &berlin(2022, 3, 23, 11), Some(1)), None);
}

#[test]
fn marks_broken_configs_correctly() {
    // a good configuration stored first, a broken one after it: newest first
    let db_good = ConfigCandidate { id: 1, tried: false, decodes: true };
    let db_bad = ConfigCandidate { id: 2, tried: false, decodes: false };
    let (chosen, actions) = config_attempt_loop(&vec![db_bad, db_good]);
    assert!(chosen == Some(1));
    assert!(!actions.contains(&ConfigAction::MarkBroken(db_good.id)));
    assert!(actions.contains(&ConfigAction::MarkBroken(db_bad.id)));
}

#[test]
fn dated_tariff_table_switches_day_and_night_together() {
    let oct = (CentsPerKwh(7000), CentsPerKwh(4000));
    let dec = (CentsPerKwh(7500), CentsPerKwh(4500));
    let jan = (CentsPerKwh(8000), CentsPerKwh(5000));
    let table = kiel::price_cell::tariff_periods(oct, dec, jan).unwrap();
    assert_eq!(table.len(), 3);
    assert_eq!(table[0].effective_from, berlin(2022, 6, 1, 0));
    assert_eq!(table[1].effective_from, berlin(2022, 12, 1, 0));
    assert_eq!(table[2].effective_from, berlin(2023, 1, 1, 0));
    let december = current_tariffs(&berlin(2022, 12, 15, 3), &table);
    assert_eq!((december.0 .0, december.1 .0), (7500, 4500));
    let january = current_tariffs(&berlin(2023, 1, 15, 3), &table);
    assert_eq!((january.0 .0, january.1 .0), (8000, 5000));
    let july = current_tariffs(&berlin(2022, 7, 1, 3), &table);
    assert_eq!((july.0 .0, july.1 .0), (7000, 4000));
}

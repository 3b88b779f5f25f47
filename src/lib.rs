//! Hour-by-hour planning of a switched electrical load from day-ahead market
//! prices, a day/night tariff calendar, per-weekday configuration and manual
//! overrides, with a decision cache that makes repeated planning idempotent.

pub mod time;
pub mod holidays;
pub mod tariff;
pub mod price_cell;
pub mod price_matrix;
pub mod strategy;
pub mod config_file;
pub mod overrides;
pub mod power_state_model;
pub mod planner;
pub mod convars;
pub mod default_strategy;
pub mod sample_data;
pub mod bar_chart;
pub mod config_select;

//! Named counters and strings kept beside the decisions.

use vstd::prelude::*;

verus! {

/// The counter of configurations that failed to parse in a row.
pub const CVAR_CONFIG_FAILURE_COUNT: &'static str = "config_failures";

/// A named integer about to be stored.
#[derive(Clone, Copy, Debug)]
pub struct NewConvarInt<'a> {
    pub key: &'a str,
    pub value: i32,
}

/// A named string about to be stored.
#[derive(Clone, Copy, Debug)]
pub struct NewConvarString<'a> {
    pub key: &'a str,
    pub value: &'a str,
}

} // verus!

//! The mask that switches off every hour priced above a limit.

use crate::price_cell::total_of;
use crate::strategy::{MaskablePowerStrategy, PowerState, PriceChangeUnit};
use vstd::prelude::*;

verus! {

/// Off at every hour whose total price exceeds `limit_mwh` (hundredths per
/// MWh); every other hour keeps its state.
#[derive(Clone, Copy, Debug)]
pub struct PriceLimitStrategy {
    pub limit_mwh: i64,
}

/// What the price limit makes of one unit.
pub open spec fn limited_unit(e: PriceChangeUnit, limit: int) -> PriceChangeUnit {
    match e.price {
        Some(c) => if total_of(c) > limit {
            PriceChangeUnit { state: PowerState::Off, ..e }
        } else {
            e
        },
        None => e,
    }
}

impl MaskablePowerStrategy for PriceLimitStrategy {
    open spec fn masks_to(&self, input: Seq<PriceChangeUnit>, output: Seq<PriceChangeUnit>) -> bool {
        &&& output.len() == input.len()
        &&& forall|i: int|
            0 <= i < input.len() ==> #[trigger] output[i] == limited_unit(
                input[i],
                self.limit_mwh as int,
            )
    }

    fn plan_day_masked(&self, changes: &Vec<PriceChangeUnit>) -> (r: Vec<PriceChangeUnit>) {
        let mut out: Vec<PriceChangeUnit> = Vec::new();
        let mut i: usize = 0;
        while i < changes.len()
            invariant
                0 <= i <= changes.len(),
                out.len() == i,
                forall|k: int|
                    0 <= k < i ==> #[trigger] out@[k] == limited_unit(
                        changes@[k],
                        self.limit_mwh as int,
                    ),
            decreases changes.len() - i,
        {
            let pcu = changes[i];
            let next = match pcu.price {
                Some(price) => {
                    if price.total() > self.limit_mwh {
                        pcu.clone_with_power_state(PowerState::Off)
                    } else {
                        pcu
                    }
                },
                None => pcu,
            };
            out.push(next);
            i += 1;
        }
        out
    }
}

} // verus!

//! The mask that changes nothing.

use crate::strategy::{MaskablePowerStrategy, PriceChangeUnit};
use vstd::prelude::*;

verus! {

/// Leaves the base plan as it is.
#[derive(Clone, Copy, Debug)]
pub struct NoneStrategy;

impl MaskablePowerStrategy for NoneStrategy {
    open spec fn masks_to(&self, input: Seq<PriceChangeUnit>, output: Seq<PriceChangeUnit>) -> bool {
        output == input
    }

    fn plan_day_masked(&self, changes: &Vec<PriceChangeUnit>) -> (r: Vec<PriceChangeUnit>) {
        let mut out: Vec<PriceChangeUnit> = Vec::new();
        let mut i: usize = 0;
        while i < changes.len()
            invariant
                0 <= i <= changes.len(),
                out@ == changes@.take(i as int),
            decreases changes.len() - i,
        {
            out.push(changes[i]);
            i += 1;
            assert(out@ =~= changes@.take(i as int));
        }
        assert(changes@.take(changes.len() as int) =~= changes@);
        out
    }
}

} // verus!

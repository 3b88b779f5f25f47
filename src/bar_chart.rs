//! Chart data for a day of prices.

use vstd::prelude::*;

verus! {

/// The labels and values of `invec`, with the labels borrowed.
pub fn chart_data_as_str_ref<'a>(invec: &'a Vec<(String, u64)>) -> (r: Vec<(&'a str, u64)>)
    ensures
        r.len() == invec.len(),
        forall|i: int| 0 <= i < r.len() ==> (#[trigger] r@[i]).0@ == invec@[i].0@ && r@[i].1 == invec@[i].1,
{
    let mut result: Vec<(&'a str, u64)> = Vec::new();
    let mut i: usize = 0;
    while i < invec.len()
        invariant
            0 <= i <= invec.len(),
            result.len() == i,
            forall|k: int|
                0 <= k < i ==> (#[trigger] result@[k]).0@ == invec@[k].0@ && result@[k].1 == invec@[k].1,
        decreases invec.len() - i,
    {
        let item = &invec[i];
        result.push((item.0.as_str(), item.1));
        i += 1;
    }
    result
}

} // verus!

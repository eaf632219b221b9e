//! Progress values: the integer percentage reported to the shell after each
//! processed item, proved to stay within `0..=100`, to never decrease as a
//! run advances, and to reach exactly 100 when a run completes.

use vstd::prelude::*;
use vstd::arithmetic::div_mod::{lemma_div_is_ordered, lemma_div_multiples_vanish};
use vstd::arithmetic::mul::lemma_mul_inequality;

verus! {

/// The percentage after `processed` of `total` items: `processed * 100`,
/// divided by `total`, rounded down.
pub open spec fn spec_progress(processed: int, total: int) -> int {
    processed * 100 / total
}

/// Within one run the reported percentage never decreases, and a completed
/// run reports exactly 100.
pub proof fn lemma_progress_monotone(k1: int, k2: int, total: int)
    requires
        0 < total,
        0 <= k1 <= k2 <= total,
    ensures
        0 <= spec_progress(k1, total) <= spec_progress(k2, total) <= 100,
        spec_progress(total, total) == 100,
{
    lemma_mul_inequality(k1, k2, 100);
    lemma_mul_inequality(k2, total, 100);
    lemma_div_is_ordered(k1 * 100, k2 * 100, total);
    lemma_div_is_ordered(k2 * 100, total * 100, total);
    lemma_div_multiples_vanish(100, total);
    lemma_div_is_ordered(0, k1 * 100, total);
}

/// Compute the percentage after `processed` of `total` items.
pub fn progress_value(processed: usize, total: usize) -> (p: i32)
    requires
        0 < total,
        processed <= total,
    ensures
        p == spec_progress(processed as int, total as int),
        0 <= p <= 100,
        processed == total ==> p == 100,
{
    proof {
        lemma_progress_monotone(processed as int, processed as int, total as int);
        lemma_progress_monotone(processed as int, total as int, total as int);
    }
    let v: u128 = (processed as u128) * 100 / (total as u128);
    v as i32
}

} // verus!

//! Build-time constants of the scheduler.
use vstd::prelude::*;

verus! {

/// Scale of the stride increments: a task of priority `p` advances by
/// `BIG_STRIDE / p` each time it is granted the processor.
pub const BIG_STRIDE: u64 = 1048576;

/// Smallest priority a task may have.
pub const MIN_PRIORITY: u64 = 2;

/// Largest priority a task may have; it keeps every increment at least 1.
pub const MAX_PRIORITY: u64 = 1048576;

/// Priority given to every task at creation.
pub const DEFAULT_PRIORITY: u64 = 16;

/// The stride increment for a task of priority `prior`.
pub open spec fn stride_inc(prior: u64) -> u64 {
    (BIG_STRIDE / prior) as u64
}

/// Returns the stride increment for a task of priority `prior`.
pub fn stride_increment(prior: u64) -> (r: u64)
    requires
        MIN_PRIORITY <= prior <= MAX_PRIORITY,
    ensures
        r == stride_inc(prior),
        1 <= r <= BIG_STRIDE / 2,
{
    assert(1 <= BIG_STRIDE / prior <= BIG_STRIDE / 2) by (nonlinear_arith)
        requires
            2 <= prior <= BIG_STRIDE,
            BIG_STRIDE == 1048576,
    ;
    BIG_STRIDE / prior
}

} // verus!

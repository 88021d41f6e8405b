//! Fixed-cadence pacing: how long a tick may take and how long to sleep after it.
use vstd::prelude::*;

verus! {

pub const NANOS_PER_SEC: u64 = 1_000_000_000;

/// The time budget of one tick at `fps` ticks per second, in nanoseconds;
/// `None` when `fps` is zero.
pub fn tick_budget_nanos(fps: u32) -> (r: Option<u64>)
    ensures
        fps == 0 <==> r is None,
        fps > 0 ==> r == Some((NANOS_PER_SEC / fps as u64) as u64),
{
    if fps == 0 {
        None
    } else {
        Some(NANOS_PER_SEC / fps as u64)
    }
}

/// How long to sleep once a tick's work took `elapsed_nanos` of a
/// `budget_nanos` budget: the remainder of the budget, or zero when the work
/// overran it. Missed ticks are never made up.
pub fn sleep_nanos(budget_nanos: u64, elapsed_nanos: u64) -> (r: u64)
    ensures
        elapsed_nanos <= budget_nanos ==> r == budget_nanos - elapsed_nanos,
        elapsed_nanos > budget_nanos ==> r == 0,
{
    if elapsed_nanos <= budget_nanos {
        budget_nanos - elapsed_nanos
    } else {
        0
    }
}

} // verus!

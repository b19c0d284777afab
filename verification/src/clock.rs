//! The clock tick: when the next wall-clock second boundary is due.

use vstd::prelude::*;

verus! {

/// Nanoseconds in a second.
pub const NANOS_PER_SECOND: u64 = 1_000_000_000;

/// How far past the boundary the tick is set, so that it cannot fire twice
/// for one second: one millisecond, in nanoseconds.
pub const TICK_SKEW_NANOS: u64 = 1_000_000;

/// `SystemTime::now`, since the Unix epoch (zero before it), and
/// `Duration::subsec_nanos` of that: the nanoseconds into the current
/// second, which are less than a second.
#[verifier::external_body]
fn now_subsec_nanos() -> (r: u32)
    ensures
        r < NANOS_PER_SECOND,
{
    std::time::SystemTime::now().duration_since(std::time::UNIX_EPOCH).unwrap_or_default().subsec_nanos()
}

/// Nanoseconds from `subsec_nanos` into a second to one skew past the next
/// second boundary.
pub open spec fn until_boundary(subsec_nanos: int) -> int {
    NANOS_PER_SECOND - subsec_nanos + TICK_SKEW_NANOS
}

/// Nanoseconds from `subsec_nanos` into a second to just past the next
/// second boundary.
pub fn until_next_second_from(subsec_nanos: u32) -> (r: u64)
    requires
        subsec_nanos < NANOS_PER_SECOND,
    ensures
        r == until_boundary(subsec_nanos as int),
{
    NANOS_PER_SECOND - subsec_nanos as u64 + TICK_SKEW_NANOS
}

/// Nanoseconds from now to just past the next second boundary.
pub fn until_next_second() -> (r: u64)
    ensures
        TICK_SKEW_NANOS < r <= NANOS_PER_SECOND + TICK_SKEW_NANOS,
{
    until_next_second_from(now_subsec_nanos())
}

/// A tick set at any instant lands in the next second, one skew past its
/// start: never in the same second, never a whole second late.
pub proof fn lemma_tick_lands_after_boundary(secs: int, subsec_nanos: int)
    requires
        0 <= subsec_nanos < NANOS_PER_SECOND,
    ensures
        secs * NANOS_PER_SECOND + subsec_nanos + until_boundary(subsec_nanos) == (secs + 1)
            * NANOS_PER_SECOND + TICK_SKEW_NANOS,
        TICK_SKEW_NANOS < NANOS_PER_SECOND,
{
    assert((secs + 1) * NANOS_PER_SECOND == secs * NANOS_PER_SECOND + NANOS_PER_SECOND) by (nonlinear_arith);
}

} // verus!

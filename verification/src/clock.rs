//! Time as the stores see it: readings of a monotonic clock, in nanoseconds
//! since an origin that the caller fixes once. Nothing here reads a clock;
//! every operation that depends on time takes the current reading as an
//! argument.

use vstd::prelude::*;

verus! {

/// Nanoseconds in one second.
pub const NANOS_PER_SEC: u64 = 1_000_000_000;

/// A length of time: whole seconds and the nanoseconds beyond them.
#[derive(Clone, Copy, Debug, PartialEq, Eq, Structural)]
pub struct Span {
    pub secs: u64,
    pub nanos: u32,
}

impl Span {
    /// The nanosecond part stays below one second.
    pub open spec fn wf(self) -> bool {
        self.nanos < NANOS_PER_SEC
    }

    /// The span in nanoseconds.
    pub open spec fn total_nanos(self) -> nat {
        (self.secs * NANOS_PER_SEC + self.nanos) as nat
    }
}

/// Nanoseconds that have passed at reading `now` since reading `since`; zero
/// when `now` lies before `since`.
pub open spec fn elapsed(now: u64, since: u64) -> nat {
    if now >= since {
        (now - since) as nat
    } else {
        0
    }
}

/// What is left of `limit_secs` seconds once `elapsed_nanos` have passed:
/// the difference while the limit is not yet exceeded (zero at the limit
/// itself), nothing after it.
pub open spec fn remaining(limit_secs: u64, elapsed_nanos: nat) -> Option<nat> {
    if elapsed_nanos <= limit_secs * NANOS_PER_SEC {
        Some((limit_secs * NANOS_PER_SEC - elapsed_nanos) as nat)
    } else {
        None
    }
}

/// Nanoseconds that have passed at reading `now` since reading `since`.
pub fn elapsed_nanos(now: u64, since: u64) -> (passed: u64)
    ensures
        passed == elapsed(now, since),
{
    if now >= since {
        now - since
    } else {
        0
    }
}

/// Subtracts the time passed from a limit given in seconds, without
/// overflow for any limit.
pub fn time_left(limit_secs: u64, elapsed_nanos: u64) -> (left: Option<Span>)
    ensures
        left is Some <==> remaining(limit_secs, elapsed_nanos as nat) is Some,
        left matches Some(span) ==> span.wf() && Some(span.total_nanos()) == remaining(
            limit_secs,
            elapsed_nanos as nat,
        ),
{
    let passed_secs: u64 = elapsed_nanos / NANOS_PER_SEC;
    let passed_nanos: u64 = elapsed_nanos % NANOS_PER_SEC;
    if passed_secs > limit_secs || (passed_secs == limit_secs && passed_nanos > 0) {
        assert(elapsed_nanos > limit_secs * NANOS_PER_SEC) by (nonlinear_arith)
            requires
                elapsed_nanos == passed_secs * NANOS_PER_SEC + passed_nanos,
                passed_secs > limit_secs || (passed_secs == limit_secs && passed_nanos > 0),
                0 <= passed_nanos,
        ;
        None
    } else if passed_nanos == 0 {
        let span = Span { secs: limit_secs - passed_secs, nanos: 0 };
        assert(span.total_nanos() == limit_secs * NANOS_PER_SEC - elapsed_nanos)
            by (nonlinear_arith)
            requires
                elapsed_nanos == passed_secs * NANOS_PER_SEC,
                passed_secs <= limit_secs,
                span.secs == limit_secs - passed_secs,
                span.nanos == 0,
        ;
        Some(span)
    } else {
        let span = Span {
            secs: limit_secs - passed_secs - 1,
            nanos: (NANOS_PER_SEC - passed_nanos) as u32,
        };
        assert(span.total_nanos() == limit_secs * NANOS_PER_SEC - elapsed_nanos)
            by (nonlinear_arith)
            requires
                elapsed_nanos == passed_secs * NANOS_PER_SEC + passed_nanos,
                passed_secs < limit_secs,
                0 < passed_nanos < NANOS_PER_SEC,
                span.secs == limit_secs - passed_secs - 1,
                span.nanos == NANOS_PER_SEC - passed_nanos,
        ;
        Some(span)
    }
}

} // verus!

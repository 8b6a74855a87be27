//! Spans of time with nanosecond precision.

use vstd::prelude::*;

verus! {

/// The number of nanoseconds in one second.
pub const NANOS_PER_SEC: u32 = 1_000_000_000;

/// A span of time: whole seconds plus a sub-second part in nanoseconds.
///
/// The view of a duration is its total length in nanoseconds.
#[derive(Clone, Copy, Debug, PartialEq, Eq, PartialOrd, Ord, Hash)]
pub struct Duration {
    secs: u64,
    nanos: u32,
}

impl View for Duration {
    type V = nat;

    closed spec fn view(&self) -> nat {
        (self.secs as nat) * 1_000_000_000 + (self.nanos as nat)
    }
}

impl Duration {
    #[verifier::type_invariant]
    spec fn normalized(self) -> bool {
        self.nanos < 1_000_000_000
    }

    /// The longest span that can be represented, in nanoseconds.
    pub open spec fn max_nanos() -> nat {
        (u64::MAX as nat) * 1_000_000_000 + 999_999_999
    }

    /// The empty span.
    pub fn zero() -> (d: Duration)
        ensures
            d@ == 0,
    {
        Duration { secs: 0, nanos: 0 }
    }

    /// A span of `secs` seconds and `nanos` further nanoseconds. Nanoseconds
    /// beyond one second carry over into the seconds; the result is `None`
    /// exactly when that carry overflows.
    pub fn new(secs: u64, nanos: u32) -> (r: Option<Duration>)
        ensures
            r is Some <==> (secs as nat) * 1_000_000_000 + (nanos as nat) <= Self::max_nanos(),
            r matches Some(d) ==> d@ == (secs as nat) * 1_000_000_000 + (nanos as nat),
    {
        let carry: u64 = (nanos / NANOS_PER_SEC) as u64;
        let rest: u32 = nanos % NANOS_PER_SEC;
        if secs > u64::MAX - carry {
            None
        } else {
            Some(Duration { secs: secs + carry, nanos: rest })
        }
    }

    /// A span of whole seconds.
    pub fn from_secs(secs: u64) -> (d: Duration)
        ensures
            d@ == (secs as nat) * 1_000_000_000,
    {
        Duration { secs, nanos: 0 }
    }

    /// A span of whole milliseconds.
    pub fn from_millis(millis: u64) -> (d: Duration)
        ensures
            d@ == (millis as nat) * 1_000_000,
    {
        let sub: u32 = (millis % 1000) as u32;
        Duration { secs: millis / 1000, nanos: sub * 1_000_000 }
    }

    /// A span of nanoseconds.
    pub fn from_nanos(nanos: u64) -> (d: Duration)
        ensures
            d@ == nanos as nat,
    {
        let per_sec: u64 = 1_000_000_000;
        Duration { secs: nanos / per_sec, nanos: (nanos % per_sec) as u32 }
    }

    /// The whole seconds of this span.
    pub fn as_secs(&self) -> (s: u64)
        ensures
            s as nat == self@ / 1_000_000_000,
    {
        proof {
            use_type_invariant(self);
        }
        self.secs
    }

    /// The part of this span below one second, in nanoseconds.
    pub fn subsec_nanos(&self) -> (n: u32)
        ensures
            n as nat == self@ % 1_000_000_000,
    {
        proof {
            use_type_invariant(self);
        }
        self.nanos
    }

    /// The total length of this span in nanoseconds.
    pub fn as_nanos(&self) -> (n: u128)
        ensures
            n as nat == self@,
    {
        proof {
            use_type_invariant(self);
        }
        (self.secs as u128) * 1_000_000_000 + (self.nanos as u128)
    }

    /// Whether this span reaches from its origin to the end of `span`, when
    /// `span` starts at `start`.
    pub fn reaches(&self, start: &Duration, span: &Duration) -> (b: bool)
        ensures
            b == (start@ + span@ <= self@),
    {
        self.as_nanos() >= start.as_nanos() + span.as_nanos()
    }

    /// This span divided by `rhs`, rounded down; `None` exactly when `rhs` is
    /// zero.
    pub fn checked_div(self, rhs: u32) -> (r: Option<Duration>)
        ensures
            r is None <==> rhs == 0,
            r matches Some(d) ==> d@ == self@ / (rhs as nat),
    {
        if rhs == 0 {
            return None;
        }
        proof {
            use_type_invariant(self);
        }
        let total: u128 = self.as_nanos();
        let quotient: u128 = total / (rhs as u128);
        let secs: u128 = quotient / 1_000_000_000;
        let nanos: u128 = quotient % 1_000_000_000;
        assert(quotient <= total) by (nonlinear_arith)
            requires
                quotient == total / (rhs as u128),
                rhs >= 1,
        ;
        Some(Duration { secs: secs as u64, nanos: nanos as u32 })
    }
}

} // verus!

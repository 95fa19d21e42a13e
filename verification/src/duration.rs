//! A span of time with nanosecond resolution, kept as whole seconds plus a
//! sub-second nanosecond count, with exact (overflow-checked) arithmetic.

use vstd::prelude::*;

verus! {

/// A non-negative span of time: `secs` whole seconds plus `nanos`
/// sub-second nanoseconds. Well-formed values keep `nanos` below one
/// second's worth of nanoseconds.
#[derive(Clone, Copy, Debug, PartialEq, Eq, Structural)]
pub struct Dur {
    pub secs: u64,
    pub nanos: u32,
}

/// The largest total nanosecond count a well-formed `Dur` can hold.
pub open spec fn max_dur_ns() -> int {
    u64::MAX * 1_000_000_000 + 999_999_999
}

/// The well-formed `Dur` holding exactly `n` nanoseconds.
pub open spec fn dur_from_ns(n: int) -> Dur {
    Dur { secs: (n / 1_000_000_000) as u64, nanos: (n % 1_000_000_000) as u32 }
}

impl Dur {
    /// The sub-second part is less than one second.
    pub open spec fn wf(self) -> bool {
        self.nanos < 1_000_000_000
    }

    /// The whole span as a nanosecond count.
    pub open spec fn total_ns(self) -> int {
        self.secs * 1_000_000_000 + self.nanos
    }

    /// The zero duration.
    pub fn zero() -> (r: Dur)
        ensures
            r.wf(),
            r.total_ns() == 0,
    {
        Dur { secs: 0, nanos: 0 }
    }

    /// Builds a duration from whole seconds and sub-second nanoseconds.
    pub fn new(secs: u64, nanos: u32) -> (r: Dur)
        requires
            nanos < 1_000_000_000,
        ensures
            r.wf(),
            r == (Dur { secs, nanos }),
    {
        Dur { secs, nanos }
    }

    /// Exact sum of two durations; the caller guarantees the sum fits.
    pub fn plus(&self, other: &Dur) -> (r: Dur)
        requires
            self.wf(),
            other.wf(),
            self.total_ns() + other.total_ns() <= max_dur_ns(),
        ensures
            r.wf(),
            r.total_ns() == self.total_ns() + other.total_ns(),
    {
        proof {
            assert(self.secs + other.secs <= u64::MAX) by (nonlinear_arith)
                requires
                    self.total_ns() + other.total_ns() <= max_dur_ns(),
                    self.wf(),
                    other.wf(),
            ;
        }
        let mut secs: u64 = self.secs + other.secs;
        let mut nanos: u32 = self.nanos + other.nanos;
        if nanos >= 1_000_000_000 {
            proof {
                assert(self.secs + other.secs + 1 <= u64::MAX) by (nonlinear_arith)
                    requires
                        self.total_ns() + other.total_ns() <= max_dur_ns(),
                        self.wf(),
                        other.wf(),
                        self.nanos + other.nanos >= 1_000_000_000,
                ;
            }
            nanos = nanos - 1_000_000_000;
            secs = secs + 1;
        }
        Dur { secs, nanos }
    }

    /// Whether the sum of two durations stays within the representable range,
    /// so that `plus` may be called.
    pub fn can_add(&self, other: &Dur) -> (b: bool)
        requires
            self.wf(),
            other.wf(),
        ensures
            b == (self.total_ns() + other.total_ns() <= max_dur_ns()),
    {
        let carry: u64 = if self.nanos + other.nanos >= 1_000_000_000 {
            1
        } else {
            0
        };
        let fits: bool = match self.secs.checked_add(other.secs) {
            Some(s) => s.checked_add(carry).is_some(),
            None => false,
        };
        proof {
            assert(fits == (self.total_ns() + other.total_ns() <= max_dur_ns()))
                by (nonlinear_arith)
                requires
                    self.wf(),
                    other.wf(),
                    carry == (if self.nanos + other.nanos >= 1_000_000_000 { 1int } else { 0int }),
                    fits == (self.secs + other.secs + carry <= u64::MAX),
            ;
        }
        fits
    }

    /// Exact division by a positive count, truncating at nanosecond
    /// resolution: the result holds `total_ns / n` nanoseconds.
    pub fn div_by(&self, n: u32) -> (r: Dur)
        requires
            self.wf(),
            n >= 1,
        ensures
            r.wf(),
            r.total_ns() == self.total_ns() / (n as int),
    {
        let total: u128 = (self.secs as u128) * 1_000_000_000 + (self.nanos as u128);
        let q: u128 = total / (n as u128);
        let secs_part: u128 = q / 1_000_000_000;
        let nanos_part: u128 = q % 1_000_000_000;
        proof {
            assert(total == self.total_ns());
            assert(q <= total) by {
                vstd::arithmetic::div_mod::lemma_div_is_ordered_by_denominator(
                    total as int,
                    1,
                    n as int,
                );
                vstd::arithmetic::div_mod::lemma_div_basics(total as int);
            };
            assert(max_dur_ns() / 1_000_000_000 == u64::MAX) by {
                vstd::arithmetic::div_mod::lemma_fundamental_div_mod_converse(
                    max_dur_ns(),
                    1_000_000_000,
                    u64::MAX as int,
                    999_999_999,
                );
            };
            assert(secs_part <= u64::MAX) by {
                vstd::arithmetic::div_mod::lemma_div_is_ordered(
                    q as int,
                    max_dur_ns(),
                    1_000_000_000,
                );
            };
            assert(q == 1_000_000_000 * secs_part + nanos_part) by {
                vstd::arithmetic::div_mod::lemma_fundamental_div_mod(q as int, 1_000_000_000);
            };
        }
        Dur { secs: secs_part as u64, nanos: nanos_part as u32 }
    }
}

/// A well-formed duration is exactly the duration rebuilt from its own
/// nanosecond total: the representation is canonical.
pub proof fn lemma_dur_canonical(d: Dur)
    requires
        d.wf(),
    ensures
        d == dur_from_ns(d.total_ns()),
{
    vstd::arithmetic::div_mod::lemma_fundamental_div_mod_converse(
        d.total_ns(),
        1_000_000_000,
        d.secs as int,
        d.nanos as int,
    );
}

} // verus!

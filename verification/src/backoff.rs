//! Exponential backoff: a per-agent delay calculator for restart and
//! retry logic.
//!
//! The delay for attempt `a` is `min(base * factor^a, max_delay)`.
//! With jitter enabled, a bounded offset derived from a deterministic
//! linear-congruential generator is subtracted, so that the result
//! stays within `[delay - delay/2, delay]` and runs are reproducible
//! for a fixed seed.

use vstd::prelude::*;
use vstd::arithmetic::div_mod::lemma_fundamental_div_mod;
use vstd::arithmetic::mul::lemma_mul_inequality;

verus! {

/// The undithered delay for the given attempt:
/// `min(base * factor^attempt, max_delay)`, computed by capped
/// repeated multiplication.
pub open spec fn raw_delay(base: u64, factor: u64, max_delay: u64, attempt: nat) -> int
    decreases attempt,
{
    if attempt == 0 {
        if base <= max_delay {
            base as int
        } else {
            max_delay as int
        }
    } else {
        let prev = raw_delay(base, factor, max_delay, (attempt - 1) as nat);
        if prev * factor <= max_delay {
            prev * factor
        } else {
            max_delay as int
        }
    }
}

/// Successor state of the delay calculator's deterministic jitter
/// generator.
pub open spec fn lcg_next(s: u64) -> int {
    (s * 6364136223846793005 + 1442695040888963407) % 0x10000000000000000
}

/// Delays stay within `[0, max_delay]` for every attempt.
pub proof fn lemma_backoff_capped(base: u64, factor: u64, max_delay: u64, attempt: nat)
    ensures
        0 <= raw_delay(base, factor, max_delay, attempt) <= max_delay,
    decreases attempt,
{
    if attempt > 0 {
        lemma_backoff_capped(base, factor, max_delay, (attempt - 1) as nat);
        let prev = raw_delay(base, factor, max_delay, (attempt - 1) as nat);
        assert(prev * factor >= 0) by (nonlinear_arith)
            requires
                prev >= 0,
                factor >= 0,
        ;
    }
}

/// Absent jitter the delay sequence is non-decreasing in the attempt
/// number whenever the multiplier is at least one.
pub proof fn lemma_backoff_monotonic(base: u64, factor: u64, max_delay: u64, a1: nat, a2: nat)
    requires
        factor >= 1,
        a1 <= a2,
    ensures
        raw_delay(base, factor, max_delay, a1) <= raw_delay(base, factor, max_delay, a2),
    decreases a2 - a1,
{
    if a1 < a2 {
        lemma_backoff_monotonic(base, factor, max_delay, a1, (a2 - 1) as nat);
        let prev = raw_delay(base, factor, max_delay, (a2 - 1) as nat);
        lemma_backoff_capped(base, factor, max_delay, (a2 - 1) as nat);
        assert(prev <= prev * factor) by (nonlinear_arith)
            requires
                prev >= 0,
                factor >= 1,
        ;
    }
}

/// The first delay after a reset is the base value (capped at the
/// maximum).
pub proof fn lemma_backoff_reset_base(base: u64, factor: u64, max_delay: u64)
    ensures
        raw_delay(base, factor, max_delay, 0) == if base <= max_delay {
            base as int
        } else {
            max_delay as int
        },
{
}

/// Stateful delay calculator: configuration plus the current attempt
/// number and the jitter generator's state.
#[derive(Debug, Clone, Copy, PartialEq, Eq, Structural)]
pub struct ExponentialBackoff {
    pub base: u64,
    pub factor: u64,
    pub max_delay: u64,
    pub attempt: u32,
    pub jitter: bool,
    pub seed: u64,
}

impl ExponentialBackoff {
    /// A usable multiplier.
    pub open spec fn wf(self) -> bool {
        self.factor >= 1
    }

    /// Creates a calculator at attempt zero.
    pub fn new(base: u64, factor: u64, max_delay: u64, jitter: bool, seed: u64) -> (r: Self)
        requires
            factor >= 1,
        ensures
            r.wf(),
            r.base == base,
            r.factor == factor,
            r.max_delay == max_delay,
            r.attempt == 0,
            r.jitter == jitter,
            r.seed == seed,
    {
        ExponentialBackoff { base, factor, max_delay, attempt: 0, jitter, seed }
    }

    /// Returns the delay for the current attempt and advances the
    /// attempt counter (saturating at the machine limit). Without
    /// jitter the result is exactly `min(base * factor^attempt,
    /// max_delay)`; with jitter a bounded generator-derived offset of
    /// at most half the delay is subtracted.
    pub fn next_delay(&mut self) -> (d: u64)
        requires
            old(self).wf(),
        ensures
            final(self).wf(),
            final(self).base == old(self).base,
            final(self).factor == old(self).factor,
            final(self).max_delay == old(self).max_delay,
            final(self).jitter == old(self).jitter,
            final(self).attempt == if old(self).attempt < u32::MAX {
                old(self).attempt + 1
            } else {
                u32::MAX as int
            },
            d <= raw_delay(old(self).base, old(self).factor, old(self).max_delay, old(self).attempt as nat),
            d <= old(self).max_delay,
            !old(self).jitter ==> d == raw_delay(
                old(self).base,
                old(self).factor,
                old(self).max_delay,
                old(self).attempt as nat,
            ) && final(self).seed == old(self).seed,
            old(self).jitter ==> final(self).seed == lcg_next(old(self).seed) && d
                == raw_delay(old(self).base, old(self).factor, old(self).max_delay, old(self).attempt as nat)
                - lcg_next(old(self).seed) % (raw_delay(
                old(self).base,
                old(self).factor,
                old(self).max_delay,
                old(self).attempt as nat,
            ) / 2 + 1) && d >= raw_delay(
                old(self).base,
                old(self).factor,
                old(self).max_delay,
                old(self).attempt as nat,
            ) - raw_delay(old(self).base, old(self).factor, old(self).max_delay, old(self).attempt as nat) / 2,
    {
        let ghost gb = self.base;
        let ghost gf = self.factor;
        let ghost gm = self.max_delay;
        let mut d: u64 = if self.base <= self.max_delay {
            self.base
        } else {
            self.max_delay
        };
        let mut i: u32 = 0;
        while i < self.attempt
            invariant
                self.wf(),
                i <= self.attempt,
                gb == self.base && gf == self.factor && gm == self.max_delay,
                d == raw_delay(gb, gf, gm, i as nat),
                d <= gm,
            decreases self.attempt - i,
        {
            let q = self.max_delay / self.factor;
            proof {
                lemma_fundamental_div_mod(gm as int, gf as int);
            }
            if d <= q {
                proof {
                    lemma_mul_inequality(d as int, q as int, gf as int);
                }
                let nd = d * self.factor;
                if nd <= self.max_delay {
                    d = nd;
                } else {
                    d = self.max_delay;
                }
            } else {
                proof {
                    assert(d * gf > gm) by (nonlinear_arith)
                        requires
                            d > gm / gf,
                            gf >= 1,
                            gm == gf * (gm / gf) + gm % gf,
                            0 <= gm % gf < gf,
                    ;
                }
                d = self.max_delay;
            }
            i = i + 1;
        }
        proof {
            lemma_backoff_capped(gb, gf, gm, self.attempt as nat);
        }
        if self.attempt < u32::MAX {
            self.attempt = self.attempt + 1;
        }
        if self.jitter {
            let wide: u128 = (self.seed as u128) * 6364136223846793005u128
                + 1442695040888963407u128;
            proof {
                assert((self.seed as u128) * 6364136223846793005u128 <= (u64::MAX as u128)
                    * 6364136223846793005u128) by (nonlinear_arith)
                    requires
                        self.seed <= u64::MAX,
                ;
            }
            self.seed = (wide % 0x10000000000000000u128) as u64;
            let half = d / 2;
            let offset = self.seed % (half + 1);
            d = d - offset;
        }
        d
    }

    /// Zeroes the attempt counter so the next delay is the base value
    /// again.
    pub fn reset(&mut self)
        ensures
            *final(self) == (ExponentialBackoff { attempt: 0, ..*old(self) }),
    {
        self.attempt = 0;
    }

    /// The current attempt number.
    pub fn attempt(&self) -> (r: u32)
        ensures
            r == self.attempt,
    {
        self.attempt
    }
}

} // verus!

//! Token-bucket admission control, in fixed-point arithmetic: token counts
//! and pending delays are held in micro-tokens and time in microseconds, so
//! every step is exact. The caller supplies the clock readings and performs
//! the actual waiting; every decision is made here.

use vstd::prelude::*;

verus! {

/// Micro-units per whole unit: one token is `MICRO` micro-tokens, one second
/// is `MICRO` microseconds.
pub const MICRO: u64 = 1000000;

/// The floor token counts saturate at; far below anything reachable in
/// practice, it only keeps repeated backoff from underflowing.
pub const TOKENS_MIN: i128 = -0x40000000000000000000000000000000;

/// A token bucket: `rate` is both the refill factor and the capacity, `per`
/// the refill period, and `offset` a pending backoff delay that the next
/// refill subtracts.
#[derive(Debug, Clone, Copy)]
pub struct RateLimiter {
    /// Available tokens, in micro-tokens; backoff can push it negative.
    pub tokens: i128,
    /// Clock reading of the last refill, in microseconds.
    pub last_timestamp: u64,
    /// Rate, in micro-tokens per period; also the bucket capacity.
    pub rate: u64,
    /// Period, in microseconds.
    pub per: u64,
    /// Pending delay from backoff signals, folded into the next refill.
    pub offset: u64,
}

impl RateLimiter {
    /// The bucket is well formed: positive rate and period, and a token count
    /// between the saturation floor and the capacity.
    pub open spec fn wf(&self) -> bool {
        1 <= self.rate && 1 <= self.per && TOKENS_MIN <= self.tokens <= self.rate as i128
    }

    /// A full bucket whose last refill is the given clock reading.
    pub fn new(rate: u64, per: u64, now: u64) -> (r: RateLimiter)
        requires
            1 <= rate,
            1 <= per,
        ensures
            r.wf(),
            r.tokens == rate as i128,
            r.last_timestamp == now,
            r.rate == rate,
            r.per == per,
            r.offset == 0,
    {
        RateLimiter { tokens: rate as i128, last_timestamp: now, rate, per, offset: 0 }
    }

    /// Accumulate a backoff delay, in micro-units; the next refill will yield
    /// that much less. Saturates rather than overflowing.
    pub fn add_delay(&mut self, delay: u64)
        ensures
            final(self).offset == (if old(self).offset + delay > u64::MAX {
                u64::MAX as int
            } else {
                old(self).offset + delay
            }),
            final(self).tokens == old(self).tokens,
            final(self).last_timestamp == old(self).last_timestamp,
            final(self).rate == old(self).rate,
            final(self).per == old(self).per,
    {
        if self.offset > u64::MAX - delay {
            self.offset = u64::MAX;
        } else {
            self.offset = self.offset + delay;
        }
    }

    /// Tokens gained over `elapsed` microseconds, before any clamping.
    pub open spec fn refill_raw(elapsed: int, per: int, rate: int) -> int {
        elapsed * (MICRO as int) * (MICRO as int) / (per * rate)
    }

    /// The refill a single step grants: the raw amount, held to `u64` range.
    pub open spec fn refill_amount(elapsed: int, per: int, rate: int) -> int {
        if Self::refill_raw(elapsed, per, rate) > u64::MAX as int {
            u64::MAX as int
        } else {
            Self::refill_raw(elapsed, per, rate)
        }
    }

    /// The token count after refilling at clock reading `now`: add the refill
    /// for the elapsed time, subtract the pending delay, and clamp to the
    /// capacity above and the saturation floor below.
    pub open spec fn tokens_after_refill(self, now: int) -> int {
        let refill = Self::refill_amount(now - self.last_timestamp, self.per as int,
            self.rate as int);
        let raw = self.tokens + refill - self.offset;
        if raw > self.rate as int {
            self.rate as int
        } else if raw < TOKENS_MIN {
            TOKENS_MIN as int
        } else {
            raw
        }
    }

    /// Whether a refill at `now` leaves at least one whole token.
    pub open spec fn admits(self, now: int) -> bool {
        self.tokens_after_refill(now) >= MICRO as int
    }

    /// Refill the bucket at clock reading `now`, then admit the request and
    /// take one token, or refuse it. The pending delay is consumed either
    /// way.
    pub fn can_make_request(&mut self, now: u64) -> (r: bool)
        requires
            old(self).wf(),
            now >= old(self).last_timestamp,
        ensures
            r == old(self).admits(now as int),
            final(self).tokens == (if r {
                old(self).tokens_after_refill(now as int) - MICRO
            } else {
                old(self).tokens_after_refill(now as int)
            }),
            final(self).last_timestamp == now,
            final(self).offset == 0,
            final(self).rate == old(self).rate,
            final(self).per == old(self).per,
            final(self).wf(),
    {
        let elapsed = now - self.last_timestamp;
        proof {
            assert((elapsed as int) * (MICRO as int) * (MICRO as int) <= u128::MAX as int)
                by (nonlinear_arith)
                requires
                    elapsed as int <= u64::MAX as int,
                    MICRO == 1000000u64,
            ;
            assert((self.per as int) * (self.rate as int) <= u128::MAX as int)
                by (nonlinear_arith)
                requires
                    self.per as int <= u64::MAX as int,
                    self.rate as int <= u64::MAX as int,
            ;
        }
        let prod = (elapsed as u128) * (MICRO as u128) * (MICRO as u128);
        let den = (self.per as u128) * (self.rate as u128);
        proof {
            assert(den >= 1) by (nonlinear_arith)
                requires
                    self.per >= 1,
                    self.rate >= 1,
                    den == (self.per as u128) * (self.rate as u128),
            ;
        }
        let refill_wide = prod / den;
        proof {
            assert(refill_wide as int == Self::refill_raw(elapsed as int, self.per as int,
                self.rate as int));
        }
        let refill: u64 = if refill_wide > u64::MAX as u128 {
            u64::MAX
        } else {
            refill_wide as u64
        };
        let mut t: i128 = self.tokens + refill as i128;
        t = t - self.offset as i128;
        if t > self.rate as i128 {
            t = self.rate as i128;
        }
        if t < TOKENS_MIN {
            t = TOKENS_MIN;
        }
        self.offset = 0;
        self.last_timestamp = now;
        if t < MICRO as i128 {
            self.tokens = t;
            false
        } else {
            self.tokens = t - MICRO as i128;
            true
        }
    }

    /// How long a refused caller should wait before asking again: one token's
    /// worth of period, less the time already elapsed since the last refill.
    pub open spec fn wait_hint(self, now: int) -> int {
        let w = self.per as int * MICRO as int / self.rate as int;
        let remaining = w - (now - self.last_timestamp);
        if remaining < 0 {
            0
        } else if remaining > u64::MAX as int {
            u64::MAX as int
        } else {
            remaining
        }
    }

    /// Exec counterpart of `wait_hint`, in microseconds.
    pub fn time_to_wait(&self, now: u64) -> (r: u64)
        requires
            self.wf(),
            now >= self.last_timestamp,
        ensures
            r == self.wait_hint(now as int),
    {
        let w_wide = (self.per as u128) * (MICRO as u128) / (self.rate as u128);
        proof {
            assert(w_wide as int == self.per as int * MICRO as int / self.rate as int);
        }
        let elapsed = (now - self.last_timestamp) as u128;
        if w_wide <= elapsed {
            0
        } else {
            let rem = w_wide - elapsed;
            if rem > u64::MAX as u128 {
                u64::MAX
            } else {
                rem as u64
            }
        }
    }
}

impl RateLimiter {
    /// One round of `acquire`: refill at `now` and either admit the request,
    /// or say how long to wait before asking again. The caller performs the
    /// wait and retries; nothing here blocks.
    pub fn acquire_step(&mut self, now: u64) -> (r: Option<u64>)
        requires
            old(self).wf(),
            now >= old(self).last_timestamp,
        ensures
            final(self).wf(),
            final(self).last_timestamp == now,
            r is None <==> old(self).admits(now as int),
            final(self).tokens == (if r is None {
                old(self).tokens_after_refill(now as int) - MICRO
            } else {
                old(self).tokens_after_refill(now as int)
            }),
            r is Some ==> r->Some_0 == final(self).wait_hint(now as int),
    {
        if self.can_make_request(now) {
            None
        } else {
            Some(self.time_to_wait(now))
        }
    }
}

/// Backoff throttles: of two buckets alike in every field but the pending
/// delay, the one owing more delay refills to no more tokens, and is admitted
/// at a clock reading only if the other is too. So after `add_delay`, the
/// next `acquire` waits at least as long as it would have without it.
pub proof fn lemma_add_delay_throttles(l1: RateLimiter, l2: RateLimiter, now: int)
    requires
        l1.wf(),
        l2.wf(),
        l1.rate == l2.rate,
        l1.per == l2.per,
        l1.last_timestamp == l2.last_timestamp,
        l1.tokens == l2.tokens,
        l1.offset <= l2.offset,
        now >= l1.last_timestamp,
    ensures
        l2.tokens_after_refill(now) <= l1.tokens_after_refill(now),
        l2.admits(now) ==> l1.admits(now),
{
}

} // verus!

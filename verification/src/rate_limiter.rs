//! Global admission control: one token bucket shared by the whole process.
//!
//! The bucket holds fractional tokens in nanotoken units (one token =
//! [`NANOS_PER_TOKEN`] units) so that the continuous refill computed from
//! elapsed wall-clock nanoseconds stays in integer arithmetic. The raw
//! counters are private: callers go through [`TokenBucket::try_admit`] (or
//! [`TokenBucket::admit_at`] with an explicit clock reading) only.

use vstd::prelude::*;

verus! {

/// Nanotoken units per whole token; also the cost of one admission.
pub const NANOS_PER_TOKEN: u64 = 1_000_000_000;

/// A global token bucket: capacity `burst_size` tokens, refilled at
/// `rate_per_second` tokens per second, continuously from elapsed time.
pub struct TokenBucket {
    rate_per_second: u64,
    burst_size: u32,
    tokens: u128,
    last_nanos: u64,
}

impl TokenBucket {
    /// The configured refill rate, in tokens per second.
    pub closed spec fn rate(self) -> int {
        self.rate_per_second as int
    }

    /// The configured capacity, in whole tokens.
    pub closed spec fn burst(self) -> int {
        self.burst_size as int
    }

    /// The current fill, in nanotokens.
    pub closed spec fn tokens_nanos(self) -> int {
        self.tokens as int
    }

    /// The wall-clock reading of the last refill, in nanoseconds.
    pub closed spec fn last_refill_nanos(self) -> int {
        self.last_nanos as int
    }

    /// The capacity, in nanotokens.
    pub open spec fn cap_nanos(self) -> int {
        self.burst() * NANOS_PER_TOKEN as int
    }

    /// Invariant: the fill is between empty and the capacity.
    pub open spec fn wf(self) -> bool {
        0 <= self.tokens_nanos() <= self.cap_nanos()
    }

    /// Nanoseconds elapsed since the last refill; a clock that went backwards
    /// counts as no elapsed time.
    pub open spec fn elapsed_nanos(self, now: int) -> int {
        if now > self.last_refill_nanos() {
            now - self.last_refill_nanos()
        } else {
            0
        }
    }

    /// The fill after refilling at `now`: grown by rate times elapsed time,
    /// clamped at the capacity.
    pub open spec fn refilled_nanos(self, now: int) -> int {
        let t = self.tokens_nanos() + self.rate() * self.elapsed_nanos(now);
        if t > self.cap_nanos() {
            self.cap_nanos()
        } else {
            t
        }
    }

    /// Whether a request at wall-clock `now` is admitted: the refilled bucket
    /// holds at least one whole token.
    pub open spec fn would_admit(self, now: int) -> bool {
        self.refilled_nanos(now) >= NANOS_PER_TOKEN as int
    }

    /// How one `admit_at` call at `now` with result `r` relates the bucket
    /// after (`post`) to the bucket before (`pre`).
    pub open spec fn admit_transition(pre: TokenBucket, post: TokenBucket, now: int, r: bool) -> bool {
        &&& r == pre.would_admit(now)
        &&& post.tokens_nanos() == if r {
            pre.refilled_nanos(now) - NANOS_PER_TOKEN as int
        } else {
            pre.refilled_nanos(now)
        }
        &&& post.last_refill_nanos() == if now > pre.last_refill_nanos() {
            now
        } else {
            pre.last_refill_nanos()
        }
        &&& post.rate() == pre.rate()
        &&& post.burst() == pre.burst()
    }

    /// The capacity in nanotokens fits comfortably below `u128::MAX`.
    proof fn lemma_cap_fits(burst_size: u32)
        ensures
            burst_size as int * NANOS_PER_TOKEN as int <= 0xFFFF_FFFF * 1_000_000_000,
    {
        assert(burst_size as int * NANOS_PER_TOKEN as int <= 0xFFFF_FFFF * 1_000_000_000)
            by (nonlinear_arith)
            requires
                0 <= burst_size as int <= 0xFFFF_FFFF,
        ;
    }

    /// A bucket that starts full at wall-clock `now_nanos`.
    pub fn new(rate_per_second: u64, burst_size: u32, now_nanos: u64) -> (r: TokenBucket)
        ensures
            r.wf(),
            r.rate() == rate_per_second as int,
            r.burst() == burst_size as int,
            r.tokens_nanos() == r.cap_nanos(),
            r.last_refill_nanos() == now_nanos as int,
    {
        proof {
            TokenBucket::lemma_cap_fits(burst_size);
        }
        let cap: u128 = (burst_size as u128) * (NANOS_PER_TOKEN as u128);
        TokenBucket { rate_per_second, burst_size, tokens: cap, last_nanos: now_nanos }
    }

    /// Refills from the time elapsed since the last check, then takes one
    /// token if at least one whole token is available. Returns whether the
    /// request is admitted; a denial has no side effect beyond the refill.
    pub fn admit_at(&mut self, now_nanos: u64) -> (r: bool)
        requires
            old(self).wf(),
        ensures
            final(self).wf(),
            TokenBucket::admit_transition(*old(self), *final(self), now_nanos as int, r),
    {
        proof {
            TokenBucket::lemma_cap_fits(self.burst_size);
        }
        let cap: u128 = (self.burst_size as u128) * (NANOS_PER_TOKEN as u128);
        if now_nanos > self.last_nanos {
            let elapsed: u64 = now_nanos - self.last_nanos;
            match (self.rate_per_second as u128).checked_mul(elapsed as u128) {
                Some(gain) => {
                    if gain >= cap - self.tokens {
                        self.tokens = cap;
                    } else {
                        self.tokens = self.tokens + gain;
                    }
                },
                None => {
                    self.tokens = cap;
                },
            }
            self.last_nanos = now_nanos;
        }
        if self.tokens >= NANOS_PER_TOKEN as u128 {
            self.tokens = self.tokens - NANOS_PER_TOKEN as u128;
            true
        } else {
            false
        }
    }

    /// Reads the wall clock and runs one admission check against it. The
    /// clock value is outside this library's control, so the contract states
    /// what holds whatever reading came back.
    pub fn try_admit(&mut self) -> (r: bool)
        requires
            old(self).wf(),
        ensures
            final(self).wf(),
            final(self).rate() == old(self).rate(),
            final(self).burst() == old(self).burst(),
            exists|now: int| TokenBucket::admit_transition(*old(self), *final(self), now, r),
    {
        let now = wall_clock_nanos();
        let ghost pre = *self;
        let r = self.admit_at(now);
        proof {
            assert(TokenBucket::admit_transition(pre, *self, now as int, r));
        }
        r
    }
}

/// Law: once the bucket is empty, admission is denied until enough wall-clock
/// time has elapsed to regenerate at least one whole token at the configured
/// rate.
pub proof fn lemma_empty_bucket_denies_until_refill(b: TokenBucket, now: int)
    requires
        b.wf(),
        b.tokens_nanos() == 0,
        b.rate() * b.elapsed_nanos(now) < NANOS_PER_TOKEN as int,
    ensures
        !b.would_admit(now),
{
}

/// Law: as soon as enough wall-clock time has elapsed to regenerate one whole
/// token, an empty bucket with room for at least one token admits again.
pub proof fn lemma_refill_readmits(b: TokenBucket, now: int)
    requires
        b.wf(),
        b.burst() >= 1,
        b.rate() * b.elapsed_nanos(now) >= NANOS_PER_TOKEN as int,
    ensures
        b.would_admit(now),
{
}

/// Law: the token count never exceeds the capacity nor goes negative.
pub proof fn lemma_token_count_bounded(b: TokenBucket)
    requires
        b.wf(),
    ensures
        0 <= b.tokens_nanos(),
        b.tokens_nanos() <= b.burst() * NANOS_PER_TOKEN as int,
{
}

/// Relies on std::time::SystemTime::now, read as nanoseconds since the Unix
/// epoch (clamped into u64, and 0 for a clock before the epoch). Nothing is
/// promised of the reading: admission states what holds for every value.
#[verifier::external_body]
fn wall_clock_nanos() -> u64 {
    match std::time::SystemTime::now().duration_since(std::time::UNIX_EPOCH) {
        Ok(d) => u64::try_from(d.as_nanos()).unwrap_or(u64::MAX),
        Err(_) => 0,
    }
}

} // verus!

//! Bounded exponential backoff for the fetch of a single fragment.

use vstd::prelude::*;

verus! {

/// `2^k`.
pub open spec fn pow2(k: nat) -> nat
    decreases k,
{
    if k == 0 {
        1
    } else {
        2 * pow2((k - 1) as nat)
    }
}

/// `x`, or `u64::MAX` where `x` does not fit in a `u64`.
pub open spec fn cap_u64(x: int) -> u64 {
    if x <= u64::MAX {
        x as u64
    } else {
        u64::MAX
    }
}

/// `2^k` grows with `k`.
pub proof fn lemma_pow2_monotone(j: nat, k: nat)
    requires
        j <= k,
    ensures
        1 <= pow2(j) <= pow2(k),
    decreases k,
{
    if k > 0 {
        if j < k {
            lemma_pow2_monotone(j, (k - 1) as nat);
        } else {
            lemma_pow2_monotone((j - 1) as nat, (k - 1) as nat);
        }
    }
}

/// How a fragment fetch is retried: the delay before the first retry, the
/// number of retries after the first attempt, and whether random jitter is
/// added to each delay. Delays are in milliseconds.
#[derive(Clone, Copy, Debug, PartialEq, Eq)]
pub struct RetryPolicy {
    pub base_delay_ms: u64,
    pub max_retries: usize,
    pub jitter: bool,
}

/// What to do after a failed attempt.
#[derive(Clone, Copy, Debug, PartialEq, Eq)]
pub enum RetryDecision {
    /// Make attempt number `attempt` (the first attempt is number 0) after
    /// waiting `delay_ms` milliseconds.
    Retry { attempt: usize, delay_ms: u64 },
    /// Every allowed attempt has failed.
    GiveUp,
}

impl RetryPolicy {
    /// Exponential backoff from `base_delay_ms` before attempt `k` (`k >= 1`):
    /// `base_delay_ms * 2^(k-1)`, saturated at `u64::MAX`.
    pub open spec fn backoff(self, k: nat) -> u64 {
        if k == 0 {
            0
        } else {
            cap_u64(self.base_delay_ms * pow2((k - 1) as nat))
        }
    }

    /// The jitter drawn from `draw` for a backoff of `b`: a value in `0..=b`
    /// when jitter is on, else zero.
    pub open spec fn jitter_of(self, b: u64, draw: u64) -> int {
        if self.jitter {
            draw as int % (b as int + 1)
        } else {
            0
        }
    }

    /// The delay before attempt `k` when the random draw was `draw`.
    pub open spec fn delay(self, k: nat, draw: u64) -> u64 {
        cap_u64(self.backoff(k) + self.jitter_of(self.backoff(k), draw))
    }

    /// Exponential backoff starting at `base_delay_ms`, five retries, no jitter.
    pub fn exponential(base_delay_ms: u64) -> (p: RetryPolicy)
        ensures
            p.base_delay_ms == base_delay_ms,
            p.max_retries == 5,
            !p.jitter,
    {
        RetryPolicy { base_delay_ms, max_retries: 5, jitter: false }
    }

    /// The same policy with `max_retries` retries after the first attempt.
    pub fn with_max_retries(self, max_retries: usize) -> (p: RetryPolicy)
        ensures
            p == (RetryPolicy { max_retries, ..self }),
    {
        RetryPolicy { max_retries, ..self }
    }

    /// The same policy with jitter switched on or off.
    pub fn with_jitter(self, jitter: bool) -> (p: RetryPolicy)
        ensures
            p == (RetryPolicy { jitter, ..self }),
    {
        RetryPolicy { jitter, ..self }
    }

    /// The backoff before attempt `attempt`, without jitter.
    pub fn backoff_ms(&self, attempt: usize) -> (d: u64)
        ensures
            d == self.backoff(attempt as nat),
    {
        if attempt == 0 {
            return 0;
        }
        let mut d: u64 = self.base_delay_ms;
        let mut k: usize = 1;
        assert(pow2(0) == 1);
        assert(self.base_delay_ms * pow2(0) == self.base_delay_ms);
        while k < attempt
            invariant
                1 <= k <= attempt,
                d == cap_u64(self.base_delay_ms * pow2((k - 1) as nat)),
            decreases attempt - k,
        {
            proof {
                let p = pow2((k - 1) as nat);
                assert(pow2(k as nat) == 2 * p);
                assert(self.base_delay_ms * (2 * p) == 2 * (self.base_delay_ms * p))
                    by (nonlinear_arith);
            }
            if d > u64::MAX / 2 {
                d = u64::MAX;
            } else {
                d = d * 2;
            }
            k = k + 1;
        }
        d
    }

    /// The delay before attempt `attempt`, with the jitter taken from `draw`.
    pub fn delay_ms(&self, attempt: usize, draw: u64) -> (d: u64)
        ensures
            d == self.delay(attempt as nat, draw),
    {
        let b = self.backoff_ms(attempt);
        let j: u64 = if !self.jitter {
            0
        } else if b == u64::MAX {
            draw
        } else {
            draw % (b + 1)
        };
        b.saturating_add(j)
    }
}

/// Backoff delays never shrink from one attempt to the next, and the jitter
/// added to a delay is non-negative and at most the backoff itself.
pub proof fn lemma_backoff_schedule(p: RetryPolicy, j: nat, k: nat, draw: u64)
    requires
        1 <= j <= k,
    ensures
        p.backoff(j) <= p.backoff(k),
        p.backoff(k) <= p.delay(k, draw),
        p.delay(k, draw) <= 2 * p.backoff(k),
        !p.jitter ==> p.delay(k, draw) == p.backoff(k),
{
    lemma_pow2_monotone((j - 1) as nat, (k - 1) as nat);
    let a = pow2((j - 1) as nat);
    let b = pow2((k - 1) as nat);
    assert(p.base_delay_ms * a <= p.base_delay_ms * b) by (nonlinear_arith)
        requires
            a <= b,
    ;
    let bk = p.backoff(k);
    assert(0 <= p.jitter_of(bk, draw) <= bk);
}

/// Whatever the random draws, the delay before an attempt is never shorter
/// than the delay before the attempt preceding it: each delay lies between
/// its backoff and twice its backoff, and the next backoff is twice the
/// current one (both saturated at `u64::MAX`).
pub proof fn lemma_delays_non_decreasing(p: RetryPolicy, k: nat, draw: u64, next_draw: u64)
    requires
        k >= 1,
    ensures
        p.delay(k, draw) <= p.backoff(k + 1),
        p.delay(k, draw) <= p.delay(k + 1, next_draw),
{
    let x = p.base_delay_ms * pow2((k - 1) as nat);
    assert(pow2(k) == 2 * pow2((k - 1) as nat));
    assert(p.base_delay_ms * pow2(k) == 2 * x) by (nonlinear_arith)
        requires
            pow2(k) == 2 * pow2((k - 1) as nat),
            x == p.base_delay_ms * pow2((k - 1) as nat),
    ;
    lemma_backoff_schedule(p, k + 1, k + 1, next_draw);
    lemma_backoff_schedule(p, k, k, draw);
}

/// The retry bookkeeping of one fragment fetch: how many retries have been
/// made under a fixed policy. The first attempt is under way as soon as the
/// state exists.
pub struct RetryState {
    policy: RetryPolicy,
    retries: usize,
}

impl RetryState {
    /// The policy the retries follow.
    pub closed spec fn policy(&self) -> RetryPolicy {
        self.policy
    }

    /// Attempts made so far, the first included.
    pub closed spec fn attempts(&self) -> nat {
        self.retries as nat + 1
    }

    /// Never more attempts than the policy allows.
    pub open spec fn wf(&self) -> bool {
        1 <= self.attempts() <= self.policy().max_retries + 1
    }

    /// The state of a fetch whose first attempt has just started.
    pub fn new(policy: RetryPolicy) -> (s: RetryState)
        ensures
            s.policy() == policy,
            s.attempts() == 1,
            s.wf(),
    {
        RetryState { policy, retries: 0 }
    }

    /// Records a failed attempt and decides, with the jitter taken from
    /// `draw` (a random number drawn by the caller): retry after the backoff
    /// delay while retries remain, else give up.
    pub fn on_failure_with(&mut self, draw: u64) -> (d: RetryDecision)
        requires
            old(self).wf(),
        ensures
            final(self).wf(),
            final(self).policy() == old(self).policy(),
            old(self).attempts() <= old(self).policy().max_retries ==> {
                &&& d == RetryDecision::Retry {
                    attempt: old(self).attempts() as usize,
                    delay_ms: old(self).policy().delay(old(self).attempts(), draw),
                }
                &&& final(self).attempts() == old(self).attempts() + 1
            },
            old(self).attempts() == old(self).policy().max_retries + 1 ==> {
                &&& d == RetryDecision::GiveUp
                &&& final(self).attempts() == old(self).attempts()
            },
    {
        if self.retries < self.policy.max_retries {
            self.retries = self.retries + 1;
            let delay_ms = self.policy.delay_ms(self.retries, draw);
            RetryDecision::Retry { attempt: self.retries, delay_ms }
        } else {
            RetryDecision::GiveUp
        }
    }
}

} // verus!

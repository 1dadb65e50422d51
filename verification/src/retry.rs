//! How long to pause before a batch is written again, and when to give up.

use vstd::prelude::*;
use vstd::arithmetic::power2::{
    lemma2_to64, lemma_pow2_pos, lemma_pow2_strictly_increases, lemma_pow2_unfold, pow2,
};

verus! {

/// The bounds on the retries of one operation. Every batch is written at most
/// `max_attempts` times. The pause before a retry starts at `base_delay_ms`,
/// doubles with every further retry of the same batch and never exceeds
/// `max_delay_ms`. The pauses of one operation never add up to more than
/// `max_total_delay_ms`.
#[derive(Debug, Clone, Copy, PartialEq, Eq, Structural, Hash)]
pub struct RetryPolicy {
    pub max_attempts: u32,
    pub base_delay_ms: u64,
    pub max_delay_ms: u64,
    pub max_total_delay_ms: u64,
}

/// The smaller of two numbers.
pub open spec fn smaller(a: int, b: int) -> int {
    if a <= b {
        a
    } else {
        b
    }
}

impl RetryPolicy {
    /// The pause, in milliseconds, before a batch that has been written
    /// `attempts_made` times is written again.
    pub open spec fn pause_ms(self, attempts_made: u32) -> int {
        if attempts_made <= 1 {
            smaller(self.base_delay_ms as int, self.max_delay_ms as int)
        } else {
            smaller(
                self.base_delay_ms * pow2((attempts_made - 1) as nat),
                self.max_delay_ms as int,
            )
        }
    }

    /// Whether a batch that has been written `attempts_made` times, in an
    /// operation that has paused for `waited_ms` so far, may be written again.
    pub open spec fn allows_retry(self, attempts_made: u32, waited_ms: u64) -> bool {
        attempts_made < self.max_attempts && waited_ms + self.pause_ms(attempts_made)
            <= self.max_total_delay_ms
    }

    /// Computes the pause before the next write of a batch.
    pub fn pause(&self, attempts_made: u32) -> (delay_ms: u64)
        ensures
            delay_ms == self.pause_ms(attempts_made),
            delay_ms <= self.max_delay_ms,
    {
        let base: u64 = self.base_delay_ms;
        let limit: u64 = self.max_delay_ms;
        let mut delay_ms: u64 = if base <= limit {
            base
        } else {
            limit
        };
        let mut written: u32 = 1;
        proof {
            assert(pow2(0) == 1) by {
                lemma2_to64();
            }
            assert(base * pow2(0) == base) by (nonlinear_arith)
                requires
                    pow2(0) == 1,
            ;
        }
        while written < attempts_made && 0 < delay_ms && delay_ms < limit
            invariant
                1 <= written,
                written <= attempts_made || written == 1,
                base == self.base_delay_ms,
                limit == self.max_delay_ms,
                delay_ms == smaller(base * pow2((written - 1) as nat), limit as int),
            decreases attempts_made - written,
        {
            proof {
                let power: nat = pow2((written - 1) as nat);
                lemma_pow2_unfold(written as nat);
                assert(base * (2 * power) == 2 * (base * power)) by (nonlinear_arith);
            }
            delay_ms = if delay_ms > limit - delay_ms {
                limit
            } else {
                delay_ms + delay_ms
            };
            written = written + 1;
        }
        proof {
            let reached: nat = pow2((written - 1) as nat);
            lemma_pow2_pos((written - 1) as nat);
            if written < attempts_made {
                let asked: nat = pow2((attempts_made - 1) as nat);
                lemma_pow2_strictly_increases((written - 1) as nat, (attempts_made - 1) as nat);
                assert(base * asked >= base * reached >= 0) by (nonlinear_arith)
                    requires
                        asked >= reached > 0,
                        base >= 0,
                ;
                if delay_ms == 0 && limit != 0 {
                    assert(base == 0) by (nonlinear_arith)
                        requires
                            base * reached == 0,
                            reached > 0,
                            base >= 0,
                    ;
                    assert(base * asked == 0) by (nonlinear_arith)
                        requires
                            base == 0,
                    ;
                }
            } else if attempts_made <= 1 {
                assert(written == 1);
                assert(pow2(0) == 1) by {
                    lemma2_to64();
                }
                assert(base * reached == base) by (nonlinear_arith)
                    requires
                        reached == 1,
                ;
            }
        }
        delay_ms
    }

    /// Decides whether a batch may be written again, and after which pause.
    pub fn next_pause(&self, attempts_made: u32, waited_ms: u64) -> (pause: Option<u64>)
        ensures
            pause is Some <==> self.allows_retry(attempts_made, waited_ms),
            pause matches Some(delay_ms) ==> delay_ms == self.pause_ms(attempts_made),
    {
        if attempts_made >= self.max_attempts {
            return None;
        }
        let delay_ms: u64 = self.pause(attempts_made);
        if waited_ms > self.max_total_delay_ms || delay_ms > self.max_total_delay_ms - waited_ms {
            None
        } else {
            Some(delay_ms)
        }
    }
}

/// A pause is never longer than the longest that the policy allows, and the
/// first is the base delay where that is allowed.
pub proof fn pauses_are_bounded(policy: RetryPolicy, attempts_made: u32)
    ensures
        0 <= policy.pause_ms(attempts_made) <= policy.max_delay_ms,
        policy.pause_ms(1) == smaller(policy.base_delay_ms as int, policy.max_delay_ms as int),
{
    if attempts_made > 1 {
        lemma_pow2_pos((attempts_made - 1) as nat);
        assert(policy.base_delay_ms * pow2((attempts_made - 1) as nat) >= 0) by (nonlinear_arith)
            requires
                policy.base_delay_ms >= 0,
                pow2((attempts_made - 1) as nat) > 0,
        ;
    }
}

/// A later retry never pauses for less than an earlier one.
pub proof fn pauses_never_shrink(policy: RetryPolicy, earlier: u32, later: u32)
    requires
        earlier <= later,
    ensures
        policy.pause_ms(earlier) <= policy.pause_ms(later),
{
    if later > 1 {
        let low: nat = pow2(if earlier <= 1 { 0nat } else { (earlier - 1) as nat });
        let high: nat = pow2((later - 1) as nat);
        if earlier <= 1 {
            assert(pow2(0) == 1) by {
                lemma2_to64();
            }
            lemma_pow2_pos((later - 1) as nat);
        } else if earlier < later {
            lemma_pow2_strictly_increases((earlier - 1) as nat, (later - 1) as nat);
        }
        assert(policy.base_delay_ms * low <= policy.base_delay_ms * high) by (nonlinear_arith)
            requires
                low <= high,
                policy.base_delay_ms >= 0,
        ;
        assert(policy.base_delay_ms * 1 == policy.base_delay_ms) by (nonlinear_arith);
    }
}

} // verus!

//! Exponential backoff: each wait is twice the one before, up to a cap, until
//! the policy is reset.

use vstd::arithmetic::power2::{lemma_pow2_adds, lemma_pow2_pos, lemma_pow2_strictly_increases, pow2};
use vstd::prelude::*;

verus! {

/// The delay before attempt number `attempt`, counted from 0, in
/// milliseconds: the base doubled once per earlier attempt, but no more than
/// the cap.
pub open spec fn delay_of(base: u64, cap: u64, attempt: nat) -> int {
    if base * pow2(attempt) <= cap {
        base * pow2(attempt)
    } else {
        cap as int
    }
}

/// Backoff monotonicity: without a reset in between, a later wait is never
/// shorter than an earlier one.
pub proof fn lemma_delays_never_shrink(base: u64, cap: u64, earlier: nat, later: nat)
    requires
        earlier <= later,
    ensures
        delay_of(base, cap, earlier) <= delay_of(base, cap, later),
        delay_of(base, cap, later) <= cap,
{
    lemma_pow2_pos(earlier);
    lemma_pow2_pos(later);
    if earlier < later {
        lemma_pow2_strictly_increases(earlier, later);
    }
    assert(base * pow2(earlier) <= base * pow2(later)) by (nonlinear_arith)
        requires
            pow2(earlier) <= pow2(later),
            0 <= base,
    ;
}

/// A backoff policy: a base delay, a cap, and the number of waits since the
/// last reset.
#[derive(Clone, Copy, Debug, PartialEq, Eq)]
pub struct ExponentialBackoffStrategy {
    base_millis: u64,
    cap_millis: u64,
    attempts: u32,
}

impl ExponentialBackoffStrategy {
    /// The base delay in milliseconds.
    pub closed spec fn base(&self) -> u64 {
        self.base_millis
    }

    /// The longest delay in milliseconds.
    pub closed spec fn cap(&self) -> u64 {
        self.cap_millis
    }

    /// How many waits there have been since the last reset.
    pub closed spec fn attempts(&self) -> nat {
        self.attempts as nat
    }

    /// The policy after one more wait: the count is one higher, unless it
    /// already is the largest number that it can hold.
    pub closed spec fn after_wait(self) -> Self {
        ExponentialBackoffStrategy {
            base_millis: self.base_millis,
            cap_millis: self.cap_millis,
            attempts: if self.attempts < u32::MAX {
                (self.attempts + 1) as u32
            } else {
                self.attempts
            },
        }
    }

    /// The policy after a reset: no waits counted.
    pub closed spec fn after_reset(self) -> Self {
        ExponentialBackoffStrategy {
            base_millis: self.base_millis,
            cap_millis: self.cap_millis,
            attempts: 0,
        }
    }

    /// What a wait and a reset leave of a policy: the base and the cap stay;
    /// a wait counts one more, up to the largest number that the count can
    /// hold, and a reset counts none.
    pub proof fn lemma_after(self)
        ensures
            self.after_wait().base() == self.base(),
            self.after_wait().cap() == self.cap(),
            self.after_wait().attempts() == if self.attempts() < u32::MAX {
                self.attempts() + 1
            } else {
                self.attempts()
            },
            self.after_reset().base() == self.base(),
            self.after_reset().cap() == self.cap(),
            self.after_reset().attempts() == 0,
    {
    }

    /// The delay that the next wait gives.
    pub open spec fn next_delay(self) -> int {
        delay_of(self.base(), self.cap(), self.attempts())
    }

    /// A policy with the given base delay and cap, both in milliseconds,
    /// that has not waited yet.
    pub fn new(base_millis: u64, cap_millis: u64) -> (policy: Self)
        ensures
            policy.base() == base_millis,
            policy.cap() == cap_millis,
            policy.attempts() == 0,
    {
        ExponentialBackoffStrategy { base_millis, cap_millis, attempts: 0 }
    }

    /// Forgets the waits so far: the next wait is the base delay again.
    pub fn reset(&mut self)
        ensures
            *final(self) == old(self).after_reset(),
            final(self).base() == old(self).base(),
            final(self).cap() == old(self).cap(),
            final(self).attempts() == 0,
    {
        self.attempts = 0;
    }

    /// How long the caller has to suspend now, in milliseconds, and counts
    /// the wait. The count stops at the largest number it can hold; from
    /// there on the delay stays what it is.
    pub fn wait(&mut self) -> (millis: u64)
        ensures
            millis == delay_of(old(self).base(), old(self).cap(), old(self).attempts()),
            *final(self) == old(self).after_wait(),
            final(self).base() == old(self).base(),
            final(self).cap() == old(self).cap(),
            final(self).attempts() == if old(self).attempts() < u32::MAX {
                old(self).attempts() + 1
            } else {
                old(self).attempts()
            },
    {
        let millis = self.delay_at(self.attempts);
        if self.attempts < u32::MAX {
            self.attempts = self.attempts + 1;
        }
        millis
    }

    /// The delay before attempt number `attempt`, in milliseconds.
    pub fn delay_at(&self, attempt: u32) -> (millis: u64)
        ensures
            millis == delay_of(self.base(), self.cap(), attempt as nat),
    {
        let base = self.base_millis;
        let cap = self.cap_millis;
        proof {
            vstd::arithmetic::power2::lemma2_to64();
        }
        if base == 0 {
            assert(base * pow2(attempt as nat) == 0) by (nonlinear_arith)
                requires
                    base == 0,
            ;
            return 0;
        }
        if base > cap {
            proof {
                lemma_pow2_pos(attempt as nat);
                assert(base * pow2(attempt as nat) >= base) by (nonlinear_arith)
                    requires
                        pow2(attempt as nat) >= 1,
                        base >= 0,
                ;
            }
            return cap;
        }
        let mut delay: u64 = base;
        let mut i: u32 = 0;
        while i < attempt
            invariant
                i <= attempt,
                base == self.base(),
                cap == self.cap(),
                0 < base <= cap,
                delay == base * pow2(i as nat),
                delay <= cap,
            decreases attempt - i,
        {
            proof {
                lemma_pow2_adds(i as nat, 1);
                vstd::arithmetic::power2::lemma2_to64();
                assert(base * pow2((i + 1) as nat) == 2 * (base * pow2(i as nat)))
                    by (nonlinear_arith)
                    requires
                        pow2((i + 1) as nat) == pow2(i as nat) * 2,
                ;
            }
            if delay > cap - delay {
                // Doubling once more passes the cap, and so does every later
                // doubling.
                proof {
                    let next = (i + 1) as nat;
                    if next < attempt as nat {
                        lemma_pow2_strictly_increases(next, attempt as nat);
                    } else {
                        assert(next == attempt as nat);
                    }
                    assert(base * pow2(next) == 2 * delay);
                    assert(base * pow2(next) > cap);
                    assert(base * pow2(attempt as nat) >= base * pow2(next)) by (nonlinear_arith)
                        requires
                            pow2(attempt as nat) >= pow2(next),
                            base >= 0,
                    ;
                }
                return cap;
            }
            delay = delay + delay;
            i = i + 1;
        }
        delay
    }
}

} // verus!

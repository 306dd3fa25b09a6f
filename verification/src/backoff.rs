//! Exponential backoff between retries of a failed job.

use vstd::prelude::*;
use vstd::arithmetic::power2::lemma_pow2_pos;
use vstd::arithmetic::power2::lemma_pow2_strictly_increases;
use vstd::arithmetic::power2::lemma_pow2_unfold;
use vstd::arithmetic::power2::pow2;

verus! {

/// Delay unit of the backoff, in seconds.
pub const BACKOFF_BASE_SECS: i64 = 60;

/// The largest retry limit a job type may declare.
pub const MAX_ATTEMPTS_LIMIT: u32 = 32;

/// Seconds a job waits after its `attempts`-th failure before it may be
/// claimed again: one minute, doubled for every failure so far.
pub open spec fn backoff_delay(attempts: nat) -> int {
    BACKOFF_BASE_SECS * pow2(attempts)
}

/// The backoff delay is positive.
pub proof fn lemma_backoff_positive(attempts: nat)
    ensures
        backoff_delay(attempts) >= BACKOFF_BASE_SECS > 0,
{
    lemma_pow2_pos(attempts);
    assert(BACKOFF_BASE_SECS * pow2(attempts) >= BACKOFF_BASE_SECS) by (nonlinear_arith)
        requires
            pow2(attempts) >= 1,
    ;
}

/// The backoff delay grows strictly with the number of failures.
pub proof fn lemma_backoff_strictly_increasing(fewer: nat, more: nat)
    requires
        fewer < more,
    ensures
        backoff_delay(fewer) < backoff_delay(more),
{
    lemma_pow2_strictly_increases(fewer, more);
    assert(BACKOFF_BASE_SECS * pow2(fewer) < BACKOFF_BASE_SECS * pow2(more)) by (nonlinear_arith)
        requires
            pow2(fewer) < pow2(more),
    ;
}

/// Within the retry limit the delay stays below `60 * 2^32` seconds.
pub proof fn lemma_backoff_bounded(attempts: nat)
    requires
        attempts <= MAX_ATTEMPTS_LIMIT,
    ensures
        backoff_delay(attempts) <= 60 * 0x1_0000_0000,
{
    vstd::arithmetic::power2::lemma2_to64();
    if attempts < 32 {
        lemma_pow2_strictly_increases(attempts, 32);
    }
    assert(BACKOFF_BASE_SECS * pow2(attempts) <= 60 * 0x1_0000_0000) by (nonlinear_arith)
        requires
            pow2(attempts) <= 0x1_0000_0000,
    ;
}

/// Computes the backoff delay after the `attempts`-th failure.
pub fn backoff_delay_secs(attempts: u32) -> (delay: i64)
    requires
        attempts <= MAX_ATTEMPTS_LIMIT,
    ensures
        delay == backoff_delay(attempts as nat),
{
    let mut delay: i64 = BACKOFF_BASE_SECS;
    let mut done: u32 = 0;
    proof {
        vstd::arithmetic::power2::lemma2_to64();
    }
    while done < attempts
        invariant
            done <= attempts <= MAX_ATTEMPTS_LIMIT,
            delay == backoff_delay(done as nat),
        decreases attempts - done,
    {
        proof {
            lemma_backoff_bounded(done as nat);
            lemma_pow2_unfold((done + 1) as nat);
            assert(BACKOFF_BASE_SECS * (2 * pow2(done as nat)) == 2 * (BACKOFF_BASE_SECS * pow2(
                done as nat,
            ))) by (nonlinear_arith);
        }
        delay = delay * 2;
        done = done + 1;
    }
    delay
}

} // verus!

//! Reconnect delays: exponential growth from one second, capped at thirty,
//! with full jitter.

use vstd::prelude::*;
use vstd::arithmetic::power2::pow2;
use vstd::arithmetic::power2::lemma_pow2_unfold;
use vstd::arithmetic::power2::lemma_pow2_pos;

verus! {

/// Delay ceiling before the first retry, in milliseconds.
pub const BASE_DELAY_MS: u64 = 1000;

/// Largest delay ceiling, in milliseconds.
pub const MAX_DELAY_MS: u64 = 30000;

/// Delay ceiling after `failures` failed attempts have already been retried:
/// it doubles with each one until it reaches the cap.
pub open spec fn ceiling_ms(failures: nat) -> nat
    decreases failures,
{
    if failures == 0 {
        1000
    } else if 2 * ceiling_ms((failures - 1) as nat) >= 30000 {
        30000
    } else {
        2 * ceiling_ms((failures - 1) as nat)
    }
}

/// The jittered delay: a point of `0 ..= ceiling` picked by `entropy`.
pub open spec fn delay_ms(failures: nat, entropy: u64) -> nat {
    (entropy as nat) % (ceiling_ms(failures) + 1)
}

/// The ceiling lies between the base and the cap.
pub proof fn lemma_ceiling_bounds(failures: nat)
    ensures
        1000 <= ceiling_ms(failures) <= 30000,
    decreases failures,
{
    if failures > 0 {
        lemma_ceiling_bounds((failures - 1) as nat);
    }
}

/// The ceiling never shrinks as failures accumulate.
pub proof fn lemma_ceiling_monotone(a: nat, b: nat)
    requires
        a <= b,
    ensures
        ceiling_ms(a) <= ceiling_ms(b),
    decreases b,
{
    if a < b {
        lemma_ceiling_monotone(a, (b - 1) as nat);
        lemma_ceiling_bounds((b - 1) as nat);
    }
}

/// The ceiling is the base times two to the number of failures, cut at the cap.
pub proof fn lemma_ceiling_closed_form(failures: nat)
    ensures
        ceiling_ms(failures) == if 1000 * pow2(failures) >= 30000 {
            30000
        } else {
            1000 * pow2(failures)
        },
    decreases failures,
{
    lemma_pow2_pos(failures);
    if failures == 0 {
        assert(pow2(0) == 1) by {
            vstd::arithmetic::power2::lemma2_to64();
        }
    } else {
        let prev = (failures - 1) as nat;
        lemma_ceiling_closed_form(prev);
        lemma_pow2_pos(prev);
        lemma_pow2_unfold(failures);
        assert(pow2(failures) == 2 * pow2(prev));
    }
}

/// A jittered delay never exceeds its ceiling, hence never the cap.
pub proof fn lemma_delay_bounded(failures: nat, entropy: u64)
    ensures
        delay_ms(failures, entropy) <= ceiling_ms(failures) <= 30000,
{
    lemma_ceiling_bounds(failures);
}

/// Delay ceiling in milliseconds after `failures` failed attempts.
pub fn ceiling(failures: u32) -> (r: u64)
    ensures
        r == ceiling_ms(failures as nat),
{
    let mut c: u64 = BASE_DELAY_MS;
    let mut i: u32 = 0;
    while i < failures && c < MAX_DELAY_MS
        invariant
            i <= failures,
            c == ceiling_ms(i as nat),
            1000 <= c <= 30000,
        decreases failures - i,
    {
        c = if c * 2 >= MAX_DELAY_MS { MAX_DELAY_MS } else { c * 2 };
        i = i + 1;
    }
    proof {
        lemma_ceiling_monotone(i as nat, failures as nat);
        lemma_ceiling_bounds(failures as nat);
    }
    c
}

/// Full jitter: the delay before the next attempt, in milliseconds, drawn
/// from `0 ..= ceiling(failures)` by the caller's random `entropy`.
pub fn delay(failures: u32, entropy: u64) -> (r: u64)
    ensures
        r == delay_ms(failures as nat, entropy),
        r <= ceiling_ms(failures as nat),
        r <= MAX_DELAY_MS,
{
    let top: u64 = ceiling(failures);
    proof {
        lemma_ceiling_bounds(failures as nat);
    }
    entropy % (top + 1)
}

} // verus!

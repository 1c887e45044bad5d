//! Reconnect delays of an outbound connector.

use vstd::prelude::*;
use vstd::arithmetic::power2::{lemma2_to64, lemma_pow2_unfold, pow2};

verus! {

/// Delay before the first reconnect attempt, in milliseconds.
pub const INITIAL_DELAY_MS: u64 = 200;

/// Largest delay between two reconnect attempts, in milliseconds.
pub const MAX_DELAY_MS: u64 = 60_000;

/// The delay that follows `delay`: twice as long, but never above the cap.
pub open spec fn spec_next_delay(delay: u64) -> u64 {
    if 2 * delay >= MAX_DELAY_MS {
        MAX_DELAY_MS
    } else {
        (2 * delay) as u64
    }
}

/// Doubles a reconnect delay and caps it at [`MAX_DELAY_MS`].
pub fn next_delay(delay: u64) -> (next: u64)
    ensures
        next == spec_next_delay(delay),
{
    if delay >= MAX_DELAY_MS / 2 {
        MAX_DELAY_MS
    } else {
        2 * delay
    }
}

/// The delay that is waited out after the `n`-th failed dial in a row,
/// counted from zero.
pub open spec fn spec_delay_at(n: nat) -> u64
    decreases n,
{
    if n == 0 {
        INITIAL_DELAY_MS
    } else {
        spec_next_delay(spec_delay_at((n - 1) as nat))
    }
}

/// The delays double from 200 ms up to 51,200 ms and stay at the cap of
/// 60,000 ms from the tenth on.
pub proof fn lemma_delay_sequence(n: nat)
    ensures
        n < 9 ==> spec_delay_at(n) == 200 * pow2(n),
        n >= 9 ==> spec_delay_at(n) == MAX_DELAY_MS,
        INITIAL_DELAY_MS <= spec_delay_at(n) <= MAX_DELAY_MS,
        spec_delay_at(n) <= spec_delay_at(n + 1),
    decreases n,
{
    lemma2_to64();
    if n > 0 {
        lemma_delay_sequence((n - 1) as nat);
        lemma_pow2_unfold(n);
    }
    assert(spec_delay_at(n + 1) == spec_next_delay(spec_delay_at(n)));
}

/// The first delays, written out.
pub proof fn lemma_first_delays()
    ensures
        spec_delay_at(0) == 200,
        spec_delay_at(1) == 400,
        spec_delay_at(2) == 800,
        spec_delay_at(3) == 1600,
        spec_delay_at(8) == 51_200,
        spec_delay_at(9) == 60_000,
        spec_delay_at(10) == 60_000,
{
    lemma2_to64();
    lemma_delay_sequence(0);
    lemma_delay_sequence(1);
    lemma_delay_sequence(2);
    lemma_delay_sequence(3);
    lemma_delay_sequence(8);
    lemma_delay_sequence(9);
    lemma_delay_sequence(10);
}

} // verus!

//! The RSI oscillator over a price window, in exact fixed-point arithmetic.
//!
//! The classical construction sums the upward adjacent changes (`gains`) and
//! the magnitudes of the downward ones (`losses`), divides both by the same
//! fixed period constant, and reports `100 - 100 / (1 + RS)` where `RS` is
//! the ratio of the two averages. The shared divisor cancels out of that
//! ratio, so over exact arithmetic the oscillator is precisely
//! `100 * gains / (gains + losses)`, with the no-losses case pinned to 100.
//! This module states and computes that value scaled by 1_000_000, so
//! 100_000_000 stands for an RSI of 100.

use vstd::arithmetic::div_mod::{
    lemma_div_is_ordered, lemma_div_multiples_vanish, lemma_div_of0, lemma_div_pos_is_pos,
    lemma_multiply_divide_lt,
};
use vstd::prelude::*;

verus! {

/// Sum of the upward adjacent changes in `s`, oldest first.
pub open spec fn gains(s: Seq<i64>) -> int
    decreases s.len(),
{
    if s.len() < 2 {
        0
    } else if s[s.len() - 1] > s[s.len() - 2] {
        gains(s.drop_last()) + (s[s.len() - 1] - s[s.len() - 2])
    } else {
        gains(s.drop_last())
    }
}

/// Sum of the magnitudes of the downward adjacent changes in `s`.
pub open spec fn losses(s: Seq<i64>) -> int
    decreases s.len(),
{
    if s.len() < 2 {
        0
    } else if s[s.len() - 1] < s[s.len() - 2] {
        losses(s.drop_last()) + (s[s.len() - 2] - s[s.len() - 1])
    } else {
        losses(s.drop_last())
    }
}

/// The RSI of the window `s`, scaled by 1_000_000. When no adjacent change
/// is downward the value is exactly 100 (avoiding the division by zero);
/// otherwise it is `100 * gains / (gains + losses)` under the scale.
pub open spec fn rsi_scaled(s: Seq<i64>) -> int {
    if losses(s) == 0 {
        100_000_000
    } else {
        100_000_000 * gains(s) / (gains(s) + losses(s))
    }
}

/// Both change sums are sums of non-negative terms.
pub proof fn lemma_changes_nonneg(s: Seq<i64>)
    ensures
        gains(s) >= 0,
        losses(s) >= 0,
    decreases s.len(),
{
    if s.len() >= 2 {
        lemma_changes_nonneg(s.drop_last());
    }
}

/// The RSI stays within [0, 100] (scaled: [0, 100_000_000]) for every
/// window, whatever prices it holds.
pub proof fn lemma_rsi_in_range(s: Seq<i64>)
    ensures
        0 <= rsi_scaled(s) <= 100_000_000,
{
    lemma_changes_nonneg(s);
    let g = gains(s);
    let l = losses(s);
    if l != 0 {
        lemma_div_pos_is_pos(100_000_000 * g, g + l);
        lemma_div_is_ordered(100_000_000 * g, 100_000_000 * (g + l), g + l);
        lemma_div_multiples_vanish(100_000_000, g + l);
        assert((g + l) * 100_000_000 == 100_000_000 * (g + l)) by (nonlinear_arith);
    }
}

/// A window whose adjacent changes are all upward or flat accumulates no
/// losses, so its RSI is exactly 100.
pub proof fn lemma_all_gains_rsi(s: Seq<i64>)
    requires
        forall|i: int| 0 <= i < s.len() - 1 ==> #[trigger] s[i] <= s[i + 1],
    ensures
        losses(s) == 0,
        rsi_scaled(s) == 100_000_000,
    decreases s.len(),
{
    if s.len() >= 2 {
        let t = s.drop_last();
        assert forall|i: int| 0 <= i < t.len() - 1 implies #[trigger] t[i] <= t[i + 1] by {
            assert(t[i] == s[i]);
            assert(t[i + 1] == s[i + 1]);
        }
        lemma_all_gains_rsi(t);
        assert(s[s.len() - 2] <= s[s.len() - 1]);
    }
}

/// Any window with at least one downward change has an RSI strictly below
/// 100.
pub proof fn lemma_losses_cap_rsi(s: Seq<i64>)
    requires
        losses(s) > 0,
    ensures
        rsi_scaled(s) < 100_000_000,
{
    lemma_changes_nonneg(s);
    let g = gains(s);
    let l = losses(s);
    assert(100_000_000 * g < (g + l) * 100_000_000) by (nonlinear_arith)
        requires
            g >= 0,
            l > 0,
    ;
    lemma_multiply_divide_lt(100_000_000 * g, g + l, 100_000_000);
}

/// A window whose adjacent changes are all downward or flat accumulates no
/// gains.
pub proof fn lemma_all_losses_no_gain(s: Seq<i64>)
    requires
        forall|i: int| 0 <= i < s.len() - 1 ==> #[trigger] s[i] >= s[i + 1],
    ensures
        gains(s) == 0,
    decreases s.len(),
{
    if s.len() >= 2 {
        let t = s.drop_last();
        assert forall|i: int| 0 <= i < t.len() - 1 implies #[trigger] t[i] >= t[i + 1] by {
            assert(t[i] == s[i]);
            assert(t[i + 1] == s[i + 1]);
        }
        lemma_all_losses_no_gain(t);
        assert(s[s.len() - 2] >= s[s.len() - 1]);
    }
}

/// A window whose adjacent changes are all downward or flat, with at least
/// one strict drop, has positive losses and vanishing gains, so its RSI is
/// exactly 0 -- the limit the ratio reaches as the gains vanish -- and in
/// particular below 100.
pub proof fn lemma_all_losses_rsi(s: Seq<i64>)
    requires
        forall|i: int| 0 <= i < s.len() - 1 ==> #[trigger] s[i] >= s[i + 1],
        exists|i: int| 0 <= i < s.len() - 1 && #[trigger] s[i] > s[i + 1],
    ensures
        gains(s) == 0,
        losses(s) > 0,
        rsi_scaled(s) == 0,
        rsi_scaled(s) < 100_000_000,
    decreases s.len(),
{
    lemma_all_losses_no_gain(s);
    let w = choose|i: int| 0 <= i < s.len() - 1 && #[trigger] s[i] > s[i + 1];
    if w == s.len() - 2 {
        lemma_changes_nonneg(s.drop_last());
    } else {
        let t = s.drop_last();
        assert forall|i: int| 0 <= i < t.len() - 1 implies #[trigger] t[i] >= t[i + 1] by {
            assert(t[i] == s[i]);
            assert(t[i + 1] == s[i + 1]);
        }
        assert(t[w] == s[w] && t[w + 1] == s[w + 1]);
        lemma_all_losses_rsi(t);
        assert(losses(s) >= losses(t));
    }
    lemma_div_of0(gains(s) + losses(s));
    assert(100_000_000 * 0 == 0);
}

/// Computes the scaled RSI over `prices` in one pass over the adjacent
/// changes, exactly as `rsi_scaled` states it.
pub fn compute_rsi(prices: &Vec<i64>) -> (r: u64)
    requires
        1 <= prices@.len() <= 50,
    ensures
        r as int == rsi_scaled(prices@),
        r <= 100_000_000,
{
    let n = prices.len();
    let mut gains_acc: u128 = 0;
    let mut losses_acc: u128 = 0;
    let mut i: usize = 1;
    while i < n
        invariant
            1 <= i <= n,
            n == prices@.len(),
            n <= 50,
            gains_acc as int == gains(prices@.subrange(0, i as int)),
            losses_acc as int == losses(prices@.subrange(0, i as int)),
            gains_acc as int <= (i - 1) * 0xFFFF_FFFF_FFFF_FFFF,
            losses_acc as int <= (i - 1) * 0xFFFF_FFFF_FFFF_FFFF,
        decreases n - i,
    {
        let prev = prices[i - 1] as i128;
        let cur = prices[i] as i128;
        let change: i128 = cur - prev;
        if change > 0 {
            gains_acc = gains_acc + (change as u128);
        } else {
            losses_acc = losses_acc + ((-change) as u128);
        }
        proof {
            let t = prices@.subrange(0, i + 1);
            assert(t.drop_last() =~= prices@.subrange(0, i as int));
            assert(t[t.len() - 1] == prices@[i as int]);
            assert(t[t.len() - 2] == prices@[i - 1]);
        }
        i = i + 1;
    }
    proof {
        assert(prices@.subrange(0, n as int) =~= prices@);
        lemma_rsi_in_range(prices@);
    }
    if losses_acc == 0 {
        100_000_000u64
    } else {
        let g = gains_acc;
        let l = losses_acc;
        let quotient: u128 = (100_000_000u128 * g) / (g + l);
        proof {
            assert(quotient as int == rsi_scaled(prices@));
        }
        quotient as u64
    }
}

} // verus!

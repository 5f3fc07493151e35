//! The profit and probability model: the fee taxonomy (swap fee per leg,
//! flash-loan fee, gas and tip), leg-probability combination, expected value,
//! the normalized expected-value score, and the confidence bucket — together
//! with the proof that the score is monotone in net profit and in combined
//! probability.

use vstd::prelude::*;
use crate::numeric::{lemma_div_mono, lemma_mul_div_le, PPM};
use vstd::arithmetic::div_mod::lemma_div_pos_is_pos;
use vstd::arithmetic::mul::{
    lemma_mul_inequality, lemma_mul_is_commutative, lemma_mul_nonnegative, lemma_mul_upper_bound,
};

verus! {

/// Cap of the expected-value score: 100 score units, in ppm.
pub const EV_SCORE_CAP_PPM: u64 = 100_000_000;

/// Deterministic confidence tag of an opportunity, from its combined
/// execution probability and its net profit relative to trade size.
#[derive(Clone, Copy, Debug, PartialEq, Eq, Hash, Structural)]
pub enum ConfidenceLevel {
    /// More than 80% combined probability and more than 1% net profit.
    VeryHigh,
    /// More than 60% and 0.5%.
    High,
    /// More than 40% and 0.3%.
    Medium,
    /// More than 20% probability, any profit.
    Low,
    /// Anything weaker.
    VeryLow,
}

/// The highest bucket whose probability and profit thresholds are both met.
pub open spec fn confidence_spec(prob_ppm: int, net_pct_ppm: int) -> ConfidenceLevel {
    if prob_ppm > 800_000 && net_pct_ppm > 10_000 {
        ConfidenceLevel::VeryHigh
    } else if prob_ppm > 600_000 && net_pct_ppm > 5_000 {
        ConfidenceLevel::High
    } else if prob_ppm > 400_000 && net_pct_ppm > 3_000 {
        ConfidenceLevel::Medium
    } else if prob_ppm > 200_000 {
        ConfidenceLevel::Low
    } else {
        ConfidenceLevel::VeryLow
    }
}

/// Tags an opportunity by combined probability (ppm) and net profit
/// percentage (ppm of trade size).
pub fn confidence_level(prob_ppm: u64, net_pct_ppm: u64) -> (r: ConfidenceLevel)
    ensures
        r == confidence_spec(prob_ppm as int, net_pct_ppm as int),
{
    if prob_ppm > 800_000 && net_pct_ppm > 10_000 {
        ConfidenceLevel::VeryHigh
    } else if prob_ppm > 600_000 && net_pct_ppm > 5_000 {
        ConfidenceLevel::High
    } else if prob_ppm > 400_000 && net_pct_ppm > 3_000 {
        ConfidenceLevel::Medium
    } else if prob_ppm > 200_000 {
        ConfidenceLevel::Low
    } else {
        ConfidenceLevel::VeryLow
    }
}

/// Swap fee charged on a leg's input: `amount * fee_bps / 10000`.
pub open spec fn swap_fee_spec(amount: int, fee_bps: int) -> int {
    amount * fee_bps / 10_000
}

/// The swap fee on a leg's input, never more than the input itself.
pub fn swap_fee(amount: u64, fee_bps: u16) -> (r: u64)
    requires
        fee_bps < 10_000,
    ensures
        r == swap_fee_spec(amount as int, fee_bps as int),
        r <= amount,
{
    proof {
        lemma_mul_upper_bound(amount as int, u64::MAX as int, fee_bps as int, 10_000int);
        lemma_mul_is_commutative(amount as int, fee_bps as int);
        lemma_mul_div_le(fee_bps as int, amount as int, 10_000int);
        lemma_mul_nonnegative(amount as int, fee_bps as int);
        lemma_div_pos_is_pos(amount as int * fee_bps as int, 10_000int);
    }
    ((amount as u128) * (fee_bps as u128) / 10_000) as u64
}

/// What remains of a leg's input after the swap fee:
/// `amount * (10000 - fee_bps) / 10000`.
pub fn swap_fee_complement(amount: u64, fee_bps: u16) -> (r: u64)
    requires
        fee_bps < 10_000,
    ensures
        r == crate::numeric::fee_reduced_spec(amount as int, fee_bps as int),
        r <= amount,
{
    proof {
        lemma_mul_upper_bound(amount as int, u64::MAX as int, (10_000 - fee_bps) as int, 10_000int);
        lemma_mul_is_commutative(amount as int, (10_000 - fee_bps) as int);
        lemma_mul_div_le((10_000 - fee_bps) as int, amount as int, 10_000int);
        lemma_mul_nonnegative(amount as int, (10_000 - fee_bps) as int);
        lemma_div_pos_is_pos(amount as int * (10_000 - fee_bps) as int, 10_000int);
    }
    ((amount as u128) * ((10_000 - fee_bps) as u128) / 10_000) as u64
}

/// Flash-loan fee on the borrowed principal: `amount * rate_ppm / 10^6`.
pub open spec fn flash_fee_spec(amount: int, rate_ppm: int) -> int {
    amount * rate_ppm / 1_000_000
}

/// The flash-loan fee on a borrowed principal, never more than the principal.
pub fn flash_fee(amount: u64, rate_ppm: u64) -> (r: u64)
    requires
        rate_ppm <= 1_000_000,
    ensures
        r == flash_fee_spec(amount as int, rate_ppm as int),
        r <= amount,
{
    proof {
        lemma_mul_upper_bound(amount as int, u64::MAX as int, rate_ppm as int, 1_000_000int);
        lemma_mul_is_commutative(amount as int, rate_ppm as int);
        lemma_mul_div_le(rate_ppm as int, amount as int, 1_000_000int);
        lemma_mul_nonnegative(amount as int, rate_ppm as int);
        lemma_div_pos_is_pos(amount as int * rate_ppm as int, 1_000_000int);
    }
    ((amount as u128) * (rate_ppm as u128) / 1_000_000) as u64
}

/// Combined execution probability of two independent legs, in ppm.
pub open spec fn combined_prob_spec(p1: int, p2: int) -> int {
    p1 * p2 / 1_000_000
}

/// Combines two leg probabilities (legs treated as independent).
pub fn combine_prob(p1: u64, p2: u64) -> (r: u64)
    requires
        p1 <= PPM,
        p2 <= PPM,
    ensures
        r == combined_prob_spec(p1 as int, p2 as int),
        r <= PPM,
        r <= p1,
        r <= p2,
{
    proof {
        lemma_mul_upper_bound(p1 as int, PPM as int, p2 as int, PPM as int);
        lemma_mul_nonnegative(p1 as int, p2 as int);
        lemma_div_pos_is_pos(p1 as int * p2 as int, 1_000_000int);
        lemma_mul_is_commutative(p1 as int, p2 as int);
        lemma_mul_div_le(p1 as int, p2 as int, 1_000_000int);
        lemma_mul_div_le(p2 as int, p1 as int, 1_000_000int);
    }
    ((p1 as u128) * (p2 as u128) / 1_000_000) as u64
}

/// Expected value of a candidate in micro-units of profit: net profit times
/// combined probability (divide by 10^6 for whole units).
pub open spec fn ev_micro_spec(net_profit: int, prob_ppm: int) -> int {
    net_profit * prob_ppm
}

/// Expected value in micro-units of profit.
pub fn ev_micro(net_profit: u64, prob_ppm: u64) -> (r: u128)
    requires
        prob_ppm <= PPM,
    ensures
        r == ev_micro_spec(net_profit as int, prob_ppm as int),
{
    proof {
        lemma_mul_upper_bound(net_profit as int, u64::MAX as int, prob_ppm as int, PPM as int);
        lemma_mul_nonnegative(net_profit as int, prob_ppm as int);
    }
    (net_profit as u128) * (prob_ppm as u128)
}

/// Expected-value score, in ppm of a score unit: the expected value
/// normalized by a fixed scale of 10^4 profit units and capped at 100.
pub open spec fn ev_score_spec(net_profit: int, prob_ppm: int) -> int {
    let s = net_profit * prob_ppm / 10_000;
    if s > EV_SCORE_CAP_PPM as int {
        EV_SCORE_CAP_PPM as int
    } else {
        s
    }
}

/// Expected-value score of a candidate, capped at 100 score units.
pub fn ev_score_ppm(net_profit: u64, prob_ppm: u64) -> (r: u64)
    requires
        prob_ppm <= PPM,
    ensures
        r == ev_score_spec(net_profit as int, prob_ppm as int),
        r <= EV_SCORE_CAP_PPM,
{
    proof {
        lemma_mul_upper_bound(net_profit as int, u64::MAX as int, prob_ppm as int, PPM as int);
        lemma_mul_nonnegative(net_profit as int, prob_ppm as int);
        lemma_div_pos_is_pos(net_profit as int * prob_ppm as int, 10_000int);
    }
    let s: u128 = (net_profit as u128) * (prob_ppm as u128) / 10_000;
    if s > EV_SCORE_CAP_PPM as u128 {
        EV_SCORE_CAP_PPM
    } else {
        s as u64
    }
}

/// The expected-value score is monotone in the net profit, the combined
/// probability held fixed.
pub proof fn lemma_ev_score_monotone_in_profit(n1: int, n2: int, prob_ppm: int)
    requires
        0 <= n1 <= n2,
        0 <= prob_ppm,
    ensures
        ev_score_spec(n1, prob_ppm) <= ev_score_spec(n2, prob_ppm),
{
    lemma_mul_inequality(n1, n2, prob_ppm);
    lemma_div_mono(n1 * prob_ppm, n2 * prob_ppm, 10_000);
}

/// The expected-value score is monotone in the combined probability, the net
/// profit held fixed.
pub proof fn lemma_ev_score_monotone_in_prob(net_profit: int, p1: int, p2: int)
    requires
        0 <= net_profit,
        0 <= p1 <= p2,
    ensures
        ev_score_spec(net_profit, p1) <= ev_score_spec(net_profit, p2),
{
    lemma_mul_inequality(p1, p2, net_profit);
    lemma_mul_is_commutative(net_profit, p1);
    lemma_mul_is_commutative(net_profit, p2);
    lemma_div_mono(net_profit * p1, net_profit * p2, 10_000);
}

/// The raw expected value is monotone in both arguments as well.
pub proof fn lemma_ev_micro_monotone(n1: int, n2: int, p1: int, p2: int)
    requires
        0 <= n1 <= n2,
        0 <= p1 <= p2,
    ensures
        ev_micro_spec(n1, p1) <= ev_micro_spec(n2, p2),
{
    lemma_mul_upper_bound(n1, n2, p1, p2);
}

} // verus!

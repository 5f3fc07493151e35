//! The arbitrage search: evaluating a candidate trade size through two pools
//! (two-leg quoting, the fee model, probabilities, expected value), the
//! bounded grid search for the best size, and the per-pair search over all
//! buy/sell pool combinations — together with the laws that an identical
//! price across pools yields nothing and that the combined probability never
//! grows with the trade size.

use vstd::prelude::*;
use crate::keys::{pair_of, Key, TokenPair};
use crate::numeric::{lemma_decay_ppm_bounds, PPM};
use crate::pool::{
    lemma_pool_out_mono, lemma_pool_out_nonneg, liquidity_proxy_spec, pair_price_spec,
    pair_price_usable, pool_impact_spec, pool_out_spec, pool_prob_spec, tradable, DexType,
    PoolState,
};
use crate::profit::{
    combine_prob, combined_prob_spec, confidence_level, confidence_spec, ev_micro, ev_micro_spec,
    ev_score_ppm, ev_score_spec, flash_fee, flash_fee_spec, swap_fee, swap_fee_spec,
    ConfidenceLevel,
};
use crate::store::{served_filter, LiquidityMonitor};
use vstd::arithmetic::div_mod::{lemma_fundamental_div_mod, lemma_mod_bound};
use vstd::arithmetic::mul::{lemma_mul_inequality, lemma_mul_upper_bound};

verus! {

/// Configuration of the search and acceptance gates. Percentages and
/// probabilities are in ppm; amounts in the smallest unit.
#[derive(Clone, Copy, Debug)]
pub struct ArbConfig {
    /// Floor on net profit relative to trade size, in ppm.
    pub min_net_profit_ppm: u64,
    /// Floor on the combined execution probability, in ppm.
    pub min_prob_ppm: u64,
    /// Floor on the expected-value score, in ppm of a score unit.
    pub min_ev_score_ppm: u64,
    /// Per-pool liquidity gate on the liquidity proxy.
    pub min_per_pool_liq: u128,
    /// Combined liquidity gate over the surviving pools.
    pub min_combined_liq: u128,
    /// Smallest trade size in the grid.
    pub min_trade_size: u64,
    /// Largest trade size in the grid (the loan cap).
    pub max_trade_size: u64,
    /// Number of grid steps between the smallest and largest size.
    pub grid_steps: u64,
    /// Flash-loan fee rate in ppm; zero when no loan is modelled.
    pub flash_rate_ppm: u64,
    /// Global override of the per-pool swap fee, in basis points.
    pub swap_fee_override_bps: Option<u16>,
    /// Fixed gas overhead per opportunity, in the smallest unit.
    pub gas_lamports: u64,
    /// Fixed tip per submission, in the smallest unit.
    pub tip_lamports: u64,
}

/// Well-formedness of a search configuration.
pub open spec fn cfg_wf(c: ArbConfig) -> bool {
    &&& 1 <= c.grid_steps <= 1_000
    &&& 1 <= c.min_trade_size <= c.max_trade_size
    &&& c.flash_rate_ppm <= PPM
    &&& (c.swap_fee_override_bps matches Some(f) ==> f < 10_000)
    &&& c.gas_lamports + c.tip_lamports <= u64::MAX
}

impl ArbConfig {
    /// A configuration with the customary defaults: a 20-step grid, a ten-
    /// score-unit EV floor, 9 bps flash rate, 2 x 10000 lamports of gas and a
    /// million-lamport tip.
    pub fn new(
        min_net_profit_ppm: u64,
        min_prob_ppm: u64,
        min_trade_size: u64,
        max_trade_size: u64,
    ) -> (r: ArbConfig)
        requires
            1 <= min_trade_size <= max_trade_size,
        ensures
            cfg_wf(r),
            r.min_net_profit_ppm == min_net_profit_ppm,
            r.min_prob_ppm == min_prob_ppm,
            r.min_ev_score_ppm == 10_000_000,
            r.min_per_pool_liq == 10_000_000_000u128,
            r.min_combined_liq == 50_000_000_000u128,
            r.min_trade_size == min_trade_size,
            r.max_trade_size == max_trade_size,
            r.grid_steps == 20,
            r.flash_rate_ppm == 900,
            r.swap_fee_override_bps is None,
            r.gas_lamports == 20_000,
            r.tip_lamports == 1_000_000,
    {
        ArbConfig {
            min_net_profit_ppm,
            min_prob_ppm,
            min_ev_score_ppm: 10_000_000,
            min_per_pool_liq: 10_000_000_000,
            min_combined_liq: 50_000_000_000,
            min_trade_size,
            max_trade_size,
            grid_steps: 20,
            flash_rate_ppm: 900,
            swap_fee_override_bps: None,
            gas_lamports: 20_000,
            tip_lamports: 1_000_000,
        }
    }

    /// Whether the configuration is well-formed.
    pub fn is_valid(&self) -> (r: bool)
        ensures
            r == cfg_wf(*self),
    {
        1 <= self.grid_steps && self.grid_steps <= 1_000 && 1 <= self.min_trade_size
            && self.min_trade_size <= self.max_trade_size && self.flash_rate_ppm <= PPM && (match self
            .swap_fee_override_bps {
            Some(f) => f < 10_000,
            None => true,
        }) && self.gas_lamports <= u64::MAX - self.tip_lamports
    }
}

/// The effective swap fee of a pool under a configuration: the global
/// override when one is set, else the pool's own total fee.
pub open spec fn effective_fee_spec(p: PoolState, cfg: ArbConfig) -> int {
    match cfg.swap_fee_override_bps {
        Some(f) => f as int,
        None => p.total_fee_bps as int,
    }
}

/// The first leg spends quote for base: it enters the buy pool on the side
/// holding the quote token.
pub open spec fn leg1_a_to_b(buy: PoolState, pair: TokenPair) -> bool {
    buy.token_a == pair.quote
}

/// The second leg spends base for quote on the sell pool.
pub open spec fn leg2_a_to_b(sell: PoolState, pair: TokenPair) -> bool {
    sell.token_a == pair.base
}

/// Net profit relative to the trade size, in ppm, saturated to 64 bits.
pub open spec fn net_ppm_spec(net: int, trade: int) -> int {
    let v = net * 1_000_000 / trade;
    if v > u64::MAX as int {
        u64::MAX as int
    } else {
        v
    }
}

/// A raw candidate arbitrage opportunity: buy at the cheaper pool, sell at
/// the dearer one, with its full fee, probability and expected-value
/// accounting. Amounts are quote units; prices are scaled by
/// `numeric::PRICE_SCALE`; probabilities and percentages are ppm.
#[derive(Clone, Copy, Debug)]
pub struct EnhancedArbitrageOpportunity {
    pub token_pair: TokenPair,
    pub buy_pool: Key,
    pub sell_pool: Key,
    pub buy_dex: DexType,
    pub sell_dex: DexType,
    pub buy_price: u128,
    pub sell_price: u128,
    pub optimal_trade_size: u64,
    pub expected_input: u64,
    pub expected_intermediate: u64,
    pub expected_output: u64,
    pub expected_profit: u64,
    pub swap_fee_leg1: u64,
    pub swap_fee_leg2: u64,
    pub flash_loan_fee: u64,
    pub gas_and_tip: u64,
    pub total_fees: u128,
    pub net_profit: i64,
    pub net_profit_ppm: u64,
    pub buy_pool_impact_bps: u16,
    pub sell_pool_impact_bps: u16,
    pub buy_execution_prob_ppm: u64,
    pub sell_execution_prob_ppm: u64,
    pub combined_execution_prob_ppm: u64,
    pub expected_value_micro: u128,
    pub ev_score_ppm: u64,
    pub observed_unix: u64,
    pub confidence_level: ConfidenceLevel,
}

/// The internal consistency of an emitted opportunity: a real spread, a
/// positive net profit that closes exactly over the fee breakdown, a
/// combined probability in (0, 1], and derived expected-value fields that
/// match their definitions.
pub open spec fn opp_wf(o: EnhancedArbitrageOpportunity) -> bool {
    &&& o.sell_price > o.buy_price > 0
    &&& o.net_profit > 0
    &&& 0 < o.combined_execution_prob_ppm <= PPM
    &&& o.buy_execution_prob_ppm <= PPM
    &&& o.sell_execution_prob_ppm <= PPM
    &&& o.combined_execution_prob_ppm == combined_prob_spec(
        o.buy_execution_prob_ppm as int,
        o.sell_execution_prob_ppm as int,
    )
    &&& o.expected_input == o.optimal_trade_size
    &&& o.optimal_trade_size > 0
    &&& o.total_fees == o.swap_fee_leg1 + o.swap_fee_leg2 + o.flash_loan_fee + o.gas_and_tip
    &&& o.net_profit == o.expected_output - o.expected_input - o.total_fees
    &&& o.expected_profit == o.expected_output - o.expected_input
    &&& o.net_profit_ppm == net_ppm_spec(o.net_profit as int, o.optimal_trade_size as int)
    &&& o.expected_value_micro == ev_micro_spec(
        o.net_profit as int,
        o.combined_execution_prob_ppm as int,
    )
    &&& o.ev_score_ppm == ev_score_spec(
        o.net_profit as int,
        o.combined_execution_prob_ppm as int,
    )
    &&& o.confidence_level == confidence_spec(
        o.combined_execution_prob_ppm as int,
        o.net_profit_ppm as int,
    )
}

/// The acceptance gates on an evaluated candidate.
pub open spec fn passes_gates_spec(o: EnhancedArbitrageOpportunity, cfg: ArbConfig) -> bool {
    &&& o.net_profit_ppm >= cfg.min_net_profit_ppm
    &&& o.combined_execution_prob_ppm >= cfg.min_prob_ppm
    &&& o.ev_score_ppm >= cfg.min_ev_score_ppm
}

/// Whether the candidate clears the configured acceptance gates.
pub fn passes_gates(o: &EnhancedArbitrageOpportunity, cfg: &ArbConfig) -> (r: bool)
    ensures
        r == passes_gates_spec(*o, *cfg),
{
    o.net_profit_ppm >= cfg.min_net_profit_ppm && o.combined_execution_prob_ppm >= cfg.min_prob_ppm
        && o.ev_score_ppm >= cfg.min_ev_score_ppm
}

/// The combined execution probability of the two legs as a function of the
/// trade size alone, the pools and the configuration held fixed.
pub open spec fn combined_prob_of_size(
    buy: PoolState,
    sell: PoolState,
    pair: TokenPair,
    cfg: ArbConfig,
    trade: int,
) -> int {
    let d1 = leg1_a_to_b(buy, pair);
    let d2 = leg2_a_to_b(sell, pair);
    let intermediate = pool_out_spec(buy, trade, d1, effective_fee_spec(buy, cfg));
    combined_prob_spec(
        pool_prob_spec(buy, trade, d1),
        pool_prob_spec(sell, intermediate, d2),
    )
}

/// What one trade size evaluates to: the two-leg output, the fee breakdown,
/// the net profit, the leg and combined probabilities, and the expected-value
/// fields — or nothing, when the first leg quotes nothing, the round trip is
/// not profitable after all fees, the profit overflows its 64-bit carrier, or
/// the combined probability rounds to zero.
pub open spec fn evaluate_spec(
    buy: PoolState,
    sell: PoolState,
    pair: TokenPair,
    buy_price: u128,
    sell_price: u128,
    trade: int,
    cfg: ArbConfig,
    now: u64,
) -> Option<EnhancedArbitrageOpportunity> {
    let f1 = effective_fee_spec(buy, cfg);
    let f2 = effective_fee_spec(sell, cfg);
    let d1 = leg1_a_to_b(buy, pair);
    let d2 = leg2_a_to_b(sell, pair);
    let intermediate = pool_out_spec(buy, trade, d1, f1);
    if intermediate <= 0 {
        None
    } else {
        let output = pool_out_spec(sell, intermediate, d2, f2);
        let fee1 = swap_fee_spec(trade, f1);
        let fee2 = swap_fee_spec(intermediate, f2);
        let flash = flash_fee_spec(trade, cfg.flash_rate_ppm as int);
        let overhead = cfg.gas_lamports + cfg.tip_lamports;
        let fees_total = fee1 + fee2 + flash + overhead;
        let net = output - trade - fees_total;
        if net <= 0 || net > i64::MAX as int {
            None
        } else {
            let p1 = pool_prob_spec(buy, trade, d1);
            let p2 = pool_prob_spec(sell, intermediate, d2);
            let cp = combined_prob_spec(p1, p2);
            if cp <= 0 {
                None
            } else {
                let nppm = net_ppm_spec(net, trade);
                Some(
                    EnhancedArbitrageOpportunity {
                        token_pair: pair,
                        buy_pool: buy.pool_id,
                        sell_pool: sell.pool_id,
                        buy_dex: buy.dex_type,
                        sell_dex: sell.dex_type,
                        buy_price,
                        sell_price,
                        optimal_trade_size: trade as u64,
                        expected_input: trade as u64,
                        expected_intermediate: intermediate as u64,
                        expected_output: output as u64,
                        expected_profit: (output - trade) as u64,
                        swap_fee_leg1: fee1 as u64,
                        swap_fee_leg2: fee2 as u64,
                        flash_loan_fee: flash as u64,
                        gas_and_tip: overhead as u64,
                        total_fees: fees_total as u128,
                        net_profit: net as i64,
                        net_profit_ppm: nppm as u64,
                        buy_pool_impact_bps: pool_impact_spec(buy, trade, d1, f1) as u16,
                        sell_pool_impact_bps: pool_impact_spec(sell, intermediate, d2, f2) as u16,
                        buy_execution_prob_ppm: p1 as u64,
                        sell_execution_prob_ppm: p2 as u64,
                        combined_execution_prob_ppm: cp as u64,
                        expected_value_micro: ev_micro_spec(net, cp) as u128,
                        ev_score_ppm: ev_score_spec(net, cp) as u64,
                        observed_unix: now,
                        confidence_level: confidence_spec(cp, nppm),
                    },
                )
            }
        }
    }
}

/// Evaluates one trade size through the buy and sell pools, returning the
/// fully accounted candidate exactly as [`evaluate_spec`] describes it.
pub fn evaluate_trade_size(
    buy: &PoolState,
    sell: &PoolState,
    pair: &TokenPair,
    buy_price: u128,
    sell_price: u128,
    trade_size: u64,
    cfg: &ArbConfig,
    now: u64,
) -> (r: Option<EnhancedArbitrageOpportunity>)
    requires
        cfg_wf(*cfg),
        tradable(*buy),
        tradable(*sell),
        trade_size > 0,
        0 < buy_price < sell_price,
    ensures
        r == evaluate_spec(*buy, *sell, *pair, buy_price, sell_price, trade_size as int, *cfg, now),
        r matches Some(o) ==> opp_wf(o) && o.token_pair == *pair && o.buy_pool == buy.pool_id
            && o.sell_pool == sell.pool_id && o.buy_price == buy_price && o.sell_price
            == sell_price && o.optimal_trade_size == trade_size && o.observed_unix == now
            && o.combined_execution_prob_ppm == combined_prob_of_size(
            *buy,
            *sell,
            *pair,
            *cfg,
            trade_size as int,
        ),
{
    let f1: u16 = match cfg.swap_fee_override_bps {
        Some(f) => f,
        None => buy.total_fee_bps,
    };
    let f2: u16 = match cfg.swap_fee_override_bps {
        Some(f) => f,
        None => sell.total_fee_bps,
    };
    let d1 = buy.token_a == pair.quote;
    let d2 = sell.token_a == pair.base;
    let (intermediate, impact1) = buy.quote_with_fee(trade_size, d1, f1);
    if intermediate == 0 {
        proof {
            lemma_pool_out_nonneg(*buy, trade_size as int, d1, f1 as int);
        }
        return None;
    }
    let (output, impact2) = sell.quote_with_fee(intermediate, d2, f2);
    let fee1 = swap_fee(trade_size, f1);
    let fee2 = swap_fee(intermediate, f2);
    let flash = flash_fee(trade_size, cfg.flash_rate_ppm);
    let overhead: u64 = cfg.gas_lamports + cfg.tip_lamports;
    let fees_total: u128 = (fee1 as u128) + (fee2 as u128) + (flash as u128) + (overhead as u128);
    let net_wide: i128 = (output as i128) - (trade_size as i128) - (fees_total as i128);
    if net_wide <= 0 || net_wide > i64::MAX as i128 {
        return None;
    }
    let net: u64 = net_wide as u64;
    let p1 = buy.execution_probability(trade_size, d1);
    let p2 = sell.execution_probability(intermediate, d2);
    let cp = combine_prob(p1, p2);
    if cp == 0 {
        return None;
    }
    let nppm_wide: u128 = (net as u128) * 1_000_000 / (trade_size as u128);
    let nppm: u64 = if nppm_wide > u64::MAX as u128 {
        u64::MAX
    } else {
        nppm_wide as u64
    };
    let ev = ev_micro(net, cp);
    let score = ev_score_ppm(net, cp);
    let conf = confidence_level(cp, nppm);
    Some(
        EnhancedArbitrageOpportunity {
            token_pair: *pair,
            buy_pool: buy.pool_id,
            sell_pool: sell.pool_id,
            buy_dex: buy.dex_type,
            sell_dex: sell.dex_type,
            buy_price,
            sell_price,
            optimal_trade_size: trade_size,
            expected_input: trade_size,
            expected_intermediate: intermediate,
            expected_output: output,
            expected_profit: output - trade_size,
            swap_fee_leg1: fee1,
            swap_fee_leg2: fee2,
            flash_loan_fee: flash,
            gas_and_tip: overhead,
            total_fees: fees_total,
            net_profit: net as i64,
            net_profit_ppm: nppm,
            buy_pool_impact_bps: impact1,
            sell_pool_impact_bps: impact2,
            buy_execution_prob_ppm: p1,
            sell_execution_prob_ppm: p2,
            combined_execution_prob_ppm: cp,
            expected_value_micro: ev,
            ev_score_ppm: score,
            observed_unix: now,
            confidence_level: conf,
        },
    )
}

// ----------------------------------------------------------------------------
// Law: monotone size
// ----------------------------------------------------------------------------

/// Monotone size: with the pair and the two pools fixed, a larger trade size
/// never has a larger combined execution probability.
pub proof fn lemma_combined_prob_antitone(
    buy: PoolState,
    sell: PoolState,
    pair: TokenPair,
    cfg: ArbConfig,
    s1: int,
    s2: int,
)
    requires
        tradable(buy),
        cfg_wf(cfg),
        0 <= s1 <= s2,
    ensures
        combined_prob_of_size(buy, sell, pair, cfg, s2) <= combined_prob_of_size(
            buy,
            sell,
            pair,
            cfg,
            s1,
        ),
{
    let d1 = leg1_a_to_b(buy, pair);
    let d2 = leg2_a_to_b(sell, pair);
    let f1 = effective_fee_spec(buy, cfg);
    let o1 = pool_out_spec(buy, s1, d1, f1);
    let o2 = pool_out_spec(buy, s2, d1, f1);
    lemma_pool_out_nonneg(buy, s1, d1, f1);
    lemma_pool_out_mono(buy, s1, s2, d1, f1);
    crate::numeric::lemma_decay_ppm_antitone(
        s1,
        s2,
        crate::pool::prob_reserve_spec(buy, d1),
    );
    crate::numeric::lemma_decay_ppm_antitone(o1, o2, crate::pool::prob_reserve_spec(sell, d2));
    let p1a = pool_prob_spec(buy, s1, d1);
    let p1b = pool_prob_spec(buy, s2, d1);
    let p2a = pool_prob_spec(sell, o1, d2);
    let p2b = pool_prob_spec(sell, o2, d2);
    lemma_decay_ppm_bounds(s1, crate::pool::prob_reserve_spec(buy, d1));
    lemma_decay_ppm_bounds(s2, crate::pool::prob_reserve_spec(buy, d1));
    lemma_decay_ppm_bounds(o1, crate::pool::prob_reserve_spec(sell, d2));
    lemma_decay_ppm_bounds(o2, crate::pool::prob_reserve_spec(sell, d2));
    lemma_mul_upper_bound(p1b, p1a, p2b, p2a);
    crate::numeric::lemma_div_mono(p1b * p2b, p1a * p2a, 1_000_000);
}

// ----------------------------------------------------------------------------
// Grid search
// ----------------------------------------------------------------------------

/// Width of one grid step.
pub open spec fn grid_step_spec(cfg: ArbConfig) -> int {
    (cfg.max_trade_size - cfg.min_trade_size) as int / cfg.grid_steps as int
}

/// The `k`-th trade size of the grid.
pub open spec fn grid_size_spec(cfg: ArbConfig, k: int) -> int {
    cfg.min_trade_size + k * grid_step_spec(cfg)
}

/// The expected value of an optional candidate; nothing scores below
/// everything.
pub open spec fn opt_ev(r: Option<EnhancedArbitrageOpportunity>) -> int {
    match r {
        Some(o) => o.expected_value_micro as int,
        None => -1,
    }
}

/// The better of two optional candidates: higher expected value, then higher
/// net profit; the earlier one on a full tie.
pub open spec fn better_candidate(
    prev: Option<EnhancedArbitrageOpportunity>,
    cand: Option<EnhancedArbitrageOpportunity>,
) -> Option<EnhancedArbitrageOpportunity> {
    match (prev, cand) {
        (Option::None, c) => c,
        (Option::Some(p), Option::None) => Some(p),
        (Option::Some(p), Option::Some(c)) => if c.expected_value_micro > p.expected_value_micro
            || (c.expected_value_micro == p.expected_value_micro && c.net_profit > p.net_profit) {
            Some(c)
        } else {
            Some(p)
        },
    }
}

/// The best candidate over grid indices zero to `k`.
pub open spec fn best_grid_candidate_upto(
    buy: PoolState,
    sell: PoolState,
    pair: TokenPair,
    buy_price: u128,
    sell_price: u128,
    cfg: ArbConfig,
    now: u64,
    k: int,
) -> Option<EnhancedArbitrageOpportunity>
    decreases k + 1,
{
    if k < 0 {
        None
    } else {
        better_candidate(
            best_grid_candidate_upto(buy, sell, pair, buy_price, sell_price, cfg, now, k - 1),
            evaluate_spec(buy, sell, pair, buy_price, sell_price, grid_size_spec(cfg, k), cfg, now),
        )
    }
}

/// What the grid search returns for a pool pair: the best candidate over the
/// whole grid, ties broken toward higher net profit and then the smaller
/// size.
pub open spec fn best_grid_candidate(
    buy: PoolState,
    sell: PoolState,
    pair: TokenPair,
    buy_price: u128,
    sell_price: u128,
    cfg: ArbConfig,
    now: u64,
) -> Option<EnhancedArbitrageOpportunity> {
    best_grid_candidate_upto(
        buy,
        sell,
        pair,
        buy_price,
        sell_price,
        cfg,
        now,
        cfg.grid_steps as int,
    )
}

/// Grid sizes stay within the configured bounds.
proof fn lemma_grid_size_bounds(cfg: ArbConfig, k: int)
    requires
        cfg_wf(cfg),
        0 <= k <= cfg.grid_steps,
    ensures
        cfg.min_trade_size <= grid_size_spec(cfg, k) <= cfg.max_trade_size,
{
    let span = (cfg.max_trade_size - cfg.min_trade_size) as int;
    let step = grid_step_spec(cfg);
    vstd::arithmetic::div_mod::lemma_div_pos_is_pos(span, cfg.grid_steps as int);
    lemma_mul_inequality(k, cfg.grid_steps as int, step);
    lemma_fundamental_div_mod(span, cfg.grid_steps as int);
    lemma_mod_bound(span, cfg.grid_steps as int);
    vstd::arithmetic::mul::lemma_mul_nonnegative(k, step);
    vstd::arithmetic::mul::lemma_mul_is_commutative(cfg.grid_steps as int, step);
}

/// Searches the bounded grid of trade sizes between the configured minimum
/// and maximum for the candidate with the greatest expected value (ties:
/// higher net profit, then the smaller size). Returns `None` exactly when no
/// grid size evaluates to a candidate.
pub fn calculate_arbitrage(
    buy: &PoolState,
    sell: &PoolState,
    pair: &TokenPair,
    buy_price: u128,
    sell_price: u128,
    cfg: &ArbConfig,
    now: u64,
) -> (r: Option<EnhancedArbitrageOpportunity>)
    requires
        cfg_wf(*cfg),
        tradable(*buy),
        tradable(*sell),
        0 < buy_price < sell_price,
    ensures
        r == best_grid_candidate(*buy, *sell, *pair, buy_price, sell_price, *cfg, now),
        r is Some <==> exists|k: int|
            0 <= k <= cfg.grid_steps && evaluate_spec(
                *buy,
                *sell,
                *pair,
                buy_price,
                sell_price,
                grid_size_spec(*cfg, k),
                *cfg,
                now,
            ) is Some,
        r matches Some(o) ==> exists|k: int|
            0 <= k <= cfg.grid_steps && Some(o) == evaluate_spec(
                *buy,
                *sell,
                *pair,
                buy_price,
                sell_price,
                grid_size_spec(*cfg, k),
                *cfg,
                now,
            ),
        r matches Some(o) ==> forall|k: int|
            0 <= k <= cfg.grid_steps ==> opt_ev(
                evaluate_spec(
                    *buy,
                    *sell,
                    *pair,
                    buy_price,
                    sell_price,
                    grid_size_spec(*cfg, k),
                    *cfg,
                    now,
                ),
            ) <= o.expected_value_micro,
        r matches Some(o) ==> opp_wf(o) && o.token_pair == *pair && o.buy_pool == buy.pool_id
            && o.sell_pool == sell.pool_id && o.buy_price == buy_price && o.sell_price
            == sell_price && o.observed_unix == now,
{
    let steps = cfg.grid_steps;
    let step: u64 = (cfg.max_trade_size - cfg.min_trade_size) / steps;
    let mut best: Option<EnhancedArbitrageOpportunity> = None;
    let mut k: u64 = 0;
    while k <= steps
        invariant
            cfg_wf(*cfg),
            tradable(*buy),
            tradable(*sell),
            0 < buy_price < sell_price,
            steps == cfg.grid_steps,
            step == grid_step_spec(*cfg),
            k <= steps + 1,
            best == best_grid_candidate_upto(
                *buy,
                *sell,
                *pair,
                buy_price,
                sell_price,
                *cfg,
                now,
                k as int - 1,
            ),
            best is Some <==> exists|t: int|
                0 <= t < k && evaluate_spec(
                    *buy,
                    *sell,
                    *pair,
                    buy_price,
                    sell_price,
                    grid_size_spec(*cfg, t),
                    *cfg,
                    now,
                ) is Some,
            best matches Some(o) ==> exists|t: int|
                0 <= t < k && Some(o) == evaluate_spec(
                    *buy,
                    *sell,
                    *pair,
                    buy_price,
                    sell_price,
                    grid_size_spec(*cfg, t),
                    *cfg,
                    now,
                ),
            best matches Some(o) ==> forall|t: int|
                0 <= t < k ==> opt_ev(
                    evaluate_spec(
                        *buy,
                        *sell,
                        *pair,
                        buy_price,
                        sell_price,
                        grid_size_spec(*cfg, t),
                        *cfg,
                        now,
                    ),
                ) <= o.expected_value_micro,
            best matches Some(o) ==> opp_wf(o) && o.token_pair == *pair && o.buy_pool
                == buy.pool_id && o.sell_pool == sell.pool_id && o.buy_price == buy_price
                && o.sell_price == sell_price && o.observed_unix == now,
        decreases steps + 1 - k,
    {
        proof {
            lemma_grid_size_bounds(*cfg, k as int);
        }
        let trade: u64 = cfg.min_trade_size + k * step;
        let cand = evaluate_trade_size(buy, sell, pair, buy_price, sell_price, trade, cfg, now);
        match (&cand, &best) {
            (Some(c), Some(b)) => {
                if c.expected_value_micro > b.expected_value_micro
                    || (c.expected_value_micro == b.expected_value_micro && c.net_profit
                    > b.net_profit) {
                    best = cand;
                }
            },
            (Some(_), None) => {
                best = cand;
            },
            _ => {},
        }
        k = k + 1;
    }
    best
}

// ----------------------------------------------------------------------------
// Per-pair search
// ----------------------------------------------------------------------------

/// Whether the opportunity's two prices are the pair prices of candidate
/// pools from `cands`.
pub open spec fn from_candidates(
    o: EnhancedArbitrageOpportunity,
    cands: Seq<PoolState>,
    pair: TokenPair,
) -> bool {
    exists|i: int, j: int|
        0 <= i < cands.len() && 0 <= j < cands.len() && o.buy_price == pair_price_spec(
            #[trigger] cands[i],
            pair,
        ) && o.sell_price == pair_price_spec(#[trigger] cands[j], pair)
}

/// The predicate selecting the pools that survive the per-pool gates of the
/// search: tradable, enough liquidity, and a defined positive pair price.
pub open spec fn survivor_filter(pair: TokenPair, cfg: ArbConfig) -> spec_fn(PoolState) -> bool {
    |q: PoolState| tradable(q) && liquidity_proxy_spec(q) >= cfg.min_per_pool_liq
        && pair_price_usable(q, pair)
}

/// The sum of the survivors' liquidity proxies, saturated at `u128::MAX`.
pub open spec fn proxy_sum_sat(s: Seq<PoolState>) -> int
    decreases s.len(),
{
    if s.len() == 0 {
        0int
    } else {
        let rest = proxy_sum_sat(s.drop_last());
        if rest + liquidity_proxy_spec(s.last()) > u128::MAX {
            u128::MAX as int
        } else {
            rest + liquidity_proxy_spec(s.last())
        }
    }
}

/// An ordered pair of distinct survivors the search must try: different
/// protocol variants and a strictly positive spread from `ti` (buy) to `tj`
/// (sell).
pub open spec fn qualifying(survs: Seq<PoolState>, pair: TokenPair, ti: int, tj: int) -> bool {
    &&& 0 <= ti < survs.len()
    &&& 0 <= tj < survs.len()
    &&& tj != ti
    &&& survs[ti].dex_type != survs[tj].dex_type
    &&& pair_price_spec(survs[tj], pair) > pair_price_spec(survs[ti], pair)
}

/// What the search owes a qualifying pair: if the pair's best grid candidate
/// exists and clears the acceptance gates, it is in the output.
pub open spec fn pair_result_in(
    out: Seq<EnhancedArbitrageOpportunity>,
    survs: Seq<PoolState>,
    pair: TokenPair,
    cfg: ArbConfig,
    now: u64,
    ti: int,
    tj: int,
) -> bool {
    match best_grid_candidate(
        survs[ti],
        survs[tj],
        pair,
        pair_price_spec(survs[ti], pair) as u128,
        pair_price_spec(survs[tj], pair) as u128,
        cfg,
        now,
    ) {
        Option::Some(o) => passes_gates_spec(o, cfg) ==> out.contains(o),
        Option::None => true,
    }
}

/// Completeness of a search output for a pair over a store's records: unless
/// the liquidity gates end the search (fewer than two survivors, or combined
/// liquidity under the floor), every qualifying ordered pair of survivors
/// whose best grid candidate clears the gates has that candidate in the
/// output.
pub open spec fn search_complete(
    out: Seq<EnhancedArbitrageOpportunity>,
    store_view: Seq<PoolState>,
    max_age: u64,
    token_a: Key,
    token_b: Key,
    cfg: ArbConfig,
    now: u64,
) -> bool {
    let pair = pair_of(token_a, token_b);
    let survs = store_view.filter(served_filter(pair, now, max_age)).filter(
        survivor_filter(pair, cfg),
    );
    ||| survs.len() < 2
    ||| proxy_sum_sat(survs) < cfg.min_combined_liq
    ||| forall|ti: int, tj: int|
        #[trigger] qualifying(survs, pair, ti, tj) ==> pair_result_in(
            out,
            survs,
            pair,
            cfg,
            now,
            ti,
            tj,
        )
}

/// A sequence containing everything a search-complete sequence contains is
/// search-complete itself.
pub proof fn lemma_search_complete_extend(
    a: Seq<EnhancedArbitrageOpportunity>,
    b: Seq<EnhancedArbitrageOpportunity>,
    store_view: Seq<PoolState>,
    max_age: u64,
    token_a: Key,
    token_b: Key,
    cfg: ArbConfig,
    now: u64,
)
    requires
        search_complete(a, store_view, max_age, token_a, token_b, cfg, now),
        forall|x: EnhancedArbitrageOpportunity| a.contains(x) ==> b.contains(x),
    ensures
        search_complete(b, store_view, max_age, token_a, token_b, cfg, now),
{
    let pair = pair_of(token_a, token_b);
    let survs = store_view.filter(served_filter(pair, now, max_age)).filter(
        survivor_filter(pair, cfg),
    );
    if survs.len() >= 2 && proxy_sum_sat(survs) >= cfg.min_combined_liq {
        assert forall|ti: int, tj: int| #[trigger] qualifying(survs, pair, ti, tj) implies
        pair_result_in(b, survs, pair, cfg, now, ti, tj) by {
            assert(pair_result_in(a, survs, pair, cfg, now, ti, tj));
        }
    }
}

/// A pushed element keeps everything the sequence contained.
proof fn lemma_contains_after_push(
    s: Seq<EnhancedArbitrageOpportunity>,
    x: EnhancedArbitrageOpportunity,
    y: EnhancedArbitrageOpportunity,
)
    requires
        s.contains(y),
    ensures
        s.push(x).contains(y),
{
    let w = choose|w: int| 0 <= w < s.len() && s[w] == y;
    assert(s.push(x)[w] == y);
}

/// Identity scan: when every candidate pool quotes the pair at one and the/// Identity scan: when every candidate pool quotes the pair at one and the
/// same price, the search emits nothing — each emitted opportunity takes its
/// two prices from candidate pools and keeps a strictly positive spread.
pub proof fn lemma_identity_scan(
    opps: Seq<EnhancedArbitrageOpportunity>,
    cands: Seq<PoolState>,
    pair: TokenPair,
)
    requires
        forall|k: int|
            0 <= k < opps.len() ==> opp_wf(#[trigger] opps[k]) && from_candidates(
                opps[k],
                cands,
                pair,
            ),
        forall|i: int, j: int|
            0 <= i < cands.len() && 0 <= j < cands.len() ==> pair_price_spec(
                #[trigger] cands[i],
                pair,
            ) == pair_price_spec(#[trigger] cands[j], pair),
    ensures
        opps.len() == 0,
{
    if opps.len() > 0 {
        let o = opps[0];
        assert(opp_wf(o) && from_candidates(o, cands, pair));
        let (i, j) = choose|i: int, j: int|
            0 <= i < cands.len() && 0 <= j < cands.len() && o.buy_price == pair_price_spec(
                #[trigger] cands[i],
                pair,
            ) && o.sell_price == pair_price_spec(#[trigger] cands[j], pair);
        assert(pair_price_spec(cands[i], pair) == pair_price_spec(cands[j], pair));
        assert(o.sell_price > o.buy_price);
        assert(false);
    }
}

/// Searches one token pair across the pools the store currently serves for
/// it: applies the per-pool and combined liquidity gates, walks every
/// ordered buy/sell combination of distinct protocol variants whose prices
/// show a positive spread, grid-searches each for the best trade size, and
/// keeps the candidates that clear the acceptance gates. Every emitted
/// opportunity is internally consistent, clears the gates, and takes its two
/// prices from served candidate pools — and, completeness, every qualifying
/// pair's passing best candidate is emitted.
pub fn find_opportunities_for_pair(
    store: &LiquidityMonitor,
    token_a: Key,
    token_b: Key,
    cfg: &ArbConfig,
    now: u64,
) -> (r: Vec<EnhancedArbitrageOpportunity>)
    requires
        store.wf(),
        cfg_wf(*cfg),
    ensures
        ({
            let pair = pair_of(token_a, token_b);
            let cands = store.view().filter(served_filter(pair, now, store.max_age_spec()));
            forall|k: int|
                0 <= k < r@.len() ==> opp_wf(#[trigger] r@[k]) && passes_gates_spec(r@[k], *cfg)
                    && r@[k].token_pair == pair && r@[k].observed_unix == now && from_candidates(
                    r@[k],
                    cands,
                    pair,
                )
        }),
        search_complete(r@, store.view(), store.max_age_spec(), token_a, token_b, *cfg, now),
{
    broadcast use vstd::seq_lib::group_filter_ensures;

    let pair = TokenPair::new(token_a, token_b);
    let cands_vec = store.get_pools_for_pair(token_a, token_b, now);
    let ghost cands = cands_vec@;
    let ghost spred = survivor_filter(pair_of(token_a, token_b), *cfg);
    let mut surv: Vec<PoolState> = Vec::new();
    let n = cands_vec.len();
    proof {
        assert(cands.take(0int) =~= Seq::<PoolState>::empty());
        assert(Seq::<PoolState>::empty().filter(spred) =~= Seq::<PoolState>::empty()) by {
            reveal(Seq::filter);
        }
    }
    for i in 0..n
        invariant
            n == cands_vec@.len(),
            cands_vec@ == cands,
            pair == pair_of(token_a, token_b),
            cfg_wf(*cfg),
            spred == survivor_filter(pair_of(token_a, token_b), *cfg),
            surv@ == cands.take(i as int).filter(spred),
    {
        let p = cands_vec[i];
        let keep = p.is_tradable() && p.liquidity_proxy() >= cfg.min_per_pool_liq
            && p.marginal_price(&pair).is_some();
        proof {
            assert(cands.take(i + 1).drop_last() =~= cands.take(i as int));
            assert(cands.take(i + 1) =~= cands.take(i as int).push(cands[i as int]));
            Seq::lemma_filter_push(cands.take(i as int), cands[i as int], spred);
            assert(keep == spred(cands[i as int]));
        }
        if keep {
            surv.push(p);
        }
    }
    proof {
        assert(cands.take(n as int) =~= cands);
    }
    let ghost survs = cands.filter(spred);
    let mut out: Vec<EnhancedArbitrageOpportunity> = Vec::new();
    if surv.len() < 2 {
        return out;
    }
    let m = surv.len();
    let mut combined: u128 = 0;
    for i in 0..m
        invariant
            m == surv@.len(),
            surv@ == survs,
            combined == proxy_sum_sat(survs.take(i as int)),
    {
        let lp = surv[i].liquidity_proxy();
        proof {
            assert(survs.take(i + 1).drop_last() =~= survs.take(i as int));
            assert(survs.take(i + 1).last() == survs[i as int]);
        }
        if combined > u128::MAX - lp {
            combined = u128::MAX;
        } else {
            combined = combined + lp;
        }
    }
    proof {
        assert(survs.take(m as int) =~= survs);
    }
    if combined < cfg.min_combined_liq {
        return out;
    }
    for i in 0..m
        invariant
            m == surv@.len(),
            surv@ == survs,
            survs == cands.filter(spred),
            pair == pair_of(token_a, token_b),
            cfg_wf(*cfg),
            spred == survivor_filter(pair_of(token_a, token_b), *cfg),
            forall|k: int|
                0 <= k < out@.len() ==> opp_wf(#[trigger] out@[k]) && passes_gates_spec(
                    out@[k],
                    *cfg,
                ) && out@[k].token_pair == pair_of(token_a, token_b) && out@[k].observed_unix == now
                    && from_candidates(out@[k], cands, pair_of(token_a, token_b)),
            forall|ti: int, tj: int|
                #[trigger] qualifying(survs, pair_of(token_a, token_b), ti, tj) && ti < i
                    ==> pair_result_in(out@, survs, pair_of(token_a, token_b), *cfg, now, ti, tj),
    {
        for j in 0..m
            invariant
                m == surv@.len(),
                0 <= i < m,
                surv@ == survs,
                survs == cands.filter(spred),
                pair == pair_of(token_a, token_b),
                cfg_wf(*cfg),
                spred == survivor_filter(pair_of(token_a, token_b), *cfg),
                forall|k: int|
                    0 <= k < out@.len() ==> opp_wf(#[trigger] out@[k]) && passes_gates_spec(
                        out@[k],
                        *cfg,
                    ) && out@[k].token_pair == pair_of(token_a, token_b) && out@[k].observed_unix
                        == now && from_candidates(out@[k], cands, pair_of(token_a, token_b)),
                forall|ti: int, tj: int|
                    #[trigger] qualifying(survs, pair_of(token_a, token_b), ti, tj) && (ti < i || (
                    ti == i && tj < j)) ==> pair_result_in(
                        out@,
                        survs,
                        pair_of(token_a, token_b),
                        *cfg,
                        now,
                        ti,
                        tj,
                    ),
        {
            if j != i {
                proof {
                    assert(spred(survs[i as int])) by {
                        Seq::lemma_filter_pred(cands, spred, i as int);
                    }
                    assert(spred(survs[j as int])) by {
                        Seq::lemma_filter_pred(cands, spred, j as int);
                    }
                }
                let buy_pool = surv[i];
                let sell_pool = surv[j];
                let bp = match buy_pool.marginal_price(&pair) {
                    Some(v) => v,
                    None => {
                        proof {
                            assert(false);
                        }
                        0
                    },
                };
                let sp = match sell_pool.marginal_price(&pair) {
                    Some(v) => v,
                    None => {
                        proof {
                            assert(false);
                        }
                        0
                    },
                };
                let ghost prev_out = out@;
                if buy_pool.dex_type != sell_pool.dex_type && sp > bp {
                    match calculate_arbitrage(&buy_pool, &sell_pool, &pair, bp, sp, cfg, now) {
                        Some(o) => {
                            if passes_gates(&o, cfg) {
                                proof {
                                    let wi = choose|w: int|
                                        0 <= w < cands.len() && #[trigger] cands[w] == survs[
                                            i as int
                                        ];
                                    let wj = choose|w: int|
                                        0 <= w < cands.len() && #[trigger] cands[w] == survs[
                                            j as int
                                        ];
                                    assert(cands.contains(survs[i as int])) by {
                                        Seq::lemma_filter_contains_rev(
                                            cands,
                                            spred,
                                            survs[i as int],
                                        );
                                        assert(survs.contains(survs[i as int]));
                                    }
                                    assert(cands.contains(survs[j as int])) by {
                                        Seq::lemma_filter_contains_rev(
                                            cands,
                                            spred,
                                            survs[j as int],
                                        );
                                        assert(survs.contains(survs[j as int]));
                                    }
                                }
                                out.push(o);
                                proof {
                                    let gpair = pair_of(token_a, token_b);
                                    assert(out@[out@.len() - 1] == o);
                                    assert(from_candidates(o, cands, gpair)) by {
                                        let wi = choose|w: int|
                                            0 <= w < cands.len() && #[trigger] cands[w] == survs[
                                                i as int
                                            ];
                                        let wj = choose|w: int|
                                            0 <= w < cands.len() && #[trigger] cands[w] == survs[
                                                j as int
                                            ];
                                        assert(o.buy_price == pair_price_spec(cands[wi], gpair));
                                        assert(o.sell_price == pair_price_spec(cands[wj], gpair));
                                    }
                                }
                            }
                        },
                        None => {},
                    }
                }
                proof {
                    let gpair = pair_of(token_a, token_b);
                    assert forall|ti: int, tj: int|
                        #[trigger] qualifying(survs, gpair, ti, tj) && (ti < i || (ti == i && tj
                            <= j)) implies pair_result_in(
                        out@,
                        survs,
                        gpair,
                        *cfg,
                        now,
                        ti,
                        tj,
                    ) by {
                        if ti == i && tj == j {
                            // this very pair was just tried: qualifying means the
                            // variants differ and the spread is positive
                            assert(bp == pair_price_spec(survs[i as int], gpair));
                            assert(sp == pair_price_spec(survs[j as int], gpair));
                            match best_grid_candidate(
                                survs[ti],
                                survs[tj],
                                gpair,
                                pair_price_spec(survs[ti], gpair) as u128,
                                pair_price_spec(survs[tj], gpair) as u128,
                                *cfg,
                                now,
                            ) {
                                Option::Some(o2) => {
                                    if passes_gates_spec(o2, *cfg) {
                                        assert(out@.contains(o2)) by {
                                            assert(out@[out@.len() - 1] == o2);
                                        }
                                    }
                                },
                                Option::None => {},
                            }
                        } else {
                            assert(pair_result_in(prev_out, survs, gpair, *cfg, now, ti, tj));
                            match best_grid_candidate(
                                survs[ti],
                                survs[tj],
                                gpair,
                                pair_price_spec(survs[ti], gpair) as u128,
                                pair_price_spec(survs[tj], gpair) as u128,
                                *cfg,
                                now,
                            ) {
                                Option::Some(o2) => {
                                    if passes_gates_spec(o2, *cfg) && prev_out.contains(o2)
                                        && out@ != prev_out {
                                        lemma_contains_after_push(
                                            prev_out,
                                            out@[out@.len() - 1],
                                            o2,
                                        );
                                        assert(out@ =~= prev_out.push(out@[out@.len() - 1]));
                                    }
                                },
                                Option::None => {},
                            }
                        }
                    }
                }
            } else {
                proof {
                    let gpair = pair_of(token_a, token_b);
                    assert forall|ti: int, tj: int|
                        #[trigger] qualifying(survs, gpair, ti, tj) && (ti < i || (ti == i && tj
                            <= j)) implies pair_result_in(
                        out@,
                        survs,
                        gpair,
                        *cfg,
                        now,
                        ti,
                        tj,
                    ) by {
                        assert(!(ti == i && tj == j));
                    }
                }
            }
        }
    }
    out
}

} // verus!

//! End-to-end scenarios: the canonical two-pool arbitrage, a spread on the
//! fee floor, an illiquid pool, a cross-variant pair, an oracle rejection,
//! and a transport reconnect.

use arb_engine::engine::{
    EnhancedArbitrageDetector, MonitoredPair, ReconnectDecision, ReconnectPolicy, StreamEvent,
    StreamOrchestrator,
};
use arb_engine::keys::Key;
use arb_engine::oracle::{
    OracleValidationConfig, PythArbValidator, PythPriceData, ValidationCode,
};
use arb_engine::pool::{DexType, PoolState};
use arb_engine::profit::ConfidenceLevel;
use arb_engine::search::{find_opportunities_for_pair, ArbConfig, EnhancedArbitrageOpportunity};
use arb_engine::store::LiquidityMonitor;

fn key(n: u128) -> Key {
    Key { hi: 0, lo: n }
}

const BASE: u128 = 1;
const QUOTE: u128 = 2;
const NOW: u64 = 1_700_000_000;

fn cpmm_pool(id: u128, dex: DexType, reserve_base: u64, reserve_quote: u64) -> PoolState {
    PoolState {
        pool_id: key(id),
        dex_type: dex,
        token_a: key(BASE),
        token_b: key(QUOTE),
        reserve_a: reserve_base,
        reserve_b: reserve_quote,
        liquidity: 0,
        sqrt_price_q64: None,
        active_bin_id: None,
        bin_step_bps: None,
        total_fee_bps: 25,
        last_updated_unix: NOW,
        last_trade_unix: Some(NOW),
    }
}

fn cl_pool(id: u128, sqrt_price_q64: u128, liquidity: u128) -> PoolState {
    PoolState {
        pool_id: key(id),
        dex_type: DexType::RaydiumClmm,
        token_a: key(BASE),
        token_b: key(QUOTE),
        reserve_a: 0,
        reserve_b: 0,
        liquidity,
        sqrt_price_q64: Some(sqrt_price_q64),
        active_bin_id: None,
        bin_step_bps: None,
        total_fee_bps: 25,
        last_updated_unix: NOW,
        last_trade_unix: Some(NOW),
    }
}

/// The scenario configuration: 0.3% net-profit floor, 0.4 probability floor,
/// 9 bps flash rate, small fixed overheads, no EV-score floor.
fn scenario_config(min_trade: u64, max_trade: u64) -> ArbConfig {
    let mut cfg = ArbConfig::new(3_000, 400_000, min_trade, max_trade);
    cfg.min_ev_score_ppm = 0;
    cfg.gas_lamports = 10_000;
    cfg.tip_lamports = 10_000;
    cfg
}

/// Canonical arbitrage: two constant-product pools of different variants at
/// prices 1.0 and about 1.02 yield exactly one admitted opportunity, buying
/// at the cheap pool, with a grid-aligned trade size, a positive net profit
/// and a medium-or-better confidence tag.
#[test]
fn test_canonical_arb_scenario() {
    let mut store = LiquidityMonitor::new(60);
    store.update_pool(cpmm_pool(101, DexType::RaydiumCpmm, 10_000_000_000, 10_000_000_000));
    store.update_pool(cpmm_pool(102, DexType::RaydiumAmmV4, 5_000_000_000, 5_100_000_000));

    let cfg = scenario_config(1_000_000, 20_000_000);
    let found = find_opportunities_for_pair(&store, key(BASE), key(QUOTE), &cfg, NOW);

    assert_eq!(found.len(), 1);
    let o = &found[0];
    assert_eq!(o.buy_pool, key(101));
    assert_eq!(o.sell_pool, key(102));
    assert_eq!(o.buy_price, 1_000_000_000);
    assert_eq!(o.sell_price, 1_020_000_000);
    assert!(o.net_profit > 0);
    // the chosen size lies on the grid
    let step = (20_000_000u64 - 1_000_000) / 20;
    assert!((o.optimal_trade_size - 1_000_000) % step == 0);
    assert!(o.optimal_trade_size >= 1_000_000 && o.optimal_trade_size <= 20_000_000);
    // and is the one the model ranks best
    assert_eq!(o.optimal_trade_size, 15_250_000);
    assert_eq!(o.net_profit, 47_306);
    assert_eq!(o.combined_execution_prob_ppm, 977_445);
    assert!(
        o.confidence_level == ConfidenceLevel::Medium || o.confidence_level == ConfidenceLevel::High
    );
}

/// Spread exactly on the fee floor: a 0.1% spread cannot cover the fees, so
/// nothing is admitted.
#[test]
fn test_spread_on_fee_floor() {
    let mut store = LiquidityMonitor::new(60);
    store.update_pool(cpmm_pool(111, DexType::RaydiumCpmm, 10_000_000_000, 10_000_000_000));
    store.update_pool(cpmm_pool(112, DexType::RaydiumAmmV4, 5_000_000_000, 5_005_000_000));

    let cfg = scenario_config(1_000_000, 20_000_000);
    let found = find_opportunities_for_pair(&store, key(BASE), key(QUOTE), &cfg, NOW);
    assert_eq!(found.len(), 0);
}

/// Illiquid pool filtered: the tiny pool falls under the per-pool liquidity
/// gate and the search emits nothing.
#[test]
fn test_illiquid_pool_filtered() {
    let mut store = LiquidityMonitor::new(60);
    store.update_pool(cpmm_pool(121, DexType::RaydiumCpmm, 10_000_000_000, 10_000_000_000));
    store.update_pool(cpmm_pool(122, DexType::RaydiumAmmV4, 10_000, 10_200));

    let cfg = scenario_config(1_000_000, 20_000_000);
    let found = find_opportunities_for_pair(&store, key(BASE), key(QUOTE), &cfg, NOW);
    assert_eq!(found.len(), 0);
}

/// Cross-variant pair: a constant-product pool at 1.0 against a
/// concentrated-liquidity pool at about 1.02 yields one opportunity, and the
/// second leg's probability decays as the trade grows.
#[test]
fn test_cl_cpmm_cross_variant() {
    // floor(sqrt(1.02) * 2^64)
    let sq: u128 = 18_630_298_286_913_101_186;
    let cl = cl_pool(132, sq, 1_000_000_000_000);
    assert_eq!(cl.marginal_price_ab(), Some(1_019_999_999));

    let mut store = LiquidityMonitor::new(60);
    store.update_pool(cpmm_pool(131, DexType::RaydiumCpmm, 10_000_000_000, 10_000_000_000));
    store.update_pool(cl);

    let mut cfg = scenario_config(10_000, 100_000);
    cfg.gas_lamports = 0;
    cfg.tip_lamports = 0;
    let found = find_opportunities_for_pair(&store, key(BASE), key(QUOTE), &cfg, NOW);

    assert_eq!(found.len(), 1);
    let o = &found[0];
    assert_eq!(o.buy_price, 1_000_000_000);
    assert_eq!(o.sell_price, 1_019_999_999);
    assert!(o.net_profit > 0);

    // the second leg's probability decays with the trade size
    let cl = cl_pool(132, sq, 1_000_000_000_000);
    let p_small = cl.execution_probability(10_000_000_000, true);
    let p_large = cl.execution_probability(100_000_000_000, true);
    assert!(p_large < p_small);
    assert!(p_small < 1_000_000);
}

/// Oracle rejection: a 20% deviation of the average pool price from the
/// oracle price fails the balanced preset's 5% gate with a price-deviation
/// verdict, at a fresh record with a tight confidence interval.
#[test]
fn test_oracle_rejects_price_deviation() {
    let validator = PythArbValidator::new(OracleValidationConfig::balanced());

    let opportunity = EnhancedArbitrageOpportunity {
        token_pair: arb_engine::keys::TokenPair { base: key(BASE), quote: key(QUOTE) },
        buy_pool: key(141),
        sell_pool: key(142),
        buy_dex: DexType::RaydiumCpmm,
        sell_dex: DexType::RaydiumAmmV4,
        buy_price: 1_150_000_000,
        sell_price: 1_250_000_000, // average pool price 1.2
        optimal_trade_size: 1_000_000,
        expected_input: 1_000_000,
        expected_intermediate: 990_000,
        expected_output: 1_010_000,
        expected_profit: 10_000,
        swap_fee_leg1: 2_500,
        swap_fee_leg2: 2_475,
        flash_loan_fee: 900,
        gas_and_tip: 100,
        total_fees: 5_975,
        net_profit: 4_025,
        net_profit_ppm: 4_025,
        buy_pool_impact_bps: 10,
        sell_pool_impact_bps: 12,
        buy_execution_prob_ppm: 990_000,
        sell_execution_prob_ppm: 990_000,
        combined_execution_prob_ppm: 980_100,
        expected_value_micro: 3_944_902_500,
        ev_score_ppm: 394_490,
        observed_unix: NOW,
        confidence_level: ConfidenceLevel::Medium,
    };

    // oracle price 1.0 (mantissa 10^8 at exponent -8), confidence 0.2%, 5 s old
    let oracle = PythPriceData {
        price: 100_000_000,
        confidence: 200_000,
        expo: -8,
        ema_price: 100_000_000,
        ema_confidence: 100_000,
        publish_time: (NOW - 5) as i64,
        last_updated_unix: NOW - 5,
    };

    let verdict = validator.validate_opportunity(&opportunity, Some(oracle), NOW);
    assert!(!verdict.is_valid);
    assert_eq!(verdict.code, ValidationCode::PriceDeviation);
    assert_eq!(verdict.oracle_price, Some(1_000_000_000));
    assert_eq!(verdict.pool_price, Some(1_200_000_000));
    assert_eq!(verdict.deviation_ppm, Some(200_000)); // 20%
}

/// Reconnect: after three events the transport fails; the orchestrator
/// retries on the first attempt with the base delay (under the cap), keeps
/// its internal state, and its counters keep advancing once events resume.
#[test]
fn test_reconnect_preserves_state() {
    let cfg = scenario_config(1_000_000, 20_000_000);
    let pairs = vec![MonitoredPair { name: "base/quote".to_string(), token_a: key(BASE), token_b: key(QUOTE) }];
    let detector = EnhancedArbitrageDetector::new(pairs, cfg, 60, 100);
    let policy = ReconnectPolicy { base_secs: 2, cap_secs: 60, max_attempts: 10 };
    let mut orchestrator = StreamOrchestrator::new(detector, policy, 5);

    orchestrator.handle_event(
        StreamEvent::PoolStateUpdate(
            cpmm_pool(151, DexType::RaydiumCpmm, 10_000_000_000, 10_000_000_000),
        ),
        NOW,
    );
    orchestrator.handle_event(
        StreamEvent::PoolStateUpdate(
            cpmm_pool(152, DexType::RaydiumAmmV4, 5_000_000_000, 5_100_000_000),
        ),
        NOW + 1,
    );
    let first_scan =
        orchestrator.handle_event(StreamEvent::BlockMeta { unix_time: NOW + 2 }, NOW + 2);
    assert_eq!(orchestrator.health().events_received, 3);
    assert_eq!(orchestrator.health().updates_applied, 2);
    assert_eq!(orchestrator.health().scans_run, 1);
    assert_eq!(first_scan.len(), 1);
    assert_eq!(orchestrator.pool_count(), 2);

    // the transport closes; the first retry waits the base delay, under the cap
    let decision = orchestrator.on_transport_error();
    assert_eq!(decision, ReconnectDecision::Retry { delay_secs: 2 });
    assert_eq!(orchestrator.health().reconnects, 1);
    // internal state survived the failure
    assert_eq!(orchestrator.pool_count(), 2);

    // it reopens; events and scans resume and the state is still there
    orchestrator.on_connected();
    let emitted = orchestrator.handle_event(
        StreamEvent::BlockMeta { unix_time: NOW + 10 },
        NOW + 10,
    );
    assert_eq!(orchestrator.health().events_received, 4);
    assert_eq!(orchestrator.health().scans_run, 2);
    assert_eq!(orchestrator.pool_count(), 2);
    assert_eq!(emitted.len(), 1);
    assert_eq!(orchestrator.health().opportunities_emitted, 2);
}

//! Tests of the components at their customary settings: tip sizing, gas
//! estimation, the detector thresholds, loan sizing, price impact, execution
//! probability, validation results and the oracle presets. Prices are scaled
//! by 10^9; probabilities and percentages are in parts per million.

use arb_engine::detector::{OpportunityDetector, PoolPrice, PoolProtocol};
use arb_engine::keys::Key;
use arb_engine::oracle::{OracleValidationConfig, ValidationResult};
use arb_engine::pool::{DexType, PoolState};
use arb_engine::route::{calculate_tip, estimate_gas_cost};

fn key(n: u128) -> Key {
    Key { hi: 0, lo: n }
}

fn cpmm_pool(id: u128, reserve_a: u64, reserve_b: u64, fee_bps: u16, now: u64) -> PoolState {
    PoolState {
        pool_id: key(id),
        dex_type: DexType::RaydiumCpmm,
        token_a: key(1),
        token_b: key(2),
        reserve_a,
        reserve_b,
        liquidity: 10_000_000_000,
        sqrt_price_q64: None,
        active_bin_id: None,
        bin_step_bps: None,
        total_fee_bps: fee_bps,
        last_updated_unix: now,
        last_trade_unix: Some(now),
    }
}

#[test]
fn test_calculate_tip() {
    let min_tip: u64 = 10_000;
    let max_tip: u64 = 100_000_000;

    // Small profit
    let tip = calculate_tip(100_000, min_tip, max_tip);
    assert!(tip >= min_tip);
    assert!(tip <= max_tip);

    // Large profit
    let tip = calculate_tip(10_000_000_000, min_tip, max_tip);
    assert_eq!(tip, max_tip); // Should be capped

    // Medium profit
    let tip = calculate_tip(1_000_000, min_tip, max_tip);
    assert!(tip > min_tip);
}

#[test]
fn test_estimate_gas_cost() {
    let cost_2_swaps = estimate_gas_cost(2);
    assert!(cost_2_swaps > 10_000); // At least 10k lamports

    let cost_3_swaps = estimate_gas_cost(3);
    assert!(cost_3_swaps > cost_2_swaps);
}

#[test]
fn test_opportunity_detector_creation() {
    let detector =
        OpportunityDetector::new(1_000_000, 100_000_000_000, 10_000_000_000, 50_000_000_000);
    assert_eq!(detector.min_profit_threshold(), 1_000_000);
    assert_eq!(detector.max_loan_amount(), 100_000_000_000);
    assert_eq!(detector.min_liquidity_threshold(), 10_000_000_000);
    assert_eq!(detector.min_combined_liquidity(), 50_000_000_000);
}

#[test]
fn test_high_liquidity_detector() {
    let detector = OpportunityDetector::new_high_liquidity();
    assert_eq!(detector.min_profit_threshold(), 1_000_000);
    assert_eq!(detector.max_loan_amount(), 100_000_000_000);
    assert_eq!(detector.min_liquidity_threshold(), 10_000_000_000);
    assert_eq!(detector.min_combined_liquidity(), 50_000_000_000);
}

#[test]
fn test_optimal_loan_size_calculation() {
    let detector =
        OpportunityDetector::new(1_000_000, 100_000_000_000, 1_000_000_000, 5_000_000_000);

    let token0 = key(11);
    let token1 = key(12);

    let buy_pool = PoolPrice {
        pool: key(21),
        protocol: PoolProtocol::RaydiumClmm,
        price: 1_000_000_000,             // 1.0
        liquidity: 100_000_000_000,       // 100 SOL
        token0,
        token1,
        timestamp: 1_700_000_000,
    };

    let sell_pool = PoolPrice {
        pool: key(22),
        protocol: PoolProtocol::RaydiumAmmV4,
        price: 1_020_000_000,             // 1.02
        liquidity: 200_000_000_000,       // 200 SOL
        token0,
        token1,
        timestamp: 1_700_000_000,
    };

    let loan_size = detector.calculate_optimal_loan_size(&buy_pool, &sell_pool);

    // Should be ~15% of minimum liquidity for high liquidity pools
    // 100 SOL * 0.15 = 15 SOL; integer tiers give 100 SOL / 15
    assert!(loan_size >= 6_000_000_000 && loan_size <= 7_000_000_000);
}

#[test]
fn test_price_impact_calculation() {
    let now = 1_700_000_000u64;
    let pool = cpmm_pool(31, 1_000_000_000, 100_000_000, 25, now);

    // Small trade: 0.1 SOL against a 1 SOL / 100 USDC pool
    let (output, impact) = pool.calculate_price_impact(100_000_000, true);
    assert!(output > 0);
    // a trade of a tenth of the inbound reserve moves the price by under 10%
    assert!(impact < 1_000);

    // Large trade: 10 SOL (relative to pool)
    let (_output_large, impact_large) = pool.calculate_price_impact(10_000_000_000, true);
    assert!(impact_large > impact); // Larger trade should have more impact
}

#[test]
fn test_execution_probability() {
    let now = 1_700_000_000u64;
    let pool = PoolState {
        pool_id: key(41),
        dex_type: DexType::OrcaWhirlpool,
        token_a: key(1),
        token_b: key(2),
        reserve_a: 10_000_000_000,
        reserve_b: 1_000_000_000,
        liquidity: 100_000_000_000,
        sqrt_price_q64: Some(1u128 << 64),
        active_bin_id: None,
        bin_step_bps: None,
        total_fee_bps: 30,
        last_updated_unix: now,
        last_trade_unix: Some(now - 10), // 10 seconds ago
    };

    let prob = pool.execution_probability(100_000_000, true);
    assert!(prob > 500_000); // Should be > 50% for reasonable trade
    assert!(prob <= 1_000_000);
}

#[test]
fn test_validation_result() {
    let valid = ValidationResult::valid("Test".to_string());
    assert!(valid.is_valid);

    let invalid = ValidationResult::invalid("Test".to_string());
    assert!(!invalid.is_valid);
}

#[test]
fn test_oracle_config_presets() {
    let conservative = OracleValidationConfig::conservative();
    assert!(conservative.max_price_deviation_ppm < 50_000);

    let balanced = OracleValidationConfig::balanced();
    assert_eq!(balanced.max_price_deviation_ppm, 50_000);

    let aggressive = OracleValidationConfig::aggressive();
    assert!(aggressive.max_price_deviation_ppm > 50_000);
}

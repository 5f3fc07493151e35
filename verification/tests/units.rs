//! Unit tests of the numeric models, the codecs, the store, the ranker, the
//! flash-loan accounting and the routing helpers, with exact expected values
//! for each formula.

use arb_engine::codec::{decode, parse_u64, LendingInstruction};
use arb_engine::detector::{AmmSwapVolumes, OpportunityDetector, PoolPrice, PoolProtocol};
use arb_engine::engine::{backoff_delay_secs, reconnect_decision, ReconnectDecision, ReconnectPolicy};
use arb_engine::flash::{
    calculate_borrowed_amount, process_flash_loan_accounting, simulate_flash_loan_detailed,
    LendingError, LendingMarket, InitLendingMarketParams, Reserve, ReserveConfig, ReserveLiquidity,
};
use arb_engine::keys::{Key, TokenPair};
use arb_engine::numeric::{cl_quote, cpmm_quote, decay_ppm, dlmm_widen, sqrt_price_to_price};
use arb_engine::oracle::{
    deviation_ppm, OracleValidationConfig, PythArbValidator, PythPriceData, PythPriceFeedConfig,
    PythPriceMonitor, ValidationCode,
};
use arb_engine::pool::{DexType, PoolState};
use arb_engine::profit::{
    combine_prob, confidence_level, ev_micro, ev_score_ppm, flash_fee, swap_fee, ConfidenceLevel,
};
use arb_engine::ranker::OpportunityRanker;
use arb_engine::route::{
    current_timestamp, parse_protocols, route_from_quote, validate_for_execution, DexProtocol,
    ExecutionGateError, JupiterQuote, JupiterRoute, RoutePlanStep, SwapInfo,
};
use arb_engine::search::{evaluate_trade_size, find_opportunities_for_pair, ArbConfig};
use arb_engine::store::LiquidityMonitor;

fn key(n: u128) -> Key {
    Key { hi: 0, lo: n }
}

const NOW: u64 = 1_700_000_000;

fn cpmm_pool(id: u128, dex: DexType, ra: u64, rb: u64, updated: u64) -> PoolState {
    PoolState {
        pool_id: key(id),
        dex_type: dex,
        token_a: key(1),
        token_b: key(2),
        reserve_a: ra,
        reserve_b: rb,
        liquidity: 0,
        sqrt_price_q64: None,
        active_bin_id: None,
        bin_step_bps: None,
        total_fee_bps: 25,
        last_updated_unix: updated,
        last_trade_unix: Some(updated),
    }
}

// ----------------------------------------------------------------------------
// Numeric models
// ----------------------------------------------------------------------------

#[test]
fn test_cpmm_quote_exact() {
    // 0.1 into a 1.0 / 0.1 pool at 25 bps
    let (out, impact) = cpmm_quote(100_000_000, 1_000_000_000, 100_000_000, 25);
    assert_eq!(out, 9_070_243);
    assert_eq!(impact, 929);
    // an empty side quotes nothing at full impact
    let (out0, impact0) = cpmm_quote(100, 0, 100, 25);
    assert_eq!((out0, impact0), (0, 10_000));
}

#[test]
fn test_decay_canonical_values() {
    let reserve = 10_000_000_000u64;
    // 1% of the reserve: about 0.95
    assert_eq!(decay_ppm(100_000_000, reserve), 951_230);
    // 5%: about 0.78
    assert_eq!(decay_ppm(500_000_000, reserve), 778_806);
    // 10%: about 0.61
    assert_eq!(decay_ppm(1_000_000_000, reserve), 606_635);
    // 20%: about 0.37
    assert_eq!(decay_ppm(2_000_000_000, reserve), 369_230);
    // empty reserve: zero
    assert_eq!(decay_ppm(1, 0), 0);
    // monotone in the trade size
    assert!(decay_ppm(600_000_000, reserve) < decay_ppm(500_000_000, reserve));
}

#[test]
fn test_sqrt_price_conversion_exact() {
    // sqrt(1.0) in Q64.64 is exactly one
    assert_eq!(sqrt_price_to_price(1u128 << 64), Some(1_000_000_000));
    // sqrt(2.25) = 1.5, price 2.25
    assert_eq!(sqrt_price_to_price(3u128 << 63), Some(2_250_000_000));
    // zero converts to nothing
    assert_eq!(sqrt_price_to_price(0), None);
}

#[test]
fn test_cl_quote_and_dlmm_widening() {
    // depth = liquidity / 10^6 = 10^6; a trade of 10^5 is a tenth of it
    let (out, impact) = cl_quote(100_000, 1_000_000_000_000);
    assert_eq!(impact, 1_000);
    assert_eq!(out, 95_000); // x * (2d - x) / 2d
    // widening by a 20 bps bin step: 1000 * 120 / 100
    assert_eq!(dlmm_widen(1_000, 20), 1_200);
    assert_eq!(dlmm_widen(10_000, 65_535), 10_000); // capped
}

#[test]
fn test_swap_and_flash_fees() {
    assert_eq!(swap_fee(1_000_000, 25), 2_500);
    assert_eq!(flash_fee(1_000_000, 900), 900);
    assert_eq!(flash_fee(1_000_000, 0), 0);
}

#[test]
fn test_ev_score_formula() {
    // the canonical scenario's winning candidate
    assert_eq!(ev_micro(47_306, 977_445), 47_306u128 * 977_445);
    assert_eq!(ev_score_ppm(47_306, 977_445), 4_623_901);
    // capped at one hundred score units
    assert_eq!(ev_score_ppm(u64::MAX, 1_000_000), 100_000_000);
    // monotone in each argument
    assert!(ev_score_ppm(47_306, 977_445) <= ev_score_ppm(47_307, 977_445));
    assert!(ev_score_ppm(47_306, 977_445) <= ev_score_ppm(47_306, 977_446));
}

#[test]
fn test_combine_prob() {
    assert_eq!(combine_prob(1_000_000, 1_000_000), 1_000_000);
    assert_eq!(combine_prob(992_404, 984_927), 977_445);
    assert_eq!(combine_prob(500, 500), 0); // floors to zero
}

#[test]
fn test_confidence_buckets() {
    assert_eq!(confidence_level(850_000, 11_000), ConfidenceLevel::VeryHigh);
    assert_eq!(confidence_level(700_000, 6_000), ConfidenceLevel::High);
    assert_eq!(confidence_level(450_000, 3_500), ConfidenceLevel::Medium);
    assert_eq!(confidence_level(250_000, 1), ConfidenceLevel::Low);
    assert_eq!(confidence_level(100_000, 50_000), ConfidenceLevel::VeryLow);
    // the highest bucket needs both thresholds
    assert_eq!(confidence_level(850_000, 9_000), ConfidenceLevel::High);
}

#[test]
fn test_price_point_positive() {
    // every price point a tradable pool yields carries a positive price
    let pair = TokenPair::new(key(1), key(2));
    let pool = cpmm_pool(1, DexType::RaydiumCpmm, 5_000_000_000, 5_100_000_000, NOW);
    let pt = pool.price_point(&pair, NOW).unwrap();
    assert!(pt.price > 0);
    assert_eq!(pt.price, 1_020_000_000);
    assert_eq!(pt.liquidity_proxy, 50_000_000_000); // ten times the smaller reserve
    assert_eq!(pt.token_base, key(1));
    assert_eq!(pt.observed_unix, NOW);
    // an untradable pool yields none
    let empty = cpmm_pool(2, DexType::RaydiumCpmm, 0, 5_000_000_000, NOW);
    assert!(empty.price_point(&pair, NOW).is_none());
    // a reversed orientation quotes the reciprocal
    let mut flipped = cpmm_pool(3, DexType::RaydiumCpmm, 5_100_000_000, 5_000_000_000, NOW);
    flipped.token_a = key(2);
    flipped.token_b = key(1);
    let pt2 = flipped.price_point(&pair, NOW).unwrap();
    assert!(pt2.price > 0);
}

// ----------------------------------------------------------------------------
// Store
// ----------------------------------------------------------------------------

#[test]
fn test_store_upsert_rejects_untradable() {
    let mut store = LiquidityMonitor::new(60);
    store.update_pool(cpmm_pool(1, DexType::RaydiumCpmm, 10, 10, NOW));
    let before = store.stats();

    // a constant-product state with an empty side is untradable: silent no-op
    let mut bad = cpmm_pool(2, DexType::RaydiumCpmm, 0, 10, NOW);
    store.update_pool(bad);
    assert_eq!(store.stats(), before);
    assert!(store.get_pool(&key(2)).is_none());

    // a fee of 100% or more is untradable too
    bad = cpmm_pool(2, DexType::RaydiumCpmm, 10, 10, NOW);
    bad.total_fee_bps = 10_000;
    store.update_pool(bad);
    assert_eq!(store.stats(), before);
}

#[test]
fn test_store_upsert_monotone_timestamps() {
    let mut store = LiquidityMonitor::new(60);
    store.update_pool(cpmm_pool(1, DexType::RaydiumCpmm, 10, 10, NOW));
    // an older state for the same pool is rejected
    store.update_pool(cpmm_pool(1, DexType::RaydiumCpmm, 99, 99, NOW - 5));
    assert_eq!(store.get_pool(&key(1)).unwrap().reserve_a, 10);
    // a newer one replaces it
    store.update_pool(cpmm_pool(1, DexType::RaydiumCpmm, 99, 99, NOW + 5));
    assert_eq!(store.get_pool(&key(1)).unwrap().reserve_a, 99);
    assert_eq!(store.stats().total_pools, 1);
}

#[test]
fn test_store_pair_lookup_and_eviction() {
    let mut store = LiquidityMonitor::new(60);
    store.update_pool(cpmm_pool(1, DexType::RaydiumCpmm, 10, 10, NOW));
    store.update_pool(cpmm_pool(2, DexType::RaydiumAmmV4, 20, 20, NOW - 120));

    // the stale pool is not served for the pair
    let served = store.get_pools_for_pair(key(1), key(2), NOW);
    assert_eq!(served.len(), 1);
    assert_eq!(served[0].pool_id, key(1));
    // lookup normalizes the pair order
    let served_rev = store.get_pools_for_pair(key(2), key(1), NOW);
    assert_eq!(served_rev.len(), 1);

    // eviction drops it for good
    store.clean_stale_pools(NOW);
    assert_eq!(store.stats().total_pools, 1);
    assert!(store.get_pool(&key(2)).is_none());
}

#[test]
fn test_find_best_pool() {
    let mut store = LiquidityMonitor::new(60);
    store.update_pool(cpmm_pool(1, DexType::RaydiumCpmm, 1_000_000_000, 1_000_000_000, NOW));
    store.update_pool(cpmm_pool(2, DexType::RaydiumAmmV4, 9_000_000_000, 9_000_000_000, NOW));
    // the deeper pool quotes more and carries less risk
    let (best, output, _score) = store.find_best_pool(key(1), key(2), 1_000_000, NOW).unwrap();
    assert_eq!(best.pool_id, key(2));
    assert!(output > 0);
}

// ----------------------------------------------------------------------------
// Laws on concrete values
// ----------------------------------------------------------------------------

#[test]
fn test_identity_scan_emits_nothing() {
    // two pools of different variants at one and the same price
    let mut store = LiquidityMonitor::new(60);
    store.update_pool(cpmm_pool(1, DexType::RaydiumCpmm, 5_000_000_000, 5_000_000_000, NOW));
    store.update_pool(cpmm_pool(2, DexType::RaydiumAmmV4, 8_000_000_000, 8_000_000_000, NOW));
    let mut cfg = ArbConfig::new(0, 0, 1_000_000, 20_000_000);
    cfg.min_ev_score_ppm = 0;
    let found = find_opportunities_for_pair(&store, key(1), key(2), &cfg, NOW);
    assert_eq!(found.len(), 0);
}

#[test]
fn test_monotone_size_probability() {
    // for fixed pools, a larger trade size never has a larger combined probability
    let buy = cpmm_pool(1, DexType::RaydiumCpmm, 10_000_000_000, 10_000_000_000, NOW);
    let sell = cpmm_pool(2, DexType::RaydiumAmmV4, 5_000_000_000, 5_100_000_000, NOW);
    let pair = TokenPair::new(key(1), key(2));
    let mut cfg = ArbConfig::new(0, 0, 1_000_000, 20_000_000);
    cfg.min_ev_score_ppm = 0;
    cfg.gas_lamports = 0;
    cfg.tip_lamports = 0;
    let mut last_prob = u64::MAX;
    let mut size: u64 = 1_000_000;
    while size <= 16_000_000 {
        if let Some(o) = evaluate_trade_size(
            &buy,
            &sell,
            &pair,
            1_000_000_000,
            1_020_000_000,
            size,
            &cfg,
            NOW,
        ) {
            assert!(o.combined_execution_prob_ppm <= last_prob);
            last_prob = o.combined_execution_prob_ppm;
        }
        size *= 2;
    }
    assert!(last_prob < u64::MAX);
}

#[test]
fn test_fee_closure_exact() {
    // net profit closes exactly over the fee breakdown: no drift
    let buy = cpmm_pool(1, DexType::RaydiumCpmm, 10_000_000_000, 10_000_000_000, NOW);
    let sell = cpmm_pool(2, DexType::RaydiumAmmV4, 5_000_000_000, 5_100_000_000, NOW);
    let pair = TokenPair::new(key(1), key(2));
    let mut cfg = ArbConfig::new(0, 0, 1_000_000, 20_000_000);
    cfg.min_ev_score_ppm = 0;
    cfg.gas_lamports = 10_000;
    cfg.tip_lamports = 10_000;
    let o = evaluate_trade_size(
        &buy,
        &sell,
        &pair,
        1_000_000_000,
        1_020_000_000,
        15_250_000,
        &cfg,
        NOW,
    )
    .unwrap();
    let fees = o.swap_fee_leg1 as u128 + o.swap_fee_leg2 as u128 + o.flash_loan_fee as u128
        + o.gas_and_tip as u128;
    assert_eq!(o.total_fees, fees);
    assert_eq!(
        o.net_profit as i128,
        o.expected_output as i128 - o.expected_input as i128 - o.total_fees as i128
    );
    assert_eq!(o.expected_profit as i128, o.expected_output as i128 - o.expected_input as i128);
}

#[test]
fn test_oracle_gate_pure() {
    // identical candidates and snapshots yield identical verdicts
    let validator = PythArbValidator::new(OracleValidationConfig::balanced());
    let buy = cpmm_pool(1, DexType::RaydiumCpmm, 10_000_000_000, 10_000_000_000, NOW);
    let sell = cpmm_pool(2, DexType::RaydiumAmmV4, 5_000_000_000, 5_100_000_000, NOW);
    let pair = TokenPair::new(key(1), key(2));
    let mut cfg = ArbConfig::new(0, 0, 1_000_000, 20_000_000);
    cfg.min_ev_score_ppm = 0;
    cfg.gas_lamports = 10_000;
    cfg.tip_lamports = 10_000;
    let o = evaluate_trade_size(
        &buy,
        &sell,
        &pair,
        1_000_000_000,
        1_020_000_000,
        15_250_000,
        &cfg,
        NOW,
    )
    .unwrap();
    let oracle = PythPriceData {
        price: 101_000_000,
        confidence: 100_000,
        expo: -8,
        ema_price: 101_000_000,
        ema_confidence: 50_000,
        publish_time: NOW as i64,
        last_updated_unix: NOW,
    };
    let v1 = validator.validate_opportunity(&o, Some(oracle), NOW);
    let v2 = validator.validate_opportunity(&o, Some(oracle), NOW);
    assert_eq!(v1.code, v2.code);
    assert_eq!(v1.is_valid, v2.is_valid);
    assert_eq!(v1.deviation_ppm, v2.deviation_ppm);
}

#[test]
fn test_oracle_gate_variants() {
    let validator = PythArbValidator::new(OracleValidationConfig::balanced());
    let buy = cpmm_pool(1, DexType::RaydiumCpmm, 10_000_000_000, 10_000_000_000, NOW);
    let sell = cpmm_pool(2, DexType::RaydiumAmmV4, 5_000_000_000, 5_100_000_000, NOW);
    let pair = TokenPair::new(key(1), key(2));
    let mut cfg = ArbConfig::new(0, 0, 1_000_000, 20_000_000);
    cfg.min_ev_score_ppm = 0;
    cfg.gas_lamports = 10_000;
    cfg.tip_lamports = 10_000;
    let o = evaluate_trade_size(
        &buy,
        &sell,
        &pair,
        1_000_000_000,
        1_020_000_000,
        15_250_000,
        &cfg,
        NOW,
    )
    .unwrap();

    // no record at all
    let verdict = validator.validate_opportunity(&o, None, NOW);
    assert_eq!(verdict.code, ValidationCode::NoOracle);
    assert!(!verdict.is_valid);

    let fresh = PythPriceData {
        price: 101_000_000, // 1.01, close to both pools
        confidence: 100_000,
        expo: -8,
        ema_price: 101_000_000,
        ema_confidence: 50_000,
        publish_time: NOW as i64,
        last_updated_unix: NOW,
    };
    // a record past the staleness bound
    let mut stale = fresh;
    stale.last_updated_unix = NOW - 120;
    let verdict = validator.validate_opportunity(&o, Some(stale), NOW);
    assert_eq!(verdict.code, ValidationCode::StaleOracle);

    // a confidence interval wider than one percent
    let mut wide = fresh;
    wide.confidence = 2_000_000; // about 2% of the price
    let verdict = validator.validate_opportunity(&o, Some(wide), NOW);
    assert_eq!(verdict.code, ValidationCode::WideConfidence);

    // and a record that passes every gate
    let verdict = validator.validate_opportunity(&o, Some(fresh), NOW);
    assert_eq!(verdict.code, ValidationCode::Accepted);
    assert!(verdict.is_valid);
}

#[test]
fn test_ranker_cap_and_order() {
    let buy = cpmm_pool(1, DexType::RaydiumCpmm, 10_000_000_000, 10_000_000_000, NOW);
    let sell = cpmm_pool(2, DexType::RaydiumAmmV4, 5_000_000_000, 5_100_000_000, NOW);
    let pair = TokenPair::new(key(1), key(2));
    let mut cfg = ArbConfig::new(0, 0, 1_000_000, 20_000_000);
    cfg.min_ev_score_ppm = 0;
    cfg.gas_lamports = 0;
    cfg.tip_lamports = 0;

    let mut ranker = OpportunityRanker::new(3);
    let mut size: u64 = 1_000_000;
    let mut admitted = 0;
    while size <= 16_000_000 {
        if let Some(o) =
            evaluate_trade_size(&buy, &sell, &pair, 1_000_000_000, 1_020_000_000, size, &cfg, NOW)
        {
            ranker.rank(o);
            admitted += 1;
        }
        size += 1_500_000;
    }
    assert!(admitted > 3);
    let ranked = ranker.get_opportunities();
    // capped at three, ordered by score descending
    assert_eq!(ranked.len(), 3);
    assert!(ranked[0].ev_score_ppm >= ranked[1].ev_score_ppm);
    assert!(ranked[1].ev_score_ppm >= ranked[2].ev_score_ppm);
    // the top-k view is a prefix
    let top = ranker.top_k(2);
    assert_eq!(top.len(), 2);
    assert_eq!(top[0].ev_score_ppm, ranked[0].ev_score_ppm);
}

#[test]
fn test_ranker_expiry() {
    let buy = cpmm_pool(1, DexType::RaydiumCpmm, 10_000_000_000, 10_000_000_000, NOW);
    let sell = cpmm_pool(2, DexType::RaydiumAmmV4, 5_000_000_000, 5_100_000_000, NOW);
    let pair = TokenPair::new(key(1), key(2));
    let mut cfg = ArbConfig::new(0, 0, 1_000_000, 20_000_000);
    cfg.min_ev_score_ppm = 0;
    cfg.gas_lamports = 0;
    cfg.tip_lamports = 0;
    let o = evaluate_trade_size(
        &buy,
        &sell,
        &pair,
        1_000_000_000,
        1_020_000_000,
        4_000_000,
        &cfg,
        NOW,
    )
    .unwrap();
    let mut ranker = OpportunityRanker::new(10);
    ranker.rank(o);
    assert_eq!(ranker.len(), 1);
    ranker.expire(NOW + 10, 30);
    assert_eq!(ranker.len(), 1); // still live
    ranker.expire(NOW + 31, 30);
    assert_eq!(ranker.len(), 0); // past its time to live
}

// ----------------------------------------------------------------------------
// Codecs
// ----------------------------------------------------------------------------

#[test]
fn test_base64_decode() {
    assert_eq!(decode("TWFu").unwrap(), vec![77, 97, 110]);
    assert_eq!(decode("").unwrap(), Vec::<u8>::new());
    assert_eq!(decode("AAAA").unwrap(), vec![0, 0, 0]);
}

#[test]
fn test_base64_decode_padding() {
    assert_eq!(decode("TQ==").unwrap(), vec![77]);
    assert_eq!(decode("TWE=").unwrap(), vec![77, 97]);
    assert_eq!(decode("TWFuTQ==").unwrap(), vec![77, 97, 110, 77]);
}

#[test]
fn test_base64_rejects_invalid() {
    assert!(decode("TWF").is_err()); // ragged length
    assert!(decode("TW!u").is_err()); // byte outside the alphabet
    assert!(decode("TQ==TQ==").is_err()); // padding before the end
    assert!(decode("TR==").is_err()); // non-canonical padded bits
}

#[test]
fn test_lending_instruction_round_trip() {
    let ins = LendingInstruction::FlashLoan { amount: 100_000_000 };
    let packed = ins.pack();
    assert_eq!(packed.len(), 9);
    assert_eq!(packed[0], 12);
    let unpacked = LendingInstruction::unpack(&packed).unwrap();
    assert_eq!(unpacked, ins);

    let big = LendingInstruction::FlashLoan { amount: u64::MAX - 7 };
    assert_eq!(LendingInstruction::unpack(&big.pack()).unwrap(), big);
}

#[test]
fn test_lending_instruction_rejects() {
    assert_eq!(LendingInstruction::unpack(&[]), Err(LendingError::InvalidInstruction));
    assert_eq!(LendingInstruction::unpack(&[12, 1, 2]), Err(LendingError::InvalidInstruction));
    let mut bytes = LendingInstruction::FlashLoan { amount: 5 }.pack();
    bytes[0] = 9; // an unknown tag
    assert_eq!(LendingInstruction::unpack(&bytes), Err(LendingError::InvalidInstruction));
}

#[test]
fn test_parse_u64() {
    assert_eq!(parse_u64("0"), Some(0));
    assert_eq!(parse_u64("18446744073709551615"), Some(u64::MAX));
    assert_eq!(parse_u64("18446744073709551616"), None); // overflow
    assert_eq!(parse_u64(""), None);
    assert_eq!(parse_u64("12a"), None);
    assert_eq!(parse_u64("100000000"), Some(100_000_000));
}

// ----------------------------------------------------------------------------
// Flash loans
// ----------------------------------------------------------------------------

fn test_reserve(available: u64, fee_bps: u64, protocol_bps: u64) -> Reserve {
    Reserve {
        version: 1,
        lending_market: key(77),
        liquidity: ReserveLiquidity {
            mint_pubkey: key(78),
            supply_pubkey: key(79),
            available_amount: available,
        },
        config: ReserveConfig {
            flash_loan_fee_bps: fee_bps,
            protocol_flash_loan_fee_bps: protocol_bps,
        },
    }
}

#[test]
fn test_flash_loan_fees_split() {
    let reserve = test_reserve(1_000_000_000, 9, 2_000);
    let fees = reserve.calculate_flash_loan_fees(100_000_000).unwrap();
    assert_eq!(fees.total_fee, 90_000); // 9 bps of the principal
    assert_eq!(fees.protocol_fee, 18_000); // 20% of the fee
    assert_eq!(fees.host_fee, 72_000);
    assert_eq!(fees.total_fee, fees.protocol_fee + fees.host_fee);
}

#[test]
fn test_flash_loan_accounting_flow() {
    let reserve = test_reserve(1_000_000_000, 9, 2_000);
    let initial_balance = 1_000_000_000u64;
    // the borrower returned principal plus the whole fee
    let settlement = process_flash_loan_accounting(
        &reserve,
        100_000_000,
        initial_balance,
        initial_balance + 90_000,
        true,
    )
    .unwrap();
    assert_eq!(settlement.repay_amount, 100_090_000);
    assert_eq!(settlement.fees.total_fee, 90_000);
    // the pool keeps nothing of the fee once both shares are paid out
    assert_eq!(settlement.reserve_after.liquidity.available_amount, 1_000_000_000);

    // without a host receiver the host share stays in the pool
    let settlement2 = process_flash_loan_accounting(
        &reserve,
        100_000_000,
        initial_balance,
        initial_balance + 90_000,
        false,
    )
    .unwrap();
    assert_eq!(settlement2.reserve_after.liquidity.available_amount, 1_000_072_000);
}

#[test]
fn test_flash_loan_error_paths() {
    let reserve = test_reserve(1_000_000, 9, 2_000);
    assert_eq!(
        process_flash_loan_accounting(&reserve, 0, 0, 0, false),
        Err(LendingError::InvalidAmount)
    );
    assert_eq!(
        process_flash_loan_accounting(&reserve, 2_000_000, 0, 0, false),
        Err(LendingError::InsufficientLiquidity)
    );
    // the supply came back one lamport short of the fee
    assert_eq!(
        process_flash_loan_accounting(&reserve, 1_000_000, 5_000_000, 5_000_899, false),
        Err(LendingError::FlashLoanNotRepaid)
    );
}

#[test]
fn test_flash_loan_fee_overflow() {
    // a fee rate so large the product cannot be carried
    let reserve = test_reserve(u64::MAX, u64::MAX, 0);
    assert_eq!(
        reserve.calculate_flash_loan_fees(u64::MAX),
        Err(LendingError::MathOverflow)
    );
}

#[test]
fn test_borrowed_amount() {
    // repay * 10000 / 10009: the principal behind a 9 bps repayment
    assert_eq!(calculate_borrowed_amount(10_009_000), 10_000_000);
    assert_eq!(calculate_borrowed_amount(0), 0);
}

#[test]
fn test_simulate_flash_loan() {
    // a 2% spread covers two 25 bps legs and the 9 bps loan fee
    let sim =
        simulate_flash_loan_detailed(1_000_000_000, 1_000_000_000, 1_020_000_000, key(1), key(2), 25, 900)
            .unwrap();
    assert!(sim.would_succeed);
    assert!(sim.net_profit > 0);
    assert_eq!(sim.flash_loan_fee, 900_000);
    // a flat price cannot
    let flat =
        simulate_flash_loan_detailed(1_000_000_000, 1_000_000_000, 1_000_000_000, key(1), key(2), 25, 900)
            .unwrap();
    assert!(!flat.would_succeed);
    assert_eq!(flat.net_profit, 0);
}

#[test]
fn test_account_layout_round_trips() {
    let market = LendingMarket {
        version: 1,
        bump_seed: 254,
        owner: Key { hi: 0xDEAD_BEEF, lo: 0x1234_5678_9ABC_DEF0 },
        quote_currency: Key { hi: 7, lo: u128::MAX },
    };
    let bytes = market.pack_into_vec();
    assert_eq!(bytes.len(), 66);
    assert_eq!(LendingMarket::unpack_from_slice(&bytes), Ok(market));

    let reserve = test_reserve(123_456_789, 9, 2_000);
    let bytes = reserve.pack_into_vec();
    assert_eq!(bytes.len(), 233);
    assert_eq!(Reserve::unpack_from_slice(&bytes), Ok(reserve));
    // the amount sits little-endian right after the three keys
    assert_eq!(bytes[97], (123_456_789u64 % 256) as u8);
    // a truncated account is invalid
    assert_eq!(Reserve::unpack_from_slice(&bytes[..100]), Err(LendingError::InvalidAccountData));
}

#[test]
fn test_processor_dispatch() {
    let reserve = test_reserve(1_000_000_000, 9, 2_000);
    let data = LendingInstruction::FlashLoan { amount: 100_000_000 }.pack();
    let settlement = arb_engine::flash::Processor::process(
        &data,
        &reserve,
        1_000_000_000,
        1_000_090_000,
        false,
    )
    .unwrap();
    assert_eq!(settlement.repay_amount, 100_090_000);
    assert_eq!(
        arb_engine::flash::Processor::process(&[3, 0], &reserve, 0, 0, false),
        Err(LendingError::InvalidInstruction)
    );
}

#[test]
fn test_lending_market_new() {
    let market = LendingMarket::new(InitLendingMarketParams {
        bump_seed: 7,
        owner: key(5),
        quote_currency: key(6),
    });
    assert_eq!(market.version, 1);
    assert!(market.is_initialized());
}

// ----------------------------------------------------------------------------
// Flash-loan detector
// ----------------------------------------------------------------------------

#[test]
fn test_ammv4_price_and_liquidity() {
    let detector = OpportunityDetector::new_high_liquidity();
    let volumes = AmmSwapVolumes {
        swap_coin_in_amount: 1_000_000,
        swap_pc_out_amount: 2_000_000,
        swap_pc_in_amount: 2_100_000,
        swap_coin_out_amount: 1_000_000,
        lp_amount: 500_000,
    };
    // averages the two per-direction prices: (2.0 + 2.1) / 2
    assert_eq!(detector.calculate_ammv4_price(&volumes), Some(2_050_000_000));
    // max(coin 2e6, pc 4.1e6, lp*10 5e6, min_vol*10 2e7) / 2 = 1e7
    assert_eq!(detector.estimate_ammv4_liquidity(&volumes), 10_000_000);
    // a pool that never traded has no price
    let silent = AmmSwapVolumes {
        swap_coin_in_amount: 0,
        swap_pc_out_amount: 0,
        swap_pc_in_amount: 0,
        swap_coin_out_amount: 0,
        lp_amount: 0,
    };
    assert_eq!(detector.calculate_ammv4_price(&silent), None);
}

#[test]
fn test_detector_feed_and_find() {
    let mut detector = OpportunityDetector::new(1, 100_000_000_000, 1_000_000_000, 5_000_000_000);
    let now: i64 = NOW as i64;
    let cheap = PoolPrice {
        pool: key(61),
        protocol: PoolProtocol::RaydiumClmm,
        price: 1_000_000_000,
        liquidity: 100_000_000_000,
        token0: key(1),
        token1: key(2),
        timestamp: now,
    };
    let dear = PoolPrice {
        pool: key(62),
        protocol: PoolProtocol::RaydiumAmmV4,
        price: 1_020_000_000,
        liquidity: 200_000_000_000,
        token0: key(1),
        token1: key(2),
        timestamp: now,
    };
    detector.update_price_feed(cheap, now);
    detector.update_price_feed(dear, now);
    let found = detector.find_arbitrage_opportunity(key(1), key(2), now).unwrap();
    assert_eq!(found.pool_a, key(61));
    assert_eq!(found.pool_b, key(62));
    assert!(found.expected_profit > 0);
    assert!(found.confidence <= 100);
    // with an identical price on both pools nothing is found
    let mut flat_detector =
        OpportunityDetector::new(1, 100_000_000_000, 1_000_000_000, 5_000_000_000);
    let mut flat = dear;
    flat.price = 1_000_000_000;
    flat_detector.update_price_feed(cheap, now);
    flat_detector.update_price_feed(flat, now);
    assert!(flat_detector.find_arbitrage_opportunity(key(1), key(2), now).is_none());
}

// ----------------------------------------------------------------------------
// Oracle monitor and deviation
// ----------------------------------------------------------------------------

#[test]
fn test_deviation_ppm_exact() {
    assert_eq!(deviation_ppm(1_200_000_000, 1_000_000_000), 200_000); // 20%
    assert_eq!(deviation_ppm(950_000_000, 1_000_000_000), 50_000); // 5%
    assert_eq!(deviation_ppm(1_000_000_000, 1_000_000_000), 0);
    assert_eq!(deviation_ppm(5, 0), u64::MAX); // no reference
}

#[test]
fn test_monitor_cache() {
    let mut monitor = PythPriceMonitor::new(500);
    monitor.add_price_feeds(vec![PythPriceFeedConfig {
        symbol: "BASE/QUOTE".to_string(),
        base_token: key(1),
        quote_token: key(2),
        price_account: key(90),
        max_staleness_secs: 60,
        max_confidence_ppm: 10_000,
    }]);
    assert!(monitor.get_price(&key(1), &key(2)).is_none());
    let record = PythPriceData {
        price: 100_000_000,
        confidence: 50_000,
        expo: -8,
        ema_price: 100_000_000,
        ema_confidence: 25_000,
        publish_time: NOW as i64,
        last_updated_unix: NOW,
    };
    monitor.update_price_feed(key(90), record);
    let got = monitor.get_price(&key(1), &key(2)).unwrap();
    assert_eq!(got.price, 100_000_000);
    assert_eq!(got.normalized_price(), Some(1_000_000_000));
    assert_eq!(got.confidence_ppm(), 500); // 0.05%
    // within 5% of the oracle: fine; a stale record errs
    assert_eq!(
        monitor.validate_pool_price(&key(1), &key(2), 1_020_000_000, 50_000, 60, NOW),
        Ok(true)
    );
    assert!(monitor.validate_pool_price(&key(1), &key(2), 1_020_000_000, 50_000, 60, NOW + 1000).is_err());
}

#[test]
fn test_filter_valid_keeps_exactly_accepted_in_order() {
    let validator = PythArbValidator::new(OracleValidationConfig::balanced());
    let buy = cpmm_pool(1, DexType::RaydiumCpmm, 10_000_000_000, 10_000_000_000, NOW);
    let sell = cpmm_pool(2, DexType::RaydiumAmmV4, 5_000_000_000, 5_100_000_000, NOW);
    let pair = TokenPair::new(key(1), key(2));
    let mut cfg = ArbConfig::new(0, 0, 1_000_000, 20_000_000);
    cfg.min_ev_score_ppm = 0;
    cfg.gas_lamports = 10_000;
    cfg.tip_lamports = 10_000;
    let a = evaluate_trade_size(&buy, &sell, &pair, 1_000_000_000, 1_020_000_000, 4_800_000, &cfg, NOW)
        .unwrap();
    let b = evaluate_trade_size(&buy, &sell, &pair, 1_000_000_000, 1_020_000_000, 15_250_000, &cfg, NOW)
        .unwrap();
    let fresh = PythPriceData {
        price: 101_000_000,
        confidence: 100_000,
        expo: -8,
        ema_price: 101_000_000,
        ema_confidence: 50_000,
        publish_time: NOW as i64,
        last_updated_unix: NOW,
    };
    let mut stale = fresh;
    stale.last_updated_unix = NOW - 500;
    // the first candidate's record is stale, the second's is fresh
    let kept = validator.filter_valid_opportunities(
        &vec![a, b],
        &vec![Some(stale), Some(fresh)],
        NOW,
    );
    assert_eq!(kept.len(), 1);
    assert_eq!(kept[0].optimal_trade_size, b.optimal_trade_size);
    // both fresh: both kept, input order preserved
    let kept2 = validator.filter_valid_opportunities(
        &vec![a, b],
        &vec![Some(fresh), Some(fresh)],
        NOW,
    );
    assert_eq!(kept2.len(), 2);
    assert_eq!(kept2[0].optimal_trade_size, a.optimal_trade_size);
    assert_eq!(kept2[1].optimal_trade_size, b.optimal_trade_size);
}

#[test]
fn test_detector_feed_purges_and_replaces() {
    let mut detector = OpportunityDetector::new(1, 100_000_000_000, 1_000_000_000, 5_000_000_000);
    let now: i64 = NOW as i64;
    let entry = |pool: u128, price: u128, ts: i64| PoolPrice {
        pool: key(pool),
        protocol: PoolProtocol::RaydiumClmm,
        price,
        liquidity: 100_000_000_000,
        token0: key(1),
        token1: key(2),
        timestamp: ts,
    };
    detector.update_price_feed(entry(61, 1_000_000_000, now - 40), now); // will go stale
    detector.update_price_feed(entry(62, 1_020_000_000, now - 5), now);
    // a refresh of pool 61 replaces its old entry; the purge drops nothing fresh
    detector.update_price_feed(entry(61, 1_010_000_000, now), now);
    let listed = detector.prices_for_pair(key(1), key(2));
    assert_eq!(listed.len(), 2);
    // feed order: the surviving entry of 62, then the refreshed 61
    assert_eq!(listed[0].pool, key(62));
    assert_eq!(listed[1].pool, key(61));
    assert_eq!(listed[1].price, 1_010_000_000);
    // the monitor errs with NoFeed for an unconfigured pair
    let monitor = PythPriceMonitor::new(500);
    assert_eq!(
        monitor.validate_pool_price(&key(1), &key(2), 1_000_000_000, 50_000, 60, NOW),
        Err(arb_engine::oracle::OracleQueryError::NoFeed)
    );
}

// ----------------------------------------------------------------------------
// Routes, gates, backoff
// ----------------------------------------------------------------------------

#[test]
fn test_jupiter_route_math() {
    let route = JupiterRoute { expected_out_amount: 1_010_000, num_hops: 2, total_fees: 3_000 };
    assert_eq!(route.net_output(), 1_007_000);
    // 0.95^1 and 0.95^2 in ppm
    let one_hop = JupiterRoute { expected_out_amount: 0, num_hops: 1, total_fees: 0 };
    assert_eq!(one_hop.execution_probability(), 950_000);
    assert_eq!(route.execution_probability(), 902_500);
    // expected value weights the gross profit by that probability
    assert_eq!(route.expected_value_micro(1_000_000), 7_000u128 * 902_500);
}

#[test]
fn test_route_from_quote() {
    let step = |fee: &str| RoutePlanStep {
        swap_info: SwapInfo {
            amm_key: "amm".to_string(),
            label: None,
            input_mint: "a".to_string(),
            output_mint: "b".to_string(),
            in_amount: "100".to_string(),
            out_amount: "99".to_string(),
            fee_amount: fee.to_string(),
            fee_mint: "a".to_string(),
        },
        percent: 100,
    };
    let quote = JupiterQuote {
        input_mint: "a".to_string(),
        in_amount: "1000000".to_string(),
        output_mint: "b".to_string(),
        out_amount: "1010000".to_string(),
        other_amount_threshold: "0".to_string(),
        swap_mode: "ExactIn".to_string(),
        slippage_bps: 50,
        route_plan: vec![step("2000"), step("1000")],
        context_slot: None,
    };
    let route = route_from_quote(&quote).unwrap();
    assert_eq!(route.expected_out_amount, 1_010_000);
    assert_eq!(route.num_hops, 2);
    assert_eq!(route.total_fees, 3_000);

    let mut bad = quote;
    bad.out_amount = "not-a-number".to_string();
    assert!(route_from_quote(&bad).is_none());
}

#[test]
fn test_validate_for_execution_gates() {
    let buy = cpmm_pool(1, DexType::RaydiumCpmm, 10_000_000_000, 10_000_000_000, NOW);
    let sell = cpmm_pool(2, DexType::RaydiumAmmV4, 5_000_000_000, 5_100_000_000, NOW);
    let pair = TokenPair::new(key(1), key(2));
    let mut cfg = ArbConfig::new(0, 0, 1_000_000, 20_000_000);
    cfg.min_ev_score_ppm = 0;
    cfg.gas_lamports = 10_000;
    cfg.tip_lamports = 10_000;
    let mut o = evaluate_trade_size(
        &buy,
        &sell,
        &pair,
        1_000_000_000,
        1_020_000_000,
        15_250_000,
        &cfg,
        NOW,
    )
    .unwrap();
    // the canonical candidate has a healthy probability but a small score
    assert_eq!(validate_for_execution(&o), Err(ExecutionGateError::LowScore));
    o.ev_score_ppm = 20_000_000;
    assert_eq!(validate_for_execution(&o), Ok(()));
    o.combined_execution_prob_ppm = 200_000;
    assert_eq!(validate_for_execution(&o), Err(ExecutionGateError::LowProbability));
    o.net_profit = 0;
    assert_eq!(validate_for_execution(&o), Err(ExecutionGateError::NonPositiveProfit));
}

#[test]
fn test_backoff_delay() {
    assert_eq!(backoff_delay_secs(0, 2, 60), 2);
    assert_eq!(backoff_delay_secs(1, 2, 60), 4);
    assert_eq!(backoff_delay_secs(4, 2, 60), 32);
    assert_eq!(backoff_delay_secs(5, 2, 60), 60); // capped
    assert_eq!(backoff_delay_secs(63, 2, 60), 60);

    let policy = ReconnectPolicy { base_secs: 2, cap_secs: 60, max_attempts: 3 };
    assert_eq!(reconnect_decision(0, &policy), ReconnectDecision::Retry { delay_secs: 2 });
    assert_eq!(reconnect_decision(3, &policy), ReconnectDecision::GiveUp);
}

#[test]
fn test_protocol_parsing() {
    let names = vec![
        "raydium".to_string(),
        "orca".to_string(),
        "meteora".to_string(),
        "crema".to_string(),
        "tuna".to_string(),
        "unknown".to_string(),
    ];
    let parsed = parse_protocols(&names);
    assert_eq!(
        parsed,
        vec![
            DexProtocol::RaydiumClmm,
            DexProtocol::OrcaWhirlpool,
            DexProtocol::MeteoraDlmm,
            DexProtocol::CremaFinance,
            DexProtocol::DefiTuna,
        ]
    );
}

#[test]
fn test_typical_fees() {
    assert_eq!(DexType::RaydiumAmmV4.typical_fee_bps(), 25);
    assert_eq!(DexType::RaydiumClmm.typical_fee_bps(), 25);
    assert_eq!(DexType::RaydiumCpmm.typical_fee_bps(), 25);
    assert_eq!(DexType::OrcaWhirlpool.typical_fee_bps(), 30);
    assert_eq!(DexType::MeteoraDlmm.typical_fee_bps(), 20);
}

#[test]
fn test_clock_wrapper() {
    // the clock reports a time after the epoch of this library's writing
    assert!(current_timestamp() > 1_600_000_000);
}

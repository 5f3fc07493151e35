//! The oracle-validation layer: per-pair oracle price records, the feed
//! registry and cache, and the validator that gates a candidate opportunity
//! on oracle staleness, confidence width, and pool-versus-oracle price
//! deviation. The verdict is a pure function of the candidate, the oracle
//! record, the clock and the configuration.

use vstd::prelude::*;
use crate::keys::Key;
use crate::numeric::PRICE_SCALE;
use crate::search::EnhancedArbitrageOpportunity;

verus! {

/// Full deviation (one hundred percent and more) reported when no sane
/// reference price exists.
pub const DEVIATION_MAX_PPM: u64 = 0xffff_ffff_ffff_ffff;

/// Per-pair oracle feed configuration.
#[derive(Clone, Debug)]
pub struct PythPriceFeedConfig {
    /// Human-readable pair symbol.
    pub symbol: String,
    pub base_token: Key,
    pub quote_token: Key,
    /// The oracle account publishing this pair.
    pub price_account: Key,
    /// Maximum record age accepted, in seconds.
    pub max_staleness_secs: u64,
    /// Maximum confidence interval accepted, as ppm of the price.
    pub max_confidence_ppm: u64,
}

/// One oracle price record: a scaled mantissa with a decimal exponent, its
/// confidence interval on the same scale, and its timestamps.
#[derive(Clone, Copy, Debug)]
pub struct PythPriceData {
    /// Price mantissa; the price is `price * 10^expo`.
    pub price: u64,
    /// Confidence interval, on the mantissa's scale.
    pub confidence: u64,
    /// Decimal exponent of the mantissa.
    pub expo: i32,
    /// Exponentially weighted price mantissa.
    pub ema_price: u64,
    /// Confidence of the weighted price.
    pub ema_confidence: u64,
    /// Publisher's timestamp, seconds since the epoch.
    pub publish_time: i64,
    /// When this record was received, seconds since the epoch.
    pub last_updated_unix: u64,
}

/// Ten to the `e`-th.
pub open spec fn pow10_spec(e: nat) -> int
    decreases e,
{
    if e == 0 {
        1int
    } else {
        10 * pow10_spec((e - 1) as nat)
    }
}

/// `10^e`, or `None` when that exceeds the 128-bit range.
pub fn pow10_u128(e: u32) -> (r: Option<u128>)
    ensures
        r matches Some(v) ==> v == pow10_spec(e as nat) && v >= 1,
        r is None <==> pow10_spec(e as nat) > u128::MAX,
{
    let mut v: u128 = 1;
    let mut i: u32 = 0;
    while i < e
        invariant
            i <= e,
            v == pow10_spec(i as nat),
            1 <= v,
        decreases e - i,
    {
        if v > u128::MAX / 10 {
            proof {
                assert(pow10_spec((i + 1) as nat) == 10 * pow10_spec(i as nat));
                lemma_pow10_mono((i + 1) as nat, e as nat);
            }
            return None;
        }
        proof {
            assert(pow10_spec((i + 1) as nat) == 10 * pow10_spec(i as nat));
        }
        v = v * 10;
        i = i + 1;
    }
    Some(v)
}

/// `pow10` is monotone.
proof fn lemma_pow10_mono(a: nat, b: nat)
    requires
        a <= b,
    ensures
        pow10_spec(a) <= pow10_spec(b),
        pow10_spec(a) >= 1,
    decreases b,
{
    if b == 0 {
    } else if a == b {
        lemma_pow10_mono((a - 1) as nat, (b - 1) as nat);
    } else {
        lemma_pow10_mono(a, (b - 1) as nat);
    }
}

/// The record's price normalized to `PRICE_SCALE` units:
/// `price * 10^(expo + 9)`, as integer arithmetic.
pub open spec fn normalized_price_spec(d: PythPriceData) -> int {
    if d.expo + 9 >= 0 {
        d.price * pow10_spec((d.expo + 9) as nat)
    } else {
        d.price as int / pow10_spec((-(d.expo + 9)) as nat)
    }
}

/// Confidence interval as ppm of the price; full width when the price is
/// zero, saturated to 64 bits.
pub open spec fn confidence_ppm_spec(d: PythPriceData) -> int {
    if d.price == 0 {
        DEVIATION_MAX_PPM as int
    } else {
        let v = d.confidence * 1_000_000 / (d.price as int);
        if v > u64::MAX as int {
            u64::MAX as int
        } else {
            v
        }
    }
}

/// Absolute deviation of a pool price from a reference price, in ppm of the
/// reference, saturated to 64 bits; full deviation when the reference is
/// zero. A reference beyond 10^30 has both operands scaled down by 10^9
/// first, so the computation stays within 128 bits.
pub open spec fn deviation_ppm_spec(pool_price: int, reference: int) -> int {
    if reference <= 0 {
        DEVIATION_MAX_PPM as int
    } else {
        let diff = if pool_price >= reference {
            pool_price - reference
        } else {
            reference - pool_price
        };
        let d2 = if reference > 1_000_000_000_000_000_000_000_000_000_000 {
            diff / 1_000_000_000
        } else {
            diff
        };
        let r2 = if reference > 1_000_000_000_000_000_000_000_000_000_000 {
            reference / 1_000_000_000
        } else {
            reference
        };
        let v = d2 * 1_000_000 / r2;
        if v > u64::MAX as int {
            u64::MAX as int
        } else {
            v
        }
    }
}

/// The quotient-remainder split of the deviation computation is exact:
/// `d * m / r == (d / r) * m + (d % r) * m / r`.
proof fn lemma_split_scaled_div(d: int, r: int, m: int)
    requires
        0 <= d,
        0 < r,
        0 < m,
    ensures
        d * m / r == (d / r) * m + (d % r) * m / r,
{
    let q = d / r;
    let rem = d % r;
    vstd::arithmetic::div_mod::lemma_fundamental_div_mod(d, r);
    vstd::arithmetic::div_mod::lemma_mod_bound(d, r);
    assert(d * m == rem * m + (q * m) * r) by (nonlinear_arith)
        requires
            d == r * q + rem,
    ;
    vstd::arithmetic::div_mod::lemma_hoist_over_denominator(rem * m, q * m, r as nat);
    vstd::arithmetic::mul::lemma_mul_nonnegative(rem, m);
}

/// The floor average of two 128-bit values, computed without overflow.
fn half_sum(a: u128, b: u128) -> (r: u128)
    ensures
        r == (a + b) / 2,
{
    proof {
        vstd::arithmetic::div_mod::lemma_fundamental_div_mod(a as int, 2int);
        vstd::arithmetic::div_mod::lemma_fundamental_div_mod(b as int, 2int);
        vstd::arithmetic::div_mod::lemma_mod_bound(a as int, 2int);
        vstd::arithmetic::div_mod::lemma_mod_bound(b as int, 2int);
    }
    a / 2 + b / 2 + (a % 2 + b % 2) / 2
}

impl PythPriceData {
    /// Whether the record is at most `max_age_secs` old at `now`.
    pub fn is_fresh(&self, max_age_secs: u64, now: u64) -> (r: bool)
        ensures
            r == (self.last_updated_unix + max_age_secs >= now),
    {
        if self.last_updated_unix > u64::MAX - max_age_secs {
            true
        } else {
            self.last_updated_unix + max_age_secs >= now
        }
    }

    /// Confidence interval as ppm of the price.
    pub fn confidence_ppm(&self) -> (r: u64)
        ensures
            r == confidence_ppm_spec(*self),
    {
        if self.price == 0 {
            return DEVIATION_MAX_PPM;
        }
        proof {
            vstd::arithmetic::mul::lemma_mul_upper_bound(
                self.confidence as int,
                u64::MAX as int,
                1_000_000int,
                1_000_000int,
            );
            vstd::arithmetic::mul::lemma_mul_nonnegative(self.confidence as int, 1_000_000int);
            vstd::arithmetic::div_mod::lemma_div_pos_is_pos(
                self.confidence as int * 1_000_000,
                self.price as int,
            );
        }
        let v: u128 = (self.confidence as u128) * 1_000_000 / (self.price as u128);
        if v > u64::MAX as u128 {
            u64::MAX
        } else {
            v as u64
        }
    }

    /// Whether the confidence interval is within the given width.
    pub fn has_acceptable_confidence(&self, max_conf_ppm: u64) -> (r: bool)
        ensures
            r == (confidence_ppm_spec(*self) <= max_conf_ppm),
    {
        self.confidence_ppm() <= max_conf_ppm
    }

    /// The price normalized to `PRICE_SCALE` units; `None` when the
    /// conversion overflows or the price degenerates to zero.
    #[verifier::spinoff_prover]
    #[verifier::rlimit(50)]
    pub fn normalized_price(&self) -> (r: Option<u128>)
        ensures
            r matches Some(v) ==> v == normalized_price_spec(*self) && v > 0,
            r is None <==> normalized_price_spec(*self) <= 0 || normalized_price_spec(*self)
                > u128::MAX,
    {
        if self.expo >= -9 {
            let e: u32 = ((self.expo as i64) + 9) as u32;
            match pow10_u128(e) {
                Some(m) => {
                    if self.price == 0 {
                        None
                    } else if (self.price as u128) > u128::MAX / m {
                        proof {
                            vstd::arithmetic::div_mod::lemma_fundamental_div_mod(
                                u128::MAX as int,
                                m as int,
                            );
                            vstd::arithmetic::div_mod::lemma_mod_bound(u128::MAX as int, m as int);
                            vstd::arithmetic::mul::lemma_mul_inequality(
                                (u128::MAX as int) / (m as int) + 1,
                                self.price as int,
                                m as int,
                            );
                            assert(((u128::MAX as int) / (m as int) + 1) * (m as int) == (
                            u128::MAX as int) / (m as int) * (m as int) + m) by (nonlinear_arith);
                            vstd::arithmetic::mul::lemma_mul_is_commutative(
                                (u128::MAX as int) / (m as int),
                                m as int,
                            );
                        }
                        None
                    } else {
                        proof {
                            vstd::arithmetic::div_mod::lemma_fundamental_div_mod(
                                u128::MAX as int,
                                m as int,
                            );
                            vstd::arithmetic::div_mod::lemma_mod_bound(u128::MAX as int, m as int);
                            vstd::arithmetic::mul::lemma_mul_inequality(
                                self.price as int,
                                (u128::MAX as int) / (m as int),
                                m as int,
                            );
                            vstd::arithmetic::mul::lemma_mul_is_commutative(
                                (u128::MAX as int) / (m as int),
                                m as int,
                            );
                            vstd::arithmetic::mul::lemma_mul_strictly_positive(
                                self.price as int,
                                m as int,
                            );
                        }
                        let v: u128 = (self.price as u128) * m;
                        Some(v)
                    }
                },
                None => {
                    proof {
                        lemma_pow10_mono(0nat, e as nat);
                        if self.price > 0 {
                            vstd::arithmetic::mul::lemma_mul_increases(
                                self.price as int,
                                pow10_spec(e as nat),
                            );
                        }
                    }
                    None
                },
            }
        } else {
            let e: u32 = (-((self.expo as i64) + 9)) as u32;
            match pow10_u128(e) {
                Some(m) => {
                    let v: u128 = (self.price as u128) / m;
                    if v == 0 {
                        None
                    } else {
                        Some(v)
                    }
                },
                None => {
                    proof {
                        lemma_pow10_mono(0nat, e as nat);
                        vstd::arithmetic::div_mod::lemma_basic_div(
                            self.price as int,
                            pow10_spec(e as nat),
                        );
                    }
                    None
                },
            }
        }
    }

    /// Deviation of a pool price (in `PRICE_SCALE` units) from this record's
    /// normalized price, in ppm of the latter; full deviation when the
    /// normalized price is unusable.
    pub fn calculate_pool_deviation(&self, pool_price: u128) -> (r: u64)
        ensures
            ({
                let reference = if 0 < normalized_price_spec(*self) <= u128::MAX as int {
                    normalized_price_spec(*self)
                } else {
                    0int
                };
                r == deviation_ppm_spec(pool_price as int, reference)
            }),
    {
        let reference: u128 = match self.normalized_price() {
            Some(v) => v,
            None => 0,
        };
        deviation_ppm(pool_price, reference)
    }
}

/// Absolute deviation of `pool_price` from `reference`, in ppm of the
/// reference, saturated to 64 bits.
pub fn deviation_ppm(pool_price: u128, reference: u128) -> (r: u64)
    ensures
        r == deviation_ppm_spec(pool_price as int, reference as int),
{
    if reference == 0 {
        return DEVIATION_MAX_PPM;
    }
    let diff: u128 = if pool_price >= reference {
        pool_price - reference
    } else {
        reference - pool_price
    };
    let big = reference > 1_000_000_000_000_000_000_000_000_000_000u128;
    let d2: u128 = if big {
        diff / 1_000_000_000
    } else {
        diff
    };
    let r2: u128 = if big {
        reference / 1_000_000_000
    } else {
        reference
    };
    proof {
        if big {
            crate::numeric::lemma_div_mono(diff as int, u128::MAX as int, 1_000_000_000int);
        }
    }
    let q: u128 = d2 / r2;
    if q >= 18_446_744_073_710 {
        proof {
            lemma_split_scaled_div(d2 as int, r2 as int, 1_000_000int);
            vstd::arithmetic::mul::lemma_mul_inequality(
                18_446_744_073_710int,
                q as int,
                1_000_000int,
            );
            vstd::arithmetic::div_mod::lemma_div_pos_is_pos(
                ((d2 as int) % (r2 as int)) * 1_000_000,
                r2 as int,
            );
            vstd::arithmetic::div_mod::lemma_mod_bound(d2 as int, r2 as int);
            vstd::arithmetic::mul::lemma_mul_nonnegative((d2 as int) % (r2 as int), 1_000_000int);
        }
        return u64::MAX;
    }
    let rem: u128 = d2 % r2;
    proof {
        vstd::arithmetic::div_mod::lemma_mod_bound(d2 as int, r2 as int);
        if !big {
            assert(rem < r2 && r2 <= 1_000_000_000_000_000_000_000_000_000_000u128);
        } else {
            crate::numeric::lemma_div_mono(diff as int, u128::MAX as int, 1_000_000_000int);
        }
        lemma_split_scaled_div(d2 as int, r2 as int, 1_000_000int);
        vstd::arithmetic::div_mod::lemma_div_pos_is_pos((rem as int) * 1_000_000, r2 as int);
        vstd::arithmetic::mul::lemma_mul_nonnegative(rem as int, 1_000_000int);
        crate::numeric::lemma_mul_div_le(rem as int, 1_000_000int, r2 as int);
        vstd::arithmetic::mul::lemma_mul_is_commutative(rem as int, 1_000_000int);
    }
    let frac: u128 = rem * 1_000_000 / r2;
    let v: u128 = q * 1_000_000 + frac;
    if v > u64::MAX as u128 {
        u64::MAX
    } else {
        v as u64
    }
}

// ----------------------------------------------------------------------------
// Validator
// ----------------------------------------------------------------------------

/// Machine-readable outcome of an oracle validation.
#[derive(Clone, Copy, Debug, PartialEq, Eq, Structural)]
pub enum ValidationCode {
    /// Every gate passed.
    Accepted,
    /// No oracle record exists for the pair, or its price is unusable.
    NoOracle,
    /// The oracle record is older than the staleness bound.
    StaleOracle,
    /// The oracle confidence interval is wider than allowed.
    WideConfidence,
    /// A pool price deviates too far from the oracle price.
    PriceDeviation,
    /// Set by the free-form constructors only.
    Unspecified,
}

/// Outcome of validating one opportunity against the oracle.
#[derive(Clone, Debug)]
pub struct ValidationResult {
    pub is_valid: bool,
    /// Machine-readable verdict.
    pub code: ValidationCode,
    /// Free-form explanation.
    pub reason: String,
    /// Oracle price in `PRICE_SCALE` units, where one was usable.
    pub oracle_price: Option<u128>,
    /// The pool price that was compared, where one was.
    pub pool_price: Option<u128>,
    /// Deviation of the pool price from the oracle price, ppm.
    pub deviation_ppm: Option<u64>,
    /// Oracle confidence interval, ppm of its price.
    pub confidence_ppm: Option<u64>,
}

impl ValidationResult {
    /// A passing result with a free-form reason and no metrics.
    pub fn valid(reason: String) -> (r: ValidationResult)
        ensures
            r.is_valid,
            r.code == ValidationCode::Accepted,
            r.oracle_price is None,
            r.pool_price is None,
            r.deviation_ppm is None,
            r.confidence_ppm is None,
    {
        ValidationResult {
            is_valid: true,
            code: ValidationCode::Accepted,
            reason,
            oracle_price: None,
            pool_price: None,
            deviation_ppm: None,
            confidence_ppm: None,
        }
    }

    /// A failing result with a free-form reason and no metrics.
    pub fn invalid(reason: String) -> (r: ValidationResult)
        ensures
            !r.is_valid,
            r.code == ValidationCode::Unspecified,
            r.oracle_price is None,
            r.pool_price is None,
            r.deviation_ppm is None,
            r.confidence_ppm is None,
    {
        ValidationResult {
            is_valid: false,
            code: ValidationCode::Unspecified,
            reason,
            oracle_price: None,
            pool_price: None,
            deviation_ppm: None,
            confidence_ppm: None,
        }
    }

    /// A result carrying the compared prices, the deviation and the
    /// confidence width.
    pub fn with_metrics(
        is_valid: bool,
        reason: String,
        oracle_price: u128,
        pool_price: u128,
        deviation_ppm_v: u64,
        confidence_ppm_v: u64,
    ) -> (r: ValidationResult)
        ensures
            r.is_valid == is_valid,
            r.code == (if is_valid {
                ValidationCode::Accepted
            } else {
                ValidationCode::Unspecified
            }),
            r.oracle_price == Some(oracle_price),
            r.pool_price == Some(pool_price),
            r.deviation_ppm == Some(deviation_ppm_v),
            r.confidence_ppm == Some(confidence_ppm_v),
    {
        ValidationResult {
            is_valid,
            code: if is_valid {
                ValidationCode::Accepted
            } else {
                ValidationCode::Unspecified
            },
            reason,
            oracle_price: Some(oracle_price),
            pool_price: Some(pool_price),
            deviation_ppm: Some(deviation_ppm_v),
            confidence_ppm: Some(confidence_ppm_v),
        }
    }
}

/// Gate thresholds of the oracle validator. Percentages are in ppm.
#[derive(Clone, Copy, Debug)]
pub struct OracleValidationConfig {
    /// Maximum deviation of a pool price from the oracle price, ppm.
    pub max_price_deviation_ppm: u64,
    /// Maximum oracle confidence interval, ppm of the price.
    pub max_oracle_confidence_ppm: u64,
    /// Maximum record age, seconds.
    pub max_staleness_secs: u64,
    /// Also gate the buy and sell prices individually.
    pub require_both_pools: bool,
}

impl OracleValidationConfig {
    /// Strict preset: 2% deviation, 0.5% confidence, 30 s staleness, both
    /// legs gated.
    pub fn conservative() -> (r: OracleValidationConfig)
        ensures
            r.max_price_deviation_ppm == 20_000,
            r.max_oracle_confidence_ppm == 5_000,
            r.max_staleness_secs == 30,
            r.require_both_pools,
    {
        OracleValidationConfig {
            max_price_deviation_ppm: 20_000,
            max_oracle_confidence_ppm: 5_000,
            max_staleness_secs: 30,
            require_both_pools: true,
        }
    }

    /// Balanced preset (the default): 5% deviation, 1% confidence, 60 s
    /// staleness, both legs gated.
    pub fn balanced() -> (r: OracleValidationConfig)
        ensures
            r.max_price_deviation_ppm == 50_000,
            r.max_oracle_confidence_ppm == 10_000,
            r.max_staleness_secs == 60,
            r.require_both_pools,
    {
        OracleValidationConfig {
            max_price_deviation_ppm: 50_000,
            max_oracle_confidence_ppm: 10_000,
            max_staleness_secs: 60,
            require_both_pools: true,
        }
    }

    /// Permissive preset: 10% deviation, 2% confidence, 120 s staleness,
    /// individual legs not gated.
    pub fn aggressive() -> (r: OracleValidationConfig)
        ensures
            r.max_price_deviation_ppm == 100_000,
            r.max_oracle_confidence_ppm == 20_000,
            r.max_staleness_secs == 120,
            !r.require_both_pools,
    {
        OracleValidationConfig {
            max_price_deviation_ppm: 100_000,
            max_oracle_confidence_ppm: 20_000,
            max_staleness_secs: 120,
            require_both_pools: false,
        }
    }
}

impl Default for OracleValidationConfig {
    /// The balanced preset.
    fn default() -> (r: OracleValidationConfig)
        ensures
            r.max_price_deviation_ppm == 50_000,
            r.max_oracle_confidence_ppm == 10_000,
            r.max_staleness_secs == 60,
            r.require_both_pools,
    {
        OracleValidationConfig {
            max_price_deviation_ppm: 50_000,
            max_oracle_confidence_ppm: 10_000,
            max_staleness_secs: 60,
            require_both_pools: true,
        }
    }
}

/// The verdict of the oracle gate, as a pure function of the candidate's
/// prices, the oracle record, the clock and the configuration: no record (or
/// an unusable price) fails, then staleness, then confidence width, then the
/// deviation of the average pool price, then — when configured — of each leg
/// individually.
pub open spec fn oracle_verdict_spec(
    buy_price: u128,
    sell_price: u128,
    oracle: Option<PythPriceData>,
    now: u64,
    cfg: OracleValidationConfig,
) -> ValidationCode {
    match oracle {
        None => ValidationCode::NoOracle,
        Some(d) => {
            if !(d.last_updated_unix + cfg.max_staleness_secs >= now) {
                ValidationCode::StaleOracle
            } else if confidence_ppm_spec(d) > cfg.max_oracle_confidence_ppm {
                ValidationCode::WideConfidence
            } else if normalized_price_spec(d) <= 0 || normalized_price_spec(d) > u128::MAX {
                ValidationCode::NoOracle
            } else {
                let reference = normalized_price_spec(d);
                let avg = ((buy_price + sell_price) / 2) as int;
                if deviation_ppm_spec(avg, reference) > cfg.max_price_deviation_ppm {
                    ValidationCode::PriceDeviation
                } else if cfg.require_both_pools && deviation_ppm_spec(buy_price as int, reference)
                    > cfg.max_price_deviation_ppm {
                    ValidationCode::PriceDeviation
                } else if cfg.require_both_pools && deviation_ppm_spec(sell_price as int, reference)
                    > cfg.max_price_deviation_ppm {
                    ValidationCode::PriceDeviation
                } else {
                    ValidationCode::Accepted
                }
            }
        },
    }
}

/// Whether the verdict on an opportunity against an oracle record accepts.
pub open spec fn verdict_accepts(
    o: EnhancedArbitrageOpportunity,
    oracle: Option<PythPriceData>,
    now: u64,
    cfg: OracleValidationConfig,
) -> bool {
    oracle_verdict_spec(o.buy_price, o.sell_price, oracle, now, cfg) == ValidationCode::Accepted
}

/// Whether `o` is one of the given candidates and its own oracle record
/// accepts it.
pub open spec fn accepted_from(
    o: EnhancedArbitrageOpportunity,
    opportunities: Seq<EnhancedArbitrageOpportunity>,
    oracles: Seq<Option<PythPriceData>>,
    now: u64,
    cfg: OracleValidationConfig,
) -> bool {
    exists|t: int|
        0 <= t < opportunities.len() && o == opportunities[t] && #[trigger] verdict_accepts(
            opportunities[t],
            oracles[t],
            now,
            cfg,
        )
}

/// The order-preserving subsequence of the candidates whose own oracle
/// record accepts them; the records are aligned with the candidates.
pub open spec fn accepted_filter(
    opportunities: Seq<EnhancedArbitrageOpportunity>,
    oracles: Seq<Option<PythPriceData>>,
    now: u64,
    cfg: OracleValidationConfig,
) -> Seq<EnhancedArbitrageOpportunity>
    decreases opportunities.len(),
{
    if opportunities.len() == 0 {
        Seq::empty()
    } else {
        let rest = accepted_filter(
            opportunities.drop_last(),
            oracles.drop_last(),
            now,
            cfg,
        );
        if verdict_accepts(opportunities.last(), oracles.last(), now, cfg) {
            rest.push(opportunities.last())
        } else {
            rest
        }
    }
}

/// The oracle-gated validator of candidate opportunities.
pub struct PythArbValidator {
    config: OracleValidationConfig,
}

impl PythArbValidator {
    /// The thresholds in force.
    pub closed spec fn config_spec(&self) -> OracleValidationConfig {
        self.config
    }

    /// A validator with the given thresholds.
    pub fn new(config: OracleValidationConfig) -> (r: PythArbValidator)
        ensures
            r.config_spec() == config,
    {
        PythArbValidator { config }
    }

    /// A validator with the balanced default thresholds.
    pub fn with_default_config() -> (r: PythArbValidator)
        ensures
            r.config_spec().max_price_deviation_ppm == 50_000,
            r.config_spec().max_oracle_confidence_ppm == 10_000,
            r.config_spec().max_staleness_secs == 60,
            r.config_spec().require_both_pools,
    {
        PythArbValidator { config: OracleValidationConfig::balanced() }
    }

    /// Validates one opportunity against an oracle record taken at `now`.
    /// The verdict code is exactly [`oracle_verdict_spec`] of the
    /// opportunity's two prices, the record, the clock and the configured
    /// thresholds; the result is valid exactly when that verdict accepts.
    pub fn validate_opportunity(
        &self,
        opportunity: &EnhancedArbitrageOpportunity,
        oracle: Option<PythPriceData>,
        now: u64,
    ) -> (r: ValidationResult)
        ensures
            r.code == oracle_verdict_spec(
                opportunity.buy_price,
                opportunity.sell_price,
                oracle,
                now,
                self.config_spec(),
            ),
            r.is_valid <==> r.code == ValidationCode::Accepted,
            r.code == ValidationCode::NoOracle || r.code == ValidationCode::StaleOracle ==> (
            r.oracle_price is None && r.pool_price is None && r.deviation_ppm is None),
            oracle matches Some(d) ==> ({
                let reference = normalized_price_spec(d);
                let avg = (opportunity.buy_price + opportunity.sell_price) / 2;
                let avg_dev = deviation_ppm_spec(avg as int, reference);
                let buy_dev = deviation_ppm_spec(opportunity.buy_price as int, reference);
                let sell_dev = deviation_ppm_spec(opportunity.sell_price as int, reference);
                let max_dev = self.config_spec().max_price_deviation_ppm;
                &&& (r.code == ValidationCode::WideConfidence || r.code
                    == ValidationCode::PriceDeviation || r.code == ValidationCode::Accepted)
                    ==> r.confidence_ppm == Some(confidence_ppm_spec(d) as u64)
                &&& (r.code == ValidationCode::PriceDeviation || r.code
                    == ValidationCode::Accepted) ==> r.oracle_price == Some(reference as u128)
                &&& r.code == ValidationCode::Accepted ==> r.pool_price == Some(avg as u128)
                    && r.deviation_ppm == Some(avg_dev as u64)
                &&& r.code == ValidationCode::PriceDeviation ==> (if avg_dev > max_dev {
                    r.pool_price == Some(avg as u128) && r.deviation_ppm == Some(avg_dev as u64)
                } else if buy_dev > max_dev {
                    r.pool_price == Some(opportunity.buy_price) && r.deviation_ppm == Some(
                        buy_dev as u64,
                    )
                } else {
                    r.pool_price == Some(opportunity.sell_price) && r.deviation_ppm == Some(
                        sell_dev as u64,
                    )
                })
            }),
    {
        let d = match oracle {
            None => {
                return ValidationResult {
                    is_valid: false,
                    code: ValidationCode::NoOracle,
                    reason: no_oracle_text(),
                    oracle_price: None,
                    pool_price: None,
                    deviation_ppm: None,
                    confidence_ppm: None,
                };
            },
            Some(d) => d,
        };
        if !d.is_fresh(self.config.max_staleness_secs, now) {
            return ValidationResult {
                is_valid: false,
                code: ValidationCode::StaleOracle,
                reason: stale_oracle_text(),
                oracle_price: None,
                pool_price: None,
                deviation_ppm: None,
                confidence_ppm: None,
            };
        }
        let conf = d.confidence_ppm();
        if conf > self.config.max_oracle_confidence_ppm {
            return ValidationResult {
                is_valid: false,
                code: ValidationCode::WideConfidence,
                reason: wide_confidence_text(),
                oracle_price: None,
                pool_price: None,
                deviation_ppm: None,
                confidence_ppm: Some(conf),
            };
        }
        let reference = match d.normalized_price() {
            Some(v) => v,
            None => {
                return ValidationResult {
                    is_valid: false,
                    code: ValidationCode::NoOracle,
                    reason: no_oracle_text(),
                    oracle_price: None,
                    pool_price: None,
                    deviation_ppm: None,
                    confidence_ppm: Some(conf),
                };
            },
        };
        let avg: u128 = half_sum(opportunity.buy_price, opportunity.sell_price);
        let avg_dev = deviation_ppm(avg, reference);
        if avg_dev > self.config.max_price_deviation_ppm {
            return ValidationResult {
                is_valid: false,
                code: ValidationCode::PriceDeviation,
                reason: price_deviation_text(),
                oracle_price: Some(reference),
                pool_price: Some(avg),
                deviation_ppm: Some(avg_dev),
                confidence_ppm: Some(conf),
            };
        }
        if self.config.require_both_pools {
            let buy_dev = deviation_ppm(opportunity.buy_price, reference);
            if buy_dev > self.config.max_price_deviation_ppm {
                return ValidationResult {
                    is_valid: false,
                    code: ValidationCode::PriceDeviation,
                    reason: price_deviation_text(),
                    oracle_price: Some(reference),
                    pool_price: Some(opportunity.buy_price),
                    deviation_ppm: Some(buy_dev),
                    confidence_ppm: Some(conf),
                };
            }
            let sell_dev = deviation_ppm(opportunity.sell_price, reference);
            if sell_dev > self.config.max_price_deviation_ppm {
                return ValidationResult {
                    is_valid: false,
                    code: ValidationCode::PriceDeviation,
                    reason: price_deviation_text(),
                    oracle_price: Some(reference),
                    pool_price: Some(opportunity.sell_price),
                    deviation_ppm: Some(sell_dev),
                    confidence_ppm: Some(conf),
                };
            }
        }
        ValidationResult {
            is_valid: true,
            code: ValidationCode::Accepted,
            reason: accepted_text(),
            oracle_price: Some(reference),
            pool_price: Some(avg),
            deviation_ppm: Some(avg_dev),
            confidence_ppm: Some(conf),
        }
    }

    /// Validates each opportunity against its oracle record; the records are
    /// handed in aligned with the candidates. Each verdict is exactly the
    /// pure [`oracle_verdict_spec`] of its own inputs.
    pub fn validate_opportunities(
        &self,
        opportunities: &Vec<EnhancedArbitrageOpportunity>,
        oracles: &Vec<Option<PythPriceData>>,
        now: u64,
    ) -> (r: Vec<ValidationResult>)
        requires
            opportunities@.len() == oracles@.len(),
        ensures
            r@.len() == opportunities@.len(),
            forall|k: int|
                0 <= k < r@.len() ==> (#[trigger] r@[k]).code == oracle_verdict_spec(
                    opportunities@[k].buy_price,
                    opportunities@[k].sell_price,
                    oracles@[k],
                    now,
                    self.config_spec(),
                ) && (r@[k].is_valid <==> r@[k].code == ValidationCode::Accepted),
    {
        let mut out: Vec<ValidationResult> = Vec::new();
        let n = opportunities.len();
        for i in 0..n
            invariant
                n == opportunities@.len(),
                n == oracles@.len(),
                out@.len() == i,
                forall|k: int|
                    0 <= k < i ==> (#[trigger] out@[k]).code == oracle_verdict_spec(
                        opportunities@[k].buy_price,
                        opportunities@[k].sell_price,
                        oracles@[k],
                        now,
                        self.config_spec(),
                    ) && (out@[k].is_valid <==> out@[k].code == ValidationCode::Accepted),
        {
            let v = self.validate_opportunity(&opportunities[i], oracles[i], now);
            out.push(v);
        }
        out
    }

    /// Keeps exactly the opportunities whose oracle verdict accepts, in
    /// order: the result is the accepting subsequence of the candidates, and
    /// each kept entry is one of them.
    pub fn filter_valid_opportunities(
        &self,
        opportunities: &Vec<EnhancedArbitrageOpportunity>,
        oracles: &Vec<Option<PythPriceData>>,
        now: u64,
    ) -> (r: Vec<EnhancedArbitrageOpportunity>)
        requires
            opportunities@.len() == oracles@.len(),
        ensures
            r@ == accepted_filter(opportunities@, oracles@, now, self.config_spec()),
            forall|k: int|
                0 <= k < r@.len() ==> accepted_from(
                    #[trigger] r@[k],
                    opportunities@,
                    oracles@,
                    now,
                    self.config_spec(),
                ),
    {
        let mut out: Vec<EnhancedArbitrageOpportunity> = Vec::new();
        let n = opportunities.len();
        for i in 0..n
            invariant
                n == opportunities@.len(),
                n == oracles@.len(),
                out@ == accepted_filter(
                    opportunities@.take(i as int),
                    oracles@.take(i as int),
                    now,
                    self.config_spec(),
                ),
                forall|k: int|
                    0 <= k < out@.len() ==> accepted_from(
                        #[trigger] out@[k],
                        opportunities@,
                        oracles@,
                        now,
                        self.config_spec(),
                    ),
        {
            let ghost prev = out@;
            let v = self.validate_opportunity(&opportunities[i], oracles[i], now);
            proof {
                assert(opportunities@.take(i + 1).drop_last() =~= opportunities@.take(i as int));
                assert(oracles@.take(i + 1).drop_last() =~= oracles@.take(i as int));
                assert(opportunities@.take(i + 1).last() == opportunities@[i as int]);
                assert(oracles@.take(i + 1).last() == oracles@[i as int]);
            }
            if v.is_valid {
                out.push(opportunities[i]);
                proof {
                    assert(verdict_accepts(
                        opportunities@[i as int],
                        oracles@[i as int],
                        now,
                        self.config_spec(),
                    ));
                    assert forall|k: int| 0 <= k < out@.len() implies accepted_from(
                        #[trigger] out@[k],
                        opportunities@,
                        oracles@,
                        now,
                        self.config_spec(),
                    ) by {
                        if k == out@.len() - 1 {
                            assert(out@[k] == opportunities@[i as int]);
                        } else {
                            assert(out@[k] == prev[k]);
                        }
                    }
                }
            }
        }
        proof {
            assert(opportunities@.take(n as int) =~= opportunities@);
            assert(oracles@.take(n as int) =~= oracles@);
        }
        out
    }
}

/// Oracle gate purity: two validations of the same candidate against the
/// same oracle snapshot, clock and thresholds reach the same verdict — the
/// verdict is a function of those inputs alone.
pub proof fn lemma_oracle_gate_pure(
    buy_price: u128,
    sell_price: u128,
    oracle: Option<PythPriceData>,
    now: u64,
    cfg: OracleValidationConfig,
    verdict_one: ValidationCode,
    verdict_two: ValidationCode,
)
    requires
        verdict_one == oracle_verdict_spec(buy_price, sell_price, oracle, now, cfg),
        verdict_two == oracle_verdict_spec(buy_price, sell_price, oracle, now, cfg),
    ensures
        verdict_one == verdict_two,
{
}

/// Reason a cached oracle price could not be served.
#[derive(Clone, Copy, Debug, PartialEq, Eq, Structural)]
pub enum OracleQueryError {
    /// No feed is configured for the pair, or no record is cached yet.
    NoFeed,
    /// The cached record is older than allowed.
    Stale,
}

/// The registry of configured oracle feeds and the cache of their latest
/// records. The transport that actually fetches records lives outside; it
/// hands each fresh record in through [`PythPriceMonitor::update_price_feed`].
pub struct PythPriceMonitor {
    price_feeds: Vec<PythPriceFeedConfig>,
    price_cache: Vec<(Key, PythPriceData)>,
    update_interval_ms: u64,
}

/// Whether some cache entry carries the account key.
pub open spec fn cache_has(s: Seq<(Key, PythPriceData)>, account: Key) -> bool {
    exists|i: int| 0 <= i < s.len() && (#[trigger] s[i]).0 == account
}

/// The first cached record for an oracle account, scanning front to back.
pub open spec fn cache_lookup(s: Seq<(Key, PythPriceData)>, account: Key) -> Option<PythPriceData>
    decreases s.len(),
{
    if s.len() == 0 {
        None
    } else if s[0].0 == account {
        Some(s[0].1)
    } else {
        cache_lookup(s.skip(1), account)
    }
}

/// What the registry serves for a pair: the cached record of the first feed
/// configured on `(base, quote)`, if that feed has one.
pub open spec fn feed_lookup(
    feeds: Seq<PythPriceFeedConfig>,
    cache: Seq<(Key, PythPriceData)>,
    base: Key,
    quote: Key,
) -> Option<PythPriceData>
    decreases feeds.len(),
{
    if feeds.len() == 0 {
        None
    } else if feeds[0].base_token == base && feeds[0].quote_token == quote {
        cache_lookup(cache, feeds[0].price_account)
    } else {
        feed_lookup(feeds.skip(1), cache, base, quote)
    }
}

/// The lookup finds the entry at the first index carrying the account.
proof fn lemma_cache_lookup_at(s: Seq<(Key, PythPriceData)>, i: int, account: Key)
    requires
        0 <= i < s.len(),
        s[i].0 == account,
        forall|j: int| 0 <= j < i ==> (#[trigger] s[j]).0 != account,
    ensures
        cache_lookup(s, account) == Some(s[i].1),
    decreases i,
{
    if i == 0 {
    } else {
        assert(s.skip(1)[i - 1] == s[i]);
        assert(forall|j: int| 0 <= j < i - 1 ==> (#[trigger] s.skip(1)[j]).0 != account) by {
            assert(forall|j: int| 0 <= j < i - 1 ==> s.skip(1)[j] == s[j + 1]);
        }
        lemma_cache_lookup_at(s.skip(1), i - 1, account);
    }
}

impl PythPriceMonitor {
    /// The configured feeds.
    pub closed spec fn feeds_spec(&self) -> Seq<PythPriceFeedConfig> {
        self.price_feeds@
    }

    /// The cached records, keyed by oracle account.
    pub closed spec fn cache_spec(&self) -> Seq<(Key, PythPriceData)> {
        self.price_cache@
    }

    /// An empty registry polling at the given interval.
    pub fn new(update_interval_ms: u64) -> (r: PythPriceMonitor)
        ensures
            r.feeds_spec() =~= Seq::<PythPriceFeedConfig>::empty(),
            r.cache_spec() =~= Seq::<(Key, PythPriceData)>::empty(),
    {
        PythPriceMonitor { price_feeds: Vec::new(), price_cache: Vec::new(), update_interval_ms }
    }

    /// Registers one feed.
    pub fn add_price_feed(&mut self, config: PythPriceFeedConfig)
        ensures
            final(self).feeds_spec() == old(self).feeds_spec().push(config),
            final(self).cache_spec() == old(self).cache_spec(),
    {
        self.price_feeds.push(config);
    }

    /// Registers several feeds, in order.
    pub fn add_price_feeds(&mut self, configs: Vec<PythPriceFeedConfig>)
        ensures
            final(self).feeds_spec() == old(self).feeds_spec() + configs@,
            final(self).cache_spec() == old(self).cache_spec(),
    {
        let ghost base = self.price_feeds@;
        let ghost all = configs@;
        let mut rest = configs;
        proof {
            assert(base + all.take(0int) =~= base);
            assert(all.skip(0int) =~= all);
        }
        let ghost mut i: int = 0;
        while rest.len() > 0
            invariant
                0 <= i <= all.len(),
                rest@ == all.skip(i),
                self.price_feeds@ == base + all.take(i),
                self.price_cache@ == old(self).cache_spec(),
                base == old(self).feeds_spec(),
            decreases rest@.len(),
        {
            let c = rest.remove(0);
            proof {
                assert(all.skip(i)[0] == all[i]);
                assert(all.skip(i).subrange(1, all.skip(i).len() as int) =~= all.skip(i + 1));
                assert(base + all.take(i + 1) =~= (base + all.take(i)).push(all[i]));
            }
            self.price_feeds.push(c);
            proof {
                i = i + 1;
            }
        }
        proof {
            assert(all.take(i) =~= all);
        }
    }

    /// Stores the latest record for an oracle account, replacing any older
    /// one: afterwards a lookup of that account serves exactly this record.
    pub fn update_price_feed(&mut self, account: Key, data: PythPriceData)
        ensures
            final(self).feeds_spec() == old(self).feeds_spec(),
            cache_has(final(self).cache_spec(), account),
            cache_lookup(final(self).cache_spec(), account) == Some(data),
    {
        let n = self.price_cache.len();
        for i in 0..n
            invariant
                n == self.price_cache@.len(),
                self.price_cache@.len() == old(self).cache_spec().len(),
                self.price_feeds@ == old(self).feeds_spec(),
                self.price_cache@ == old(self).cache_spec(),
                forall|j: int| 0 <= j < i ==> (#[trigger] self.price_cache@[j]).0 != account,
        {
            if self.price_cache[i].0 == account {
                let ghost before = self.price_cache@;
                self.price_cache.set(i, (account, data));
                proof {
                    assert((self.price_cache@[i as int]).0 == account);
                    assert(forall|j: int|
                        0 <= j < i ==> (#[trigger] self.price_cache@[j]).0 != account) by {
                        assert(forall|j: int|
                            0 <= j < i ==> self.price_cache@[j] == before[j]);
                    }
                    lemma_cache_lookup_at(self.price_cache@, i as int, account);
                }
                return ;
            }
        }
        let ghost before = self.price_cache@;
        self.price_cache.push((account, data));
        proof {
            assert((self.price_cache@[self.price_cache@.len() - 1]).0 == account);
            assert(forall|j: int|
                0 <= j < self.price_cache@.len() - 1 ==> (#[trigger] self.price_cache@[j]).0
                    != account) by {
                assert(forall|j: int|
                    0 <= j < before.len() ==> self.price_cache@[j] == before[j]);
            }
            lemma_cache_lookup_at(
                self.price_cache@,
                self.price_cache@.len() - 1,
                account,
            );
        }
    }

    /// The cached record for the feed configured on `(base_token,
    /// quote_token)`, if any.
    pub fn get_price(&self, base_token: &Key, quote_token: &Key) -> (r: Option<PythPriceData>)
        ensures
            r == feed_lookup(self.feeds_spec(), self.cache_spec(), *base_token, *quote_token),
            r matches Some(d) ==> exists|i: int|
                0 <= i < self.cache_spec().len() && (#[trigger] self.cache_spec()[i]).1 == d,
    {
        let nf = self.price_feeds.len();
        proof {
            assert(self.feeds_spec().skip(0int) =~= self.feeds_spec());
        }
        for i in 0..nf
            invariant
                nf == self.price_feeds@.len(),
                feed_lookup(self.feeds_spec(), self.cache_spec(), *base_token, *quote_token)
                    == feed_lookup(
                    self.feeds_spec().skip(i as int),
                    self.cache_spec(),
                    *base_token,
                    *quote_token,
                ),
        {
            proof {
                assert(self.feeds_spec().skip(i as int)[0] == self.feeds_spec()[i as int]);
                assert(self.feeds_spec().skip(i as int).skip(1) =~= self.feeds_spec().skip(i + 1));
            }
            if self.price_feeds[i].base_token == *base_token && self.price_feeds[i].quote_token
                == *quote_token {
                let account = self.price_feeds[i].price_account;
                proof {
                    assert(self.feeds_spec().skip(i as int)[0].price_account == account);
                    assert(feed_lookup(
                        self.feeds_spec().skip(i as int),
                        self.cache_spec(),
                        *base_token,
                        *quote_token,
                    ) == cache_lookup(self.cache_spec(), account));
                    assert(self.cache_spec().skip(0int) =~= self.cache_spec());
                }
                let nc = self.price_cache.len();
                for j in 0..nc
                    invariant
                        nc == self.price_cache@.len(),
                        feed_lookup(
                            self.feeds_spec(),
                            self.cache_spec(),
                            *base_token,
                            *quote_token,
                        ) == cache_lookup(self.cache_spec(), account),
                        cache_lookup(self.cache_spec(), account) == cache_lookup(
                            self.cache_spec().skip(j as int),
                            account,
                        ),
                {
                    proof {
                        assert(self.cache_spec().skip(j as int)[0] == self.cache_spec()[j as int]);
                        assert(self.cache_spec().skip(j as int).skip(1) =~= self.cache_spec().skip(
                            j + 1,
                        ));
                    }
                    if self.price_cache[j].0 == account {
                        let d = self.price_cache[j].1;
                        proof {
                            assert((self.cache_spec()[j as int]).1 == d);
                        }
                        return Some(d);
                    }
                }
                proof {
                    assert(self.cache_spec().skip(nc as int) =~= Seq::<(Key, PythPriceData)>::empty());
                }
                return None;
            }
        }
        proof {
            assert(self.feeds_spec().skip(nf as int) =~= Seq::<PythPriceFeedConfig>::empty());
        }
        None
    }

    /// Whether the pool price is within `max_deviation_ppm` of the cached
    /// oracle price for the pair: errs when no feed or record exists, or when
    /// the record is older than `max_age_secs`.
    pub fn validate_pool_price(
        &self,
        base_token: &Key,
        quote_token: &Key,
        pool_price: u128,
        max_deviation_ppm: u64,
        max_age_secs: u64,
        now: u64,
    ) -> (r: Result<bool, OracleQueryError>)
        ensures
            r == match feed_lookup(
                self.feeds_spec(),
                self.cache_spec(),
                *base_token,
                *quote_token,
            ) {
                Option::None => Err::<bool, OracleQueryError>(OracleQueryError::NoFeed),
                Option::Some(d) => if !(d.last_updated_unix + max_age_secs >= now) {
                    Err::<bool, OracleQueryError>(OracleQueryError::Stale)
                } else {
                    Ok::<bool, OracleQueryError>(
                        deviation_ppm_spec(
                            pool_price as int,
                            if 0 < normalized_price_spec(d) <= u128::MAX as int {
                                normalized_price_spec(d)
                            } else {
                                0int
                            },
                        ) <= max_deviation_ppm,
                    )
                },
            },
    {
        let d = match self.get_price(base_token, quote_token) {
            Some(d) => d,
            None => {
                return Err(OracleQueryError::NoFeed);
            },
        };
        if !d.is_fresh(max_age_secs, now) {
            return Err(OracleQueryError::Stale);
        }
        let dev = d.calculate_pool_deviation(pool_price);
        Ok(dev <= max_deviation_ppm)
    }
}

fn no_oracle_text() -> String {
    String::from_str("no oracle price available for this token pair")
}

fn stale_oracle_text() -> String {
    String::from_str("oracle price is stale")
}

fn wide_confidence_text() -> String {
    String::from_str("oracle confidence interval too wide")
}

fn price_deviation_text() -> String {
    String::from_str("pool price deviates too far from the oracle price")
}

fn accepted_text() -> String {
    String::from_str("oracle validation passed")
}

} // verus!

//! Routing helpers around the aggregator and the bundle executor: quoted
//! route accounting (net output, per-hop execution probability, expected
//! value), the route-versus-direct comparison, pre-execution safety gates,
//! tip sizing, gas estimation, protocol-name parsing, and the wall clock.

use vstd::prelude::*;
use crate::codec::parse_u64;
use crate::numeric::{lemma_mul_div_le, PPM};
use crate::search::EnhancedArbitrageOpportunity;
use vstd::arithmetic::div_mod::lemma_div_pos_is_pos;
use vstd::arithmetic::mul::{
    lemma_mul_is_commutative, lemma_mul_nonnegative, lemma_mul_upper_bound,
};

verus! {

/// One hop of a quoted route.
#[derive(Clone, Debug)]
pub struct SwapInfo {
    pub amm_key: String,
    pub label: Option<String>,
    pub input_mint: String,
    pub output_mint: String,
    pub in_amount: String,
    pub out_amount: String,
    pub fee_amount: String,
    pub fee_mint: String,
}

/// One step of a route plan: a hop and the percentage routed through it.
#[derive(Clone, Debug)]
pub struct RoutePlanStep {
    pub swap_info: SwapInfo,
    pub percent: u8,
}

/// A quote from the aggregator, amounts as decimal strings.
#[derive(Clone, Debug)]
pub struct JupiterQuote {
    pub input_mint: String,
    pub in_amount: String,
    pub output_mint: String,
    pub out_amount: String,
    pub other_amount_threshold: String,
    pub swap_mode: String,
    pub slippage_bps: u16,
    pub route_plan: Vec<RoutePlanStep>,
    pub context_slot: Option<u64>,
}

/// A quoted route with its parsed amounts.
#[derive(Clone, Debug)]
pub struct JupiterRoute {
    pub expected_out_amount: u64,
    pub num_hops: usize,
    pub total_fees: u64,
}

/// The per-hop success rate of the probability model, in ppm: 95%.
pub const HOP_PROB_PPM: u64 = 950_000;

/// The route execution probability in ppm: 0.95 to the number of hops.
pub open spec fn hop_prob_spec(hops: nat) -> int
    decreases hops,
{
    if hops == 0 {
        PPM as int
    } else {
        hop_prob_spec((hops - 1) as nat) * (HOP_PROB_PPM as int) / (PPM as int)
    }
}

/// The probability never leaves [0, 1].
pub proof fn lemma_hop_prob_bounds(hops: nat)
    ensures
        0 <= hop_prob_spec(hops) <= PPM as int,
    decreases hops,
{
    if hops > 0 {
        lemma_hop_prob_bounds((hops - 1) as nat);
        let prev = hop_prob_spec((hops - 1) as nat);
        lemma_mul_nonnegative(prev, HOP_PROB_PPM as int);
        lemma_div_pos_is_pos(prev * (HOP_PROB_PPM as int), PPM as int);
        lemma_mul_is_commutative(prev, HOP_PROB_PPM as int);
        lemma_mul_div_le(HOP_PROB_PPM as int, prev, PPM as int);
    }
}

/// Output of a route net of its own fees, floored at zero.
pub open spec fn net_output_spec(route: JupiterRoute) -> int {
    if route.expected_out_amount >= route.total_fees {
        route.expected_out_amount - route.total_fees
    } else {
        0int
    }
}

impl JupiterRoute {
    /// Output net of the route's own fees, floored at zero.
    pub fn net_output(&self) -> (r: u64)
        ensures
            r == net_output_spec(*self),
    {
        if self.expected_out_amount >= self.total_fees {
            self.expected_out_amount - self.total_fees
        } else {
            0
        }
    }

    /// Execution probability of the route in ppm: each hop succeeds with 95%,
    /// independently.
    pub fn execution_probability(&self) -> (r: u64)
        ensures
            r == hop_prob_spec(self.num_hops as nat),
            r <= PPM,
    {
        let mut p: u64 = PPM;
        let mut i: usize = 0;
        proof {
            lemma_hop_prob_bounds(self.num_hops as nat);
        }
        while i < self.num_hops
            invariant
                i <= self.num_hops,
                p == hop_prob_spec(i as nat),
                p <= PPM,
            decreases self.num_hops - i,
        {
            proof {
                lemma_hop_prob_bounds(i as nat);
                let prev = hop_prob_spec(i as nat);
                lemma_mul_nonnegative(prev, HOP_PROB_PPM as int);
                lemma_div_pos_is_pos(prev * (HOP_PROB_PPM as int), PPM as int);
                lemma_mul_is_commutative(prev, HOP_PROB_PPM as int);
                lemma_mul_div_le(HOP_PROB_PPM as int, prev, PPM as int);
                lemma_mul_upper_bound(prev, PPM as int, HOP_PROB_PPM as int, PPM as int);
            }
            p = ((p as u128) * (HOP_PROB_PPM as u128) / (PPM as u128)) as u64;
            i = i + 1;
        }
        p
    }

    /// Expected value of taking the route for `trade_size`, in micro-units of
    /// profit: the net output over the input, weighted by the route's
    /// execution probability; zero when the route does not profit.
    pub fn expected_value_micro(&self, trade_size: u64) -> (r: u128)
        ensures
            net_output_spec(*self) > trade_size ==> r == (net_output_spec(*self) - trade_size)
                * hop_prob_spec(self.num_hops as nat),
            net_output_spec(*self) <= trade_size ==> r == 0,
    {
        let net = self.net_output();
        if net <= trade_size {
            return 0;
        }
        let gross: u64 = net - trade_size;
        let prob = self.execution_probability();
        proof {
            lemma_mul_upper_bound(gross as int, u64::MAX as int, prob as int, PPM as int);
            lemma_mul_nonnegative(gross as int, prob as int);
        }
        (gross as u128) * (prob as u128)
    }

    /// Whether the route's expected value beats a direct opportunity's.
    pub fn is_better_than_direct(&self, direct: &EnhancedArbitrageOpportunity, trade_size: u64)
        -> (r: bool)
        ensures
            ({
                let jup_ev = if net_output_spec(*self) > trade_size {
                    (net_output_spec(*self) - trade_size) * hop_prob_spec(self.num_hops as nat)
                } else {
                    0int
                };
                r == (jup_ev > direct.expected_value_micro)
            }),
    {
        self.expected_value_micro(trade_size) > direct.expected_value_micro
    }
}

/// Parses a quote into a route: the output amount must be a decimal number,
/// the fees of the hops are summed (an unreadable fee counts as zero,
/// saturating), and the hop count is the plan's length.
pub fn route_from_quote(quote: &JupiterQuote) -> (r: Option<JupiterRoute>)
    ensures
        r matches Some(route) ==> route.num_hops == quote.route_plan@.len(),
{
    let expected_out_amount = match parse_u64(quote.out_amount.as_str()) {
        Some(v) => v,
        None => {
            return None;
        },
    };
    let mut total_fees: u64 = 0;
    let n = quote.route_plan.len();
    for i in 0..n
        invariant
            n == quote.route_plan@.len(),
    {
        let fee = match parse_u64(quote.route_plan[i].swap_info.fee_amount.as_str()) {
            Some(v) => v,
            None => 0,
        };
        total_fees = if total_fees > u64::MAX - fee {
            u64::MAX
        } else {
            total_fees + fee
        };
    }
    Some(JupiterRoute { expected_out_amount, num_hops: n, total_fees })
}

// ----------------------------------------------------------------------------
// Execution results and gates
// ----------------------------------------------------------------------------

/// Result of executing one opportunity.
#[derive(Clone, Debug)]
pub struct ExecutionResult {
    pub success: bool,
    pub bundle_id: Option<String>,
    pub actual_profit: i64,
    pub expected_profit: i64,
    pub execution_time_ms: u64,
    pub error: Option<String>,
}

impl ExecutionResult {
    /// An execution paid off when it succeeded with a positive profit.
    pub fn was_profitable(&self) -> (r: bool)
        ensures
            r == (self.success && self.actual_profit > 0),
    {
        self.success && self.actual_profit > 0
    }

    /// Actual versus expected profit, in ppm of the expected figure
    /// (saturated); zero when nothing was expected.
    pub fn profit_vs_expected_ppm(&self) -> (r: i64)
        ensures
            self.expected_profit == 0 ==> r == 0,
    {
        if self.expected_profit == 0 {
            return 0;
        }
        let diff: i128 = (self.actual_profit as i128) - (self.expected_profit as i128);
        let scaled: i128 = diff * 1_000_000;
        let e: i128 = self.expected_profit as i128;
        let v: i128 = scaled / e;
        if v > i64::MAX as i128 {
            i64::MAX
        } else if v < i64::MIN as i128 {
            i64::MIN
        } else {
            v as i64
        }
    }
}

/// Why an opportunity was refused before execution.
#[derive(Clone, Copy, Debug, PartialEq, Eq, Structural)]
pub enum ExecutionGateError {
    /// The net profit is not positive.
    NonPositiveProfit,
    /// The combined execution probability is under 30%.
    LowProbability,
    /// The expected-value score is under ten units.
    LowScore,
}

/// The pre-execution safety gates: a positive net profit, at least a 30%
/// combined probability, and at least ten score units; the error names the
/// first gate that failed.
pub fn validate_for_execution(opportunity: &EnhancedArbitrageOpportunity) -> (r: Result<
    (),
    ExecutionGateError,
>)
    ensures
        r is Ok <==> opportunity.net_profit > 0 && opportunity.combined_execution_prob_ppm
            >= 300_000 && opportunity.ev_score_ppm >= 10_000_000,
        r matches Err(e) ==> (e == ExecutionGateError::NonPositiveProfit
            <==> opportunity.net_profit <= 0),
{
    if opportunity.net_profit <= 0 {
        Err(ExecutionGateError::NonPositiveProfit)
    } else if opportunity.combined_execution_prob_ppm < 300_000 {
        Err(ExecutionGateError::LowProbability)
    } else if opportunity.ev_score_ppm < 10_000_000 {
        Err(ExecutionGateError::LowScore)
    } else {
        Ok(())
    }
}

/// The tip for a bundle: 7.5% of the expected profit, clamped between the
/// two bounds.
pub fn calculate_tip(expected_profit: u64, min_tip: u64, max_tip: u64) -> (r: u64)
    requires
        min_tip <= max_tip,
    ensures
        ({
            let raw = expected_profit * 75_000 / 1_000_000;
            r as int == if raw < min_tip {
                min_tip as int
            } else if raw > max_tip {
                max_tip as int
            } else {
                raw
            }
        }),
{
    proof {
        lemma_mul_upper_bound(expected_profit as int, u64::MAX as int, 75_000int, 75_000int);
        lemma_mul_nonnegative(expected_profit as int, 75_000int);
        lemma_div_pos_is_pos(expected_profit as int * 75_000, 1_000_000int);
        lemma_mul_is_commutative(expected_profit as int, 75_000int);
        lemma_mul_div_le(75_000int, expected_profit as int, 1_000_000int);
    }
    let raw: u64 = ((expected_profit as u128) * 75_000 / 1_000_000) as u64;
    if raw < min_tip {
        min_tip
    } else if raw > max_tip {
        max_tip
    } else {
        raw
    }
}

/// Estimated transaction cost in the smallest unit: the base fee, one
/// signature fee, and a per-instruction compute charge, saturated.
pub fn estimate_gas_cost(num_instructions: usize) -> (r: u64)
    ensures
        r as int == if 10_000 + num_instructions * 1_000 > u64::MAX {
            u64::MAX as int
        } else {
            10_000 + num_instructions * 1_000
        },
        r >= 10_000,
{
    let compute: u128 = (num_instructions as u128) * 1_000;
    let total: u128 = 10_000 + compute;
    if total > u64::MAX as u128 {
        u64::MAX
    } else {
        total as u64
    }
}

// ----------------------------------------------------------------------------
// Protocol names
// ----------------------------------------------------------------------------

/// The DEX protocols the pool stream can subscribe to.
#[derive(Clone, Copy, Debug, PartialEq, Eq, Structural)]
pub enum DexProtocol {
    RaydiumClmm,
    OrcaWhirlpool,
    MeteoraDlmm,
    CremaFinance,
    DefiTuna,
}

/// Whether two byte strings are equal.
fn bytes_eq(a: &[u8], b: &[u8]) -> (r: bool)
    ensures
        r == (a@ =~= b@),
{
    if a.len() != b.len() {
        return false;
    }
    let n = a.len();
    for i in 0..n
        invariant
            n == a@.len(),
            n == b@.len(),
            forall|j: int| 0 <= j < i ==> a@[j] == b@[j],
    {
        if a[i] != b[i] {
            return false;
        }
    }
    proof {
        assert(a@ =~= b@);
    }
    true
}

/// The protocol named by a lowercase selector, if any: `raydium`, `orca`,
/// `whirlpool`, `meteora`, `crema` or `tuna` (and their hyphenated long
/// forms).
pub fn protocol_from_name(name: &str) -> (r: Option<DexProtocol>) {
    let b = name.as_bytes();
    if bytes_eq(b, "raydium".as_bytes()) || bytes_eq(b, "raydium-clmm".as_bytes()) {
        Some(DexProtocol::RaydiumClmm)
    } else if bytes_eq(b, "orca".as_bytes()) || bytes_eq(b, "whirlpool".as_bytes()) {
        Some(DexProtocol::OrcaWhirlpool)
    } else if bytes_eq(b, "meteora".as_bytes()) || bytes_eq(b, "meteora-dlmm".as_bytes()) {
        Some(DexProtocol::MeteoraDlmm)
    } else if bytes_eq(b, "crema".as_bytes()) {
        Some(DexProtocol::CremaFinance)
    } else if bytes_eq(b, "tuna".as_bytes()) || bytes_eq(b, "defi-tuna".as_bytes()) {
        Some(DexProtocol::DefiTuna)
    } else {
        None
    }
}

/// Parses a list of protocol selectors, dropping the unrecognized ones.
pub fn parse_protocols(names: &Vec<String>) -> (r: Vec<DexProtocol>)
    ensures
        r@.len() <= names@.len(),
{
    let mut out: Vec<DexProtocol> = Vec::new();
    let n = names.len();
    for i in 0..n
        invariant
            n == names@.len(),
            out@.len() <= i,
    {
        match protocol_from_name(names[i].as_str()) {
            Some(p) => {
                out.push(p);
            },
            None => {},
        }
    }
    out
}

/// The wall clock in seconds since the Unix epoch.
///
/// Relies on `chrono::Utc::now` (and `DateTime::timestamp`): the one source
/// of the current time; nothing is assumed about the value it returns.
#[verifier::external_body]
pub fn current_timestamp() -> u64 {
    chrono::Utc::now().timestamp() as u64
}

} // verus!

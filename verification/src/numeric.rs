//! Fixed-point scales and the per-variant numeric models: constant-product
//! output with fee, the concentrated-liquidity output approximation, the
//! binned-liquidity impact widening, square-root-price conversion, and the
//! exponential-decay execution-probability model.
//!
//! Conventions: amounts are integers in the smallest unit; a price is a `u128`
//! scaled by [`PRICE_SCALE`] (quote units per base unit); probabilities and
//! percentages are parts per million ([`PPM`]); price impact is in basis
//! points, capped at [`BPS_FULL`].

use vstd::prelude::*;
use vstd::arithmetic::div_mod::{
    lemma_div_is_ordered, lemma_div_is_ordered_by_denominator, lemma_div_multiples_vanish,
    lemma_div_pos_is_pos, lemma_fundamental_div_mod, lemma_mod_bound,
};
use vstd::arithmetic::mul::{
    lemma_mul_inequality, lemma_mul_is_commutative, lemma_mul_left_inequality,
    lemma_mul_nonnegative, lemma_mul_upper_bound,
};

verus! {

/// One whole unit of price: prices are scaled by 10^9.
pub const PRICE_SCALE: u128 = 1_000_000_000;

/// One whole unit of probability or percentage: parts per million.
pub const PPM: u64 = 1_000_000;

/// 100% in basis points; also the impact reported for an unusable pool.
pub const BPS_FULL: u16 = 10_000;

/// Depth cap for the concentrated-liquidity model, so that the quadratic
/// output formula stays within 128 bits.
pub const CL_DEPTH_MAX: u128 = 0x4000_0000_0000_0000;

/// Probability argument (5 x size ratio, in ppm) beyond which the decay model
/// reports zero.
pub const DECAY_CUTOFF_PPM: u128 = 14_000_000;

/// `a <= d` implies `a * b / d <= b`.
pub proof fn lemma_mul_div_le(a: int, b: int, d: int)
    requires
        0 <= a <= d,
        0 <= b,
        0 < d,
    ensures
        a * b / d <= b,
{
    lemma_mul_inequality(a, d, b);
    lemma_div_is_ordered(a * b, d * b, d);
    lemma_mul_is_commutative(d, b);
    lemma_div_multiples_vanish(b, d);
}

/// Division by a positive divisor is monotone in the numerator.
pub proof fn lemma_div_mono(a: int, b: int, d: int)
    requires
        a <= b,
        0 < d,
    ensures
        a / d <= b / d,
{
    lemma_div_is_ordered(a, b, d);
}

// ----------------------------------------------------------------------------
// Constant-product model
// ----------------------------------------------------------------------------

/// Input after the swap fee: `x * (10000 - fee_bps) / 10000`.
pub open spec fn fee_reduced_spec(x: int, fee_bps: int) -> int {
    x * (10_000 - fee_bps) / 10_000
}

/// Constant-product output: `xf * r_out / (r_in + xf)` on the fee-reduced input.
pub open spec fn cpmm_out_spec(x: int, r_in: int, r_out: int, fee_bps: int) -> int {
    let xf = fee_reduced_spec(x, fee_bps);
    xf * r_out / (r_in + xf)
}

/// Price impact of a constant-product trade, in basis points: the shortfall of
/// the execution price against the spot price, `(x*r_out - out*r_in)` as a
/// fraction of `x*r_out`, quantized to 1/10000 of the latter and capped.
pub open spec fn cpmm_impact_spec(x: int, r_in: int, r_out: int, fee_bps: int) -> int {
    let out = cpmm_out_spec(x, r_in, r_out, fee_bps);
    let xr = x * r_out;
    if xr < 10_000 {
        10_000int
    } else {
        let i = (xr - out * r_in) / (xr / 10_000);
        if i > 10_000 {
            10_000int
        } else {
            i
        }
    }
}

/// The fee-reduced input lies between zero and the raw input.
pub proof fn lemma_fee_reduced_bounds(x: int, fee_bps: int)
    requires
        0 <= x,
        0 <= fee_bps < 10_000,
    ensures
        0 <= fee_reduced_spec(x, fee_bps) <= x,
{
    lemma_mul_nonnegative(x, 10_000 - fee_bps);
    lemma_div_pos_is_pos(x * (10_000 - fee_bps), 10_000);
    lemma_mul_is_commutative(x, 10_000 - fee_bps);
    lemma_mul_div_le(10_000 - fee_bps, x, 10_000);
}

/// The constant-product execution price never exceeds the spot price, and the
/// output never exceeds the outbound reserve.
pub proof fn lemma_cpmm_out_bounds(x: int, r_in: int, r_out: int, fee_bps: int)
    requires
        0 <= x,
        0 < r_in,
        0 < r_out,
        0 <= fee_bps < 10_000,
    ensures
        0 <= cpmm_out_spec(x, r_in, r_out, fee_bps) <= r_out,
        cpmm_out_spec(x, r_in, r_out, fee_bps) * r_in <= x * r_out,
{
    let xf = fee_reduced_spec(x, fee_bps);
    lemma_fee_reduced_bounds(x, fee_bps);
    let den = r_in + xf;
    let out = xf * r_out / den;
    lemma_mul_nonnegative(xf, r_out);
    lemma_div_pos_is_pos(xf * r_out, den);
    lemma_mul_div_le(xf, r_out, den);
    // out * den <= xf * r_out, from the division identity.
    lemma_fundamental_div_mod(xf * r_out, den);
    lemma_mod_bound(xf * r_out, den);
    assert(den * out <= xf * r_out);
    lemma_mul_is_commutative(den, out);
    // out * r_in <= out * den.
    if out > 0 {
        lemma_mul_left_inequality(out, r_in, den);
        assert(out * r_in <= out * den);
    } else {
        lemma_mul_nonnegative(x, r_out);
        assert(out * r_in == 0) by {
            vstd::arithmetic::mul::lemma_mul_by_zero_is_zero(r_in);
        }
    }
    assert(out * den <= xf * r_out);
    // xf * r_out <= x * r_out.
    lemma_mul_inequality(xf, x, r_out);
    assert(xf * r_out <= x * r_out);
    assert(out * r_in <= x * r_out);
    assert(cpmm_out_spec(x, r_in, r_out, fee_bps) == out);
}

/// Constant-product quote: output amount and price impact for a given input.
/// An empty pool side quotes nothing at full impact.
pub fn cpmm_quote(x: u64, r_in: u64, r_out: u64, fee_bps: u16) -> (r: (u64, u16))
    requires
        fee_bps < 10_000,
    ensures
        r_in > 0 && r_out > 0 ==> r.0 == cpmm_out_spec(
            x as int,
            r_in as int,
            r_out as int,
            fee_bps as int,
        ) && r.1 == cpmm_impact_spec(x as int, r_in as int, r_out as int, fee_bps as int),
        r_in == 0 || r_out == 0 ==> r.0 == 0 && r.1 == 10_000,
        r.0 <= r_out,
        r.1 <= 10_000,
{
    if r_in == 0 || r_out == 0 {
        return (0u64, 10_000u16);
    }
    proof {
        lemma_mul_upper_bound(x as int, u64::MAX as int, (10_000 - fee_bps) as int, 10_000int);
        lemma_cpmm_out_bounds(x as int, r_in as int, r_out as int, fee_bps as int);
        lemma_fee_reduced_bounds(x as int, fee_bps as int);
    }
    let xf: u128 = (x as u128) * ((10_000 - fee_bps) as u128) / 10_000;
    proof {
        lemma_mul_upper_bound(xf as int, u64::MAX as int, r_out as int, u64::MAX as int);
    }
    let num: u128 = xf * (r_out as u128);
    let den: u128 = (r_in as u128) + xf;
    let out_w: u128 = num / den;
    let out: u64 = out_w as u64;
    proof {
        lemma_mul_upper_bound(x as int, u64::MAX as int, r_out as int, u64::MAX as int);
        lemma_mul_upper_bound(out_w as int, u64::MAX as int, r_in as int, u64::MAX as int);
    }
    let xr: u128 = (x as u128) * (r_out as u128);
    let impact: u16 = if xr < 10_000 {
        10_000u16
    } else {
        let shortfall: u128 = xr - out_w * (r_in as u128);
        let i: u128 = shortfall / (xr / 10_000);
        if i > 10_000 {
            10_000u16
        } else {
            i as u16
        }
    };
    (out, impact)
}

// ----------------------------------------------------------------------------
// Concentrated-liquidity model
// ----------------------------------------------------------------------------

/// Usable depth of a concentrated-liquidity pool: `liquidity / 10^6`, capped
/// so the quadratic output formula stays in range.
pub open spec fn cl_depth_spec(liquidity: int) -> int {
    let d = liquidity / 1_000_000;
    if d > CL_DEPTH_MAX as int {
        CL_DEPTH_MAX as int
    } else {
        d
    }
}

/// Price impact of a concentrated-liquidity trade, in basis points:
/// `x / depth` quantized and capped at 10000.
pub open spec fn cl_impact_spec(x: int, liquidity: int) -> int {
    let d = cl_depth_spec(liquidity);
    if d <= 0 {
        10_000int
    } else {
        let i = x * 10_000 / d;
        if i > 10_000 {
            10_000int
        } else {
            i
        }
    }
}

/// Approximate concentrated-liquidity output: `x * (1 - impact/2)` with the
/// impact fraction `x / depth` clamped to one, folded into a single division
/// so that the output is monotone in the input:
/// `x * (2d - x) / 2d` below the depth, `x / 2` at or above it.
///
/// This deliberately ignores tick boundaries; it is the single substitution
/// point for a full tick-walking quoter.
pub open spec fn cl_out_spec(x: int, liquidity: int) -> int {
    let d = cl_depth_spec(liquidity);
    if d <= 0 {
        0int
    } else if x < d {
        x * (2 * d - x) / (2 * d)
    } else {
        x / 2
    }
}

/// The approximate concentrated-liquidity output never exceeds the input.
pub proof fn lemma_cl_out_le_input(x: int, liquidity: int)
    requires
        0 <= x,
    ensures
        0 <= cl_out_spec(x, liquidity) <= x,
{
    let d = cl_depth_spec(liquidity);
    if d <= 0 {
    } else if x < d {
        lemma_mul_is_commutative(x, 2 * d - x);
        lemma_mul_div_le(2 * d - x, x, 2 * d);
        lemma_mul_nonnegative(x, 2 * d - x);
        lemma_div_pos_is_pos(x * (2 * d - x), 2 * d);
    } else {
        lemma_div_pos_is_pos(x, 2);
        lemma_div_mono(x, x, 2);
        assert(x / 2 <= x) by {
            lemma_div_is_ordered_by_denominator(x, 1, 2);
        }
    }
}

/// Concentrated-liquidity quote: approximate output amount and price impact.
pub fn cl_quote(x: u64, liquidity: u128) -> (r: (u64, u16))
    ensures
        r.0 == cl_out_spec(x as int, liquidity as int),
        r.1 == cl_impact_spec(x as int, liquidity as int),
        r.0 <= x,
        r.1 <= 10_000,
{
    let d128: u128 = liquidity / 1_000_000;
    let d: u128 = if d128 > CL_DEPTH_MAX {
        CL_DEPTH_MAX
    } else {
        d128
    };
    if d == 0 {
        return (0u64, 10_000u16);
    }
    proof {
        lemma_cl_out_le_input(x as int, liquidity as int);
    }
    let impact_raw: u128 = (x as u128) * 10_000 / d;
    let impact: u16 = if impact_raw > 10_000 {
        10_000u16
    } else {
        impact_raw as u16
    };
    let out: u64 = if (x as u128) < d {
        proof {
            lemma_mul_upper_bound(
                x as int,
                CL_DEPTH_MAX as int,
                (2 * d - x as u128) as int,
                2 * CL_DEPTH_MAX as int,
            );
        }
        let num: u128 = (x as u128) * (2 * d - (x as u128));
        (num / (2 * d)) as u64
    } else {
        x / 2
    };
    (out, impact)
}

/// Binned-liquidity widening of a concentrated-liquidity impact:
/// `impact * (100 + bin_step_bps) / 100`, capped at 10000, modelling per-bin
/// traversal cost.
pub open spec fn dlmm_widen_spec(impact_bps: int, bin_step_bps: int) -> int {
    let w = impact_bps * (100 + bin_step_bps) / 100;
    if w > 10_000 {
        10_000int
    } else {
        w
    }
}

/// Widens a concentrated-liquidity impact for a binned pool.
pub fn dlmm_widen(impact_bps: u16, bin_step_bps: u16) -> (r: u16)
    requires
        impact_bps <= 10_000,
    ensures
        r == dlmm_widen_spec(impact_bps as int, bin_step_bps as int),
        r <= 10_000,
{
    proof {
        lemma_mul_upper_bound(impact_bps as int, 10_000int, (100 + bin_step_bps) as int, 65_635int);
        lemma_mul_nonnegative(impact_bps as int, (100 + bin_step_bps) as int);
        lemma_div_pos_is_pos(impact_bps as int * (100 + bin_step_bps) as int, 100int);
    }
    let w: u64 = (impact_bps as u64) * (100 + bin_step_bps as u64) / 100;
    if w > 10_000 {
        10_000u16
    } else {
        w as u16
    }
}

/// Saturating 128-bit product.
pub open spec fn sat_mul_u128_spec(a: int, b: int) -> int {
    if a * b > u128::MAX {
        u128::MAX as int
    } else {
        a * b
    }
}

/// The saturating product is monotone in its left operand.
pub proof fn lemma_sat_mul_mono(a1: int, a2: int, b: int)
    requires
        0 <= a1 <= a2,
        0 <= b,
    ensures
        sat_mul_u128_spec(a1, b) <= sat_mul_u128_spec(a2, b),
{
    lemma_mul_inequality(a1, a2, b);
    lemma_mul_nonnegative(a1, b);
}

// ----------------------------------------------------------------------------
// Square-root-price conversion
// ----------------------------------------------------------------------------

/// Price of a Q64.64 square-root price, scaled by `PRICE_SCALE`:
/// `(sq / 2^64)^2 * 10^9`, evaluated as
/// `((sq/2^32)^2 / 2^32) * 10^9 / 2^32` so every step fits in 128 bits.
pub open spec fn sqrt_price_to_price_spec(sq: int) -> int {
    let t = sq / 0x1_0000_0000;
    t * t / 0x1_0000_0000 * 1_000_000_000 / 0x1_0000_0000
}

/// Converts a Q64.64 square-root price to a scaled price. Returns `None` when
/// the square would overflow (square-root price at or above 2^96) or the
/// price would round to zero; a converted price is always positive.
pub fn sqrt_price_to_price(sq: u128) -> (r: Option<u128>)
    ensures
        r matches Some(p) ==> p == sqrt_price_to_price_spec(sq as int) && p > 0,
        r is None <==> sq >= 0x1_0000_0000_0000_0000_0000_0000u128 || sqrt_price_to_price_spec(
            sq as int,
        ) == 0,
{
    if sq >= 0x1_0000_0000_0000_0000_0000_0000u128 {
        return None;
    }
    let t: u128 = sq / 0x1_0000_0000;
    proof {
        lemma_div_mono(sq as int, 0xffff_ffff_ffff_ffff_ffff_ffffu128 as int, 0x1_0000_0000int);
        assert(t <= 0xffff_ffff_ffff_ffffu128);
        lemma_mul_upper_bound(
            t as int,
            0xffff_ffff_ffff_ffffu128 as int,
            t as int,
            0xffff_ffff_ffff_ffffu128 as int,
        );
    }
    let sq2: u128 = t * t / 0x1_0000_0000;
    proof {
        lemma_div_mono(
            (t * t) as int,
            (0xffff_ffff_ffff_ffffu128 * 0xffff_ffff_ffff_ffffu128) as int,
            0x1_0000_0000int,
        );
    }
    let p: u128 = sq2 * 1_000_000_000 / 0x1_0000_0000;
    if p == 0 {
        None
    } else {
        Some(p)
    }
}

// ----------------------------------------------------------------------------
// Execution-probability model
// ----------------------------------------------------------------------------

/// Decay argument in ppm: `5 * amount / reserve`, scaled by 10^6.
pub open spec fn decay_x_ppm(amount: int, reserve: int) -> int {
    5 * amount * 1_000_000 / reserve
}

/// Denominator of the rational decay approximation:
/// `1 + x + x^2/2 + x^3/6 + x^4/24` in ppm units.
pub open spec fn decay_denom(x: int) -> int {
    1_000_000 + x + x * x / 2_000_000 + x * x * x / 6_000_000_000_000 + x * x * x * x
        / 24_000_000_000_000_000_000
}

/// Execution probability in ppm for a trade of `amount` against a reserve:
/// a monotone rational approximation of `exp(-5 * amount / reserve)`,
/// truncated to zero past [`DECAY_CUTOFF_PPM`]. Zero when the reserve is
/// empty. Canonical values: 1% of the reserve is about 0.95, 5% about 0.78,
/// 10% about 0.61, 20% about 0.37.
pub open spec fn decay_ppm_spec(amount: int, reserve: int) -> int {
    if reserve <= 0 {
        0int
    } else {
        let x = decay_x_ppm(amount, reserve);
        if x >= DECAY_CUTOFF_PPM as int {
            0int
        } else {
            1_000_000_000_000int / decay_denom(x)
        }
    }
}

/// Below the cutoff the decay denominator is at most 10^12, so the
/// probability is positive there; it never exceeds one.
proof fn lemma_decay_denom_range(x: int)
    requires
        0 <= x < DECAY_CUTOFF_PPM as int,
    ensures
        1_000_000 <= decay_denom(x) <= 1_000_000_000_000,
{
    lemma_mul_nonnegative(x, x);
    lemma_mul_nonnegative(x * x, x);
    lemma_mul_nonnegative(x * x * x, x);
    lemma_div_pos_is_pos(x * x, 2_000_000);
    lemma_div_pos_is_pos(x * x * x, 6_000_000_000_000);
    lemma_div_pos_is_pos(x * x * x * x, 24_000_000_000_000_000_000);
    lemma_mul_upper_bound(x, 14_000_000, x, 14_000_000);
    lemma_mul_upper_bound(x * x, 196_000_000_000_000, x, 14_000_000);
    lemma_mul_upper_bound(x * x * x, 2_744_000_000_000_000_000_000, x, 14_000_000);
    lemma_div_mono(x * x, 196_000_000_000_000, 2_000_000);
    lemma_div_mono(x * x * x, 2_744_000_000_000_000_000_000, 6_000_000_000_000);
    lemma_div_mono(
        x * x * x * x,
        38_416_000_000_000_000_000_000_000_000,
        24_000_000_000_000_000_000,
    );
}

/// The probability model stays within [0, 1], and is positive below the
/// cutoff.
pub proof fn lemma_decay_ppm_bounds(amount: int, reserve: int)
    requires
        0 <= amount,
    ensures
        0 <= decay_ppm_spec(amount, reserve) <= PPM as int,
        reserve > 0 && decay_x_ppm(amount, reserve) < DECAY_CUTOFF_PPM as int ==> decay_ppm_spec(
            amount,
            reserve,
        ) > 0,
{
    if reserve <= 0 {
    } else {
        let x = decay_x_ppm(amount, reserve);
        lemma_mul_nonnegative(5, amount);
        lemma_mul_nonnegative(5 * amount, 1_000_000);
        lemma_div_pos_is_pos(5 * amount * 1_000_000, reserve);
        if x >= DECAY_CUTOFF_PPM as int {
        } else {
            lemma_decay_denom_range(x);
            let dn = decay_denom(x);
            lemma_div_pos_is_pos(1_000_000_000_000, dn);
            lemma_div_is_ordered_by_denominator(1_000_000_000_000, 1_000_000, dn);
            lemma_div_is_ordered_by_denominator(1_000_000_000_000, dn, 1_000_000_000_000);
        }
    }
}

/// Execution probability of a trade of `amount` against `reserve`, in ppm.
pub fn decay_ppm(amount: u64, reserve: u64) -> (r: u64)
    ensures
        r == decay_ppm_spec(amount as int, reserve as int),
        r <= PPM,
        reserve > 0 && decay_x_ppm(amount as int, reserve as int) < DECAY_CUTOFF_PPM as int ==> r
            > 0,
{
    proof {
        lemma_decay_ppm_bounds(amount as int, reserve as int);
    }
    if reserve == 0 {
        return 0u64;
    }
    let x: u128 = 5 * (amount as u128) * 1_000_000 / (reserve as u128);
    if x >= DECAY_CUTOFF_PPM {
        return 0u64;
    }
    proof {
        lemma_mul_upper_bound(x as int, 14_000_000, x as int, 14_000_000);
        lemma_mul_upper_bound(x as int * x as int, 196_000_000_000_000, x as int, 14_000_000);
        lemma_mul_upper_bound(
            x as int * x as int * x as int,
            2_744_000_000_000_000_000_000,
            x as int,
            14_000_000,
        );
    }
    let x2: u128 = x * x;
    let x3: u128 = x2 * x;
    let x4: u128 = x3 * x;
    let d: u128 = 1_000_000 + x + x2 / 2_000_000 + x3 / 6_000_000_000_000 + x4
        / 24_000_000_000_000_000_000;
    let p: u128 = 1_000_000_000_000 / d;
    p as u64
}

// ----------------------------------------------------------------------------
// Law: the output models are monotone in the trade size
// ----------------------------------------------------------------------------

/// Floor division is monotone under cross-multiplication:
/// `a1/b1 <= a2/b2` whenever `a1*b2 <= a2*b1`.
pub proof fn lemma_div_cross_mono(a1: int, b1: int, a2: int, b2: int)
    requires
        0 <= a1,
        0 < b1,
        0 < b2,
        a1 * b2 <= a2 * b1,
    ensures
        a1 / b1 <= a2 / b2,
{
    let q = a1 / b1;
    lemma_fundamental_div_mod(a1, b1);
    lemma_mod_bound(a1, b1);
    assert(b1 * q <= a1);
    lemma_mul_inequality(b1 * q, a1, b2);
    assert((b1 * q) * b2 == (q * b2) * b1) by (nonlinear_arith);
    assert((q * b2) * b1 <= a2 * b1);
    vstd::arithmetic::mul::lemma_mul_inequality_converse(q * b2, a2, b1);
    lemma_div_is_ordered(q * b2, a2, b2);
    lemma_mul_is_commutative(q, b2);
    lemma_div_multiples_vanish(q, b2);
}

/// The constant-product output is monotone in the input amount.
pub proof fn lemma_cpmm_out_mono(x1: int, x2: int, r_in: int, r_out: int, fee_bps: int)
    requires
        0 <= x1 <= x2,
        0 < r_in,
        0 <= r_out,
        0 <= fee_bps < 10_000,
    ensures
        cpmm_out_spec(x1, r_in, r_out, fee_bps) <= cpmm_out_spec(x2, r_in, r_out, fee_bps),
{
    lemma_fee_reduced_bounds(x1, fee_bps);
    lemma_fee_reduced_bounds(x2, fee_bps);
    let xf1 = fee_reduced_spec(x1, fee_bps);
    let xf2 = fee_reduced_spec(x2, fee_bps);
    lemma_mul_inequality(x1, x2, 10_000 - fee_bps);
    lemma_div_mono(x1 * (10_000 - fee_bps), x2 * (10_000 - fee_bps), 10_000);
    assert(xf1 <= xf2);
    lemma_mul_nonnegative(xf1, r_out);
    assert((xf1 * r_out) * (r_in + xf2) <= (xf2 * r_out) * (r_in + xf1)) by (nonlinear_arith)
        requires
            0 <= xf1 <= xf2,
            0 <= r_out,
            0 < r_in,
    ;
    lemma_div_cross_mono(xf1 * r_out, r_in + xf1, xf2 * r_out, r_in + xf2);
}

/// The concentrated-liquidity output approximation is monotone in the input
/// amount.
pub proof fn lemma_cl_out_mono(x1: int, x2: int, liquidity: int)
    requires
        0 <= x1 <= x2,
    ensures
        cl_out_spec(x1, liquidity) <= cl_out_spec(x2, liquidity),
{
    let d = cl_depth_spec(liquidity);
    if d <= 0 {
    } else if x2 < d {
        assert(x1 * (2 * d - x1) <= x2 * (2 * d - x2)) by (nonlinear_arith)
            requires
                0 <= x1 <= x2 < d,
        ;
        lemma_mul_nonnegative(x1, 2 * d - x1);
        lemma_div_mono(x1 * (2 * d - x1), x2 * (2 * d - x2), 2 * d);
    } else if x1 < d {
        assert(x1 * (2 * d - x1) <= d * d) by (nonlinear_arith)
            requires
                0 <= x1 < d,
        ;
        lemma_mul_nonnegative(x1, 2 * d - x1);
        lemma_div_mono(x1 * (2 * d - x1), d * d, 2 * d);
        assert((d * d) / (2 * d) == d / 2) by {
            vstd::arithmetic::div_mod::lemma_div_denominator(d * d, d, 2);
            lemma_div_multiples_vanish(d, d);
            lemma_mul_is_commutative(d, 2);
        }
        lemma_div_mono(d, x2, 2);
    } else {
        lemma_div_mono(x1, x2, 2);
    }
}

// ----------------------------------------------------------------------------
// Law: the probability model is monotone in the trade size
// ----------------------------------------------------------------------------

/// The decay denominator is monotone in its argument.
proof fn lemma_decay_denom_mono(x1: int, x2: int)
    requires
        0 <= x1 <= x2,
    ensures
        decay_denom(x1) <= decay_denom(x2),
{
    lemma_mul_upper_bound(x1, x2, x1, x2);
    assert(x1 * x1 <= x2 * x2);
    lemma_mul_nonnegative(x1, x1);
    lemma_mul_upper_bound(x1 * x1, x2 * x2, x1, x2);
    assert(x1 * x1 * x1 <= x2 * x2 * x2);
    lemma_mul_nonnegative(x1 * x1, x1);
    lemma_mul_upper_bound(x1 * x1 * x1, x2 * x2 * x2, x1, x2);
    assert(x1 * x1 * x1 * x1 <= x2 * x2 * x2 * x2);
    lemma_div_mono(x1 * x1, x2 * x2, 2_000_000);
    lemma_div_mono(x1 * x1 * x1, x2 * x2 * x2, 6_000_000_000_000);
    lemma_div_mono(x1 * x1 * x1 * x1, x2 * x2 * x2 * x2, 24_000_000_000_000_000_000);
}

/// Monotone size, per leg: a larger trade against the same reserve never has
/// a larger execution probability.
pub proof fn lemma_decay_ppm_antitone(a1: int, a2: int, reserve: int)
    requires
        0 <= a1 <= a2,
    ensures
        decay_ppm_spec(a2, reserve) <= decay_ppm_spec(a1, reserve),
{
    if reserve <= 0 {
    } else {
        lemma_mul_inequality(a1, a2, 5);
        lemma_mul_is_commutative(a1, 5);
        lemma_mul_is_commutative(a2, 5);
        lemma_mul_inequality(5 * a1, 5 * a2, 1_000_000);
        lemma_div_mono(5 * a1 * 1_000_000, 5 * a2 * 1_000_000, reserve);
        let x1 = decay_x_ppm(a1, reserve);
        let x2 = decay_x_ppm(a2, reserve);
        lemma_mul_nonnegative(5, a1);
        lemma_mul_nonnegative(5 * a1, 1_000_000);
        lemma_div_pos_is_pos(5 * a1 * 1_000_000, reserve);
        lemma_decay_ppm_bounds(a1, reserve);
        if x2 >= DECAY_CUTOFF_PPM as int {
        } else {
            lemma_decay_denom_mono(x1, x2);
            lemma_decay_denom_range(x1);
            lemma_div_is_ordered_by_denominator(
                1_000_000_000_000,
                decay_denom(x1),
                decay_denom(x2),
            );
        }
    }
}

} // verus!

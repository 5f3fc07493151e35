//! The pool model: protocol variant, pool state, tradability, marginal
//! price, quoting (output and price impact) and execution probability.
//! Each variant dispatches to the numeric model in [`crate::numeric`].

use vstd::prelude::*;
use crate::keys::{Key, TokenPair};
use crate::numeric::{
    cl_impact_spec, cl_out_spec, cl_quote, cpmm_impact_spec, cpmm_out_spec, cpmm_quote, decay_ppm,
    decay_ppm_spec, dlmm_widen, dlmm_widen_spec, lemma_sat_mul_mono, sat_mul_u128_spec,
    sqrt_price_to_price, sqrt_price_to_price_spec, PPM, PRICE_SCALE,
};

verus! {

/// The supported DEX protocols. The first three and the two others share the
/// constant-product, concentrated-liquidity and binned-liquidity numeric
/// models respectively.
#[derive(Clone, Copy, Debug, PartialEq, Eq, Hash, Structural)]
pub enum DexType {
    RaydiumAmmV4,
    RaydiumClmm,
    RaydiumCpmm,
    OrcaWhirlpool,
    MeteoraDlmm,
}

impl DexType {
    /// Constant-product variants quote from the two reserves.
    pub open spec fn is_cpmm(self) -> bool {
        self is RaydiumAmmV4 || self is RaydiumCpmm
    }

    /// Concentrated-liquidity variants quote from liquidity and a Q64.64
    /// square-root price.
    pub open spec fn is_cl(self) -> bool {
        self is RaydiumClmm || self is OrcaWhirlpool
    }

    /// Binned-liquidity variants quote like concentrated liquidity with a
    /// per-bin impact widening.
    pub open spec fn is_dlmm(self) -> bool {
        self is MeteoraDlmm
    }

    pub open spec fn typical_fee_bps_spec(self) -> u16 {
        match self {
            DexType::RaydiumAmmV4 => 25u16,
            DexType::RaydiumClmm => 25u16,
            DexType::RaydiumCpmm => 25u16,
            DexType::OrcaWhirlpool => 30u16,
            DexType::MeteoraDlmm => 20u16,
        }
    }

    /// The customary total fee of the protocol, in basis points.
    pub fn typical_fee_bps(&self) -> (r: u16)
        ensures
            r == self.typical_fee_bps_spec(),
            r < 10_000,
    {
        match self {
            DexType::RaydiumAmmV4 => 25,
            DexType::RaydiumClmm => 25,
            DexType::RaydiumCpmm => 25,
            DexType::OrcaWhirlpool => 30,
            DexType::MeteoraDlmm => 20,
        }
    }
}

/// Current state of one liquidity pool, as assembled from the event stream.
/// `token_a`/`token_b` keep the protocol's own order, not the normalized one;
/// reserves are meaningful for constant-product pools, `liquidity`,
/// `sqrt_price_q64` and the bin fields for the concentrated and binned ones.
#[derive(Clone, Copy, Debug)]
pub struct PoolState {
    pub pool_id: Key,
    pub dex_type: DexType,
    pub token_a: Key,
    pub token_b: Key,
    pub reserve_a: u64,
    pub reserve_b: u64,
    pub liquidity: u128,
    pub sqrt_price_q64: Option<u128>,
    pub active_bin_id: Option<i32>,
    pub bin_step_bps: Option<u16>,
    pub total_fee_bps: u16,
    pub last_updated_unix: u64,
    pub last_trade_unix: Option<u64>,
}

/// One pool's quotation of a normalized pair, as the price-feed view serves
/// it to the search stage: the instantaneous marginal price (quote units per
/// base unit, scaled by `PRICE_SCALE`) and the liquidity scalar the gates
/// compare.
#[derive(Clone, Copy, Debug)]
pub struct PricePoint {
    pub pool_id: Key,
    pub protocol_variant: DexType,
    /// Always positive: a pool whose price degenerates yields no point.
    pub price: u128,
    pub liquidity_proxy: u128,
    pub token_base: Key,
    pub token_quote: Key,
    pub observed_unix: u64,
}

/// Tradability invariant of a pool state: a sane fee, and the fields its
/// variant's numeric model needs. Updates that break it are rejected by the
/// store.
pub open spec fn tradable(p: PoolState) -> bool {
    &&& p.total_fee_bps < 10_000
    &&& p.dex_type.is_cpmm() ==> p.reserve_a > 0 && p.reserve_b > 0
    &&& p.dex_type.is_cl() ==> (p.sqrt_price_q64 matches Some(s) && s > 0) && p.liquidity > 0
    &&& p.dex_type.is_dlmm() ==> p.liquidity > 0
}

/// The marginal price of the pool in its own orientation (`token_b` units per
/// `token_a` unit), scaled by `PRICE_SCALE`; constant-product pools quote the
/// reserve ratio, the others convert the square-root price.
pub open spec fn price_ab_spec(p: PoolState) -> int {
    if p.dex_type.is_cpmm() {
        p.reserve_b as int * PRICE_SCALE as int / p.reserve_a as int
    } else {
        match p.sqrt_price_q64 {
            Some(s) => sqrt_price_to_price_spec(s as int),
            None => 0,
        }
    }
}

/// The protocol-specific liquidity scalar used by the search stage's
/// liquidity gates: ten times the smaller reserve for constant-product pools
/// (a conservative scale), the raw liquidity for the others.
pub open spec fn liquidity_proxy_spec(p: PoolState) -> int {
    if p.dex_type.is_cpmm() {
        if p.reserve_a <= p.reserve_b {
            p.reserve_a * 10
        } else {
            p.reserve_b * 10
        }
    } else {
        p.liquidity as int
    }
}

/// Whether the pool's own-orientation price is defined and positive: positive
/// reserves on a constant-product pool, a convertible square-root price on
/// the others.
pub open spec fn price_ab_usable(p: PoolState) -> bool {
    if p.dex_type.is_cpmm() {
        p.reserve_a > 0 && price_ab_spec(p) > 0
    } else {
        p.sqrt_price_q64 matches Some(sq) && sq < 0x1_0000_0000_0000_0000_0000_0000u128
            && sqrt_price_to_price_spec(sq as int) > 0
    }
}

/// Whether the pool quotes the pair at a defined positive price: its own
/// price when oriented forward, a positive reciprocal when reversed.
pub open spec fn pair_price_usable(p: PoolState, pair: TokenPair) -> bool {
    if p.token_a == pair.base && p.token_b == pair.quote {
        price_ab_usable(p)
    } else if p.token_a == pair.quote && p.token_b == pair.base {
        price_ab_usable(p) && PRICE_SCALE as int * PRICE_SCALE as int / price_ab_spec(p) > 0
    } else {
        false
    }
}

/// The marginal price of the pool oriented to a normalized pair (quote units
/// per base unit): the pool's own price when its `token_a` is the base, the
/// reciprocal when reversed, zero when the pool is not on the pair.
pub open spec fn pair_price_spec(p: PoolState, pair: TokenPair) -> int {
    if p.token_a == pair.base && p.token_b == pair.quote {
        price_ab_spec(p)
    } else if p.token_a == pair.quote && p.token_b == pair.base {
        PRICE_SCALE as int * PRICE_SCALE as int / price_ab_spec(p)
    } else {
        0int
    }
}

/// Reserve on the input side of a trade, as seen by the probability model:
/// the oriented reserve for constant-product pools, the liquidity (saturated
/// to 64 bits) for the others.
pub open spec fn prob_reserve_spec(p: PoolState, is_a_to_b: bool) -> int {
    if p.dex_type.is_cpmm() {
        if is_a_to_b {
            p.reserve_a as int
        } else {
            p.reserve_b as int
        }
    } else {
        if p.liquidity > u64::MAX {
            u64::MAX as int
        } else {
            p.liquidity as int
        }
    }
}

/// The concentrated-liquidity output carried across the pool's price: the
/// depth-damped amount exchanged at the marginal price (saturated — a quote
/// beyond 64 bits reports the maximum), zero when the price is unusable.
pub open spec fn cl_priced_out_spec(p: PoolState, x: int, is_a_to_b: bool) -> int {
    let base = cl_out_spec(x, p.liquidity as int);
    if !price_ab_usable(p) {
        0int
    } else {
        let price = price_ab_spec(p);
        let w = if is_a_to_b {
            sat_mul_u128_spec(base, price) / (PRICE_SCALE as int)
        } else {
            base * (PRICE_SCALE as int) / price
        };
        if w > u64::MAX {
            u64::MAX as int
        } else {
            w
        }
    }
}

/// Output of a trade of `x` into the pool, by the variant's model; an empty
/// constant-product side outputs nothing.
pub open spec fn pool_out_spec(p: PoolState, x: int, is_a_to_b: bool, fee_bps: int) -> int {
    if p.dex_type.is_cpmm() {
        if p.reserve_a == 0 || p.reserve_b == 0 {
            0int
        } else if is_a_to_b {
            cpmm_out_spec(x, p.reserve_a as int, p.reserve_b as int, fee_bps)
        } else {
            cpmm_out_spec(x, p.reserve_b as int, p.reserve_a as int, fee_bps)
        }
    } else {
        cl_priced_out_spec(p, x, is_a_to_b)
    }
}

/// Price impact of a trade of `x` into the pool, in basis points.
pub open spec fn pool_impact_spec(p: PoolState, x: int, is_a_to_b: bool, fee_bps: int) -> int {
    if p.dex_type.is_cpmm() {
        if p.reserve_a == 0 || p.reserve_b == 0 {
            10_000int
        } else if is_a_to_b {
            cpmm_impact_spec(x, p.reserve_a as int, p.reserve_b as int, fee_bps)
        } else {
            cpmm_impact_spec(x, p.reserve_b as int, p.reserve_a as int, fee_bps)
        }
    } else if p.dex_type.is_dlmm() {
        let step = match p.bin_step_bps {
            Some(s) => s as int,
            None => 1,
        };
        dlmm_widen_spec(cl_impact_spec(x, p.liquidity as int), step)
    } else {
        cl_impact_spec(x, p.liquidity as int)
    }
}

/// Execution probability of a trade of `x` into the pool, in ppm.
pub open spec fn pool_prob_spec(p: PoolState, x: int, is_a_to_b: bool) -> int {
    decay_ppm_spec(x, prob_reserve_spec(p, is_a_to_b))
}

/// The output of a tradable pool is non-negative and, on constant-product
/// pools, bounded by the outbound reserve; on the others, by the input.
pub proof fn lemma_pool_out_nonneg(p: PoolState, x: int, is_a_to_b: bool, fee_bps: int)
    requires
        tradable(p),
        0 <= x,
        0 <= fee_bps < 10_000,
    ensures
        0 <= pool_out_spec(p, x, is_a_to_b, fee_bps),
{
    if p.dex_type.is_cpmm() {
        if is_a_to_b {
            crate::numeric::lemma_cpmm_out_bounds(
                x,
                p.reserve_a as int,
                p.reserve_b as int,
                fee_bps,
            );
        } else {
            crate::numeric::lemma_cpmm_out_bounds(
                x,
                p.reserve_b as int,
                p.reserve_a as int,
                fee_bps,
            );
        }
    } else {
        crate::numeric::lemma_cl_out_le_input(x, p.liquidity as int);
        if price_ab_usable(p) {
            let base = cl_out_spec(x, p.liquidity as int);
            let price = price_ab_spec(p);
            vstd::arithmetic::mul::lemma_mul_nonnegative(base, price);
            vstd::arithmetic::div_mod::lemma_div_pos_is_pos(
                sat_mul_u128_spec(base, price),
                PRICE_SCALE as int,
            );
            vstd::arithmetic::mul::lemma_mul_nonnegative(base, PRICE_SCALE as int);
            vstd::arithmetic::div_mod::lemma_div_pos_is_pos(base * (PRICE_SCALE as int), price);
        }
    }
}

/// Whatever the variant, a tradable pool's output is monotone in the input
/// amount.
pub proof fn lemma_pool_out_mono(p: PoolState, x1: int, x2: int, is_a_to_b: bool, fee_bps: int)
    requires
        tradable(p),
        0 <= x1 <= x2,
        0 <= fee_bps < 10_000,
    ensures
        pool_out_spec(p, x1, is_a_to_b, fee_bps) <= pool_out_spec(p, x2, is_a_to_b, fee_bps),
{
    if p.dex_type.is_cpmm() {
        if is_a_to_b {
            crate::numeric::lemma_cpmm_out_mono(
                x1,
                x2,
                p.reserve_a as int,
                p.reserve_b as int,
                fee_bps,
            );
        } else {
            crate::numeric::lemma_cpmm_out_mono(
                x1,
                x2,
                p.reserve_b as int,
                p.reserve_a as int,
                fee_bps,
            );
        }
    } else {
        crate::numeric::lemma_cl_out_mono(x1, x2, p.liquidity as int);
        crate::numeric::lemma_cl_out_le_input(x1, p.liquidity as int);
        if price_ab_usable(p) {
            let b1 = cl_out_spec(x1, p.liquidity as int);
            let b2 = cl_out_spec(x2, p.liquidity as int);
            let price = price_ab_spec(p);
            if is_a_to_b {
                lemma_sat_mul_mono(b1, b2, price);
                crate::numeric::lemma_div_mono(
                    sat_mul_u128_spec(b1, price),
                    sat_mul_u128_spec(b2, price),
                    PRICE_SCALE as int,
                );
            } else {
                vstd::arithmetic::mul::lemma_mul_inequality(b1, b2, PRICE_SCALE as int);
                crate::numeric::lemma_div_mono(
                    b1 * (PRICE_SCALE as int),
                    b2 * (PRICE_SCALE as int),
                    price,
                );
            }
        }
    }
}

impl PoolState {
    /// Whether the state satisfies its variant's tradability invariant.
    pub fn is_tradable(&self) -> (r: bool)
        ensures
            r == tradable(*self),
    {
        if self.total_fee_bps >= 10_000 {
            return false;
        }
        match self.dex_type {
            DexType::RaydiumAmmV4 | DexType::RaydiumCpmm => self.reserve_a > 0 && self.reserve_b
                > 0,
            DexType::RaydiumClmm | DexType::OrcaWhirlpool => match self.sqrt_price_q64 {
                Some(s) => s > 0 && self.liquidity > 0,
                None => false,
            },
            DexType::MeteoraDlmm => self.liquidity > 0,
        }
    }

    /// The marginal price in the pool's own orientation, `None` when the
    /// price is undefined, would overflow or would round to zero.
    pub fn marginal_price_ab(&self) -> (r: Option<u128>)
        ensures
            r matches Some(v) ==> v > 0 && v == price_ab_spec(*self),
            r is Some <==> price_ab_usable(*self),
    {
        match self.dex_type {
            DexType::RaydiumAmmV4 | DexType::RaydiumCpmm => {
                if self.reserve_a == 0 {
                    None
                } else {
                    let v: u128 = (self.reserve_b as u128) * PRICE_SCALE / (self.reserve_a as u128);
                    if v == 0 {
                        None
                    } else {
                        Some(v)
                    }
                }
            },
            _ => match self.sqrt_price_q64 {
                Some(s) => sqrt_price_to_price(s),
                None => None,
            },
        }
    }

    /// The marginal price oriented to a normalized pair (quote units per base
    /// unit): the pool's own price when its `token_a` is the base, the
    /// reciprocal when its orientation is reversed, `None` when the pool does
    /// not quote the pair or the price degenerates.
    pub fn marginal_price(&self, pair: &TokenPair) -> (r: Option<u128>)
        ensures
            r matches Some(v) ==> v > 0 && v == pair_price_spec(*self, *pair),
            r is Some <==> pair_price_usable(*self, *pair),
    {
        if self.token_a == pair.base && self.token_b == pair.quote {
            self.marginal_price_ab()
        } else if self.token_a == pair.quote && self.token_b == pair.base {
            match self.marginal_price_ab() {
                Some(v) => {
                    let inv: u128 = PRICE_SCALE * PRICE_SCALE / v;
                    if inv == 0 {
                        None
                    } else {
                        Some(inv)
                    }
                },
                None => None,
            }
        } else {
            None
        }
    }

    /// The liquidity scalar used by the search stage's liquidity gates.
    pub fn liquidity_proxy(&self) -> (r: u128)
        ensures
            r == liquidity_proxy_spec(*self),
    {
        match self.dex_type {
            DexType::RaydiumAmmV4 | DexType::RaydiumCpmm => {
                let m: u64 = if self.reserve_a <= self.reserve_b {
                    self.reserve_a
                } else {
                    self.reserve_b
                };
                (m as u128) * 10
            },
            _ => self.liquidity,
        }
    }

    /// Quotes a trade of `input_amount` through the pool under an explicit
    /// fee: output amount and price impact in basis points, dispatched on the
    /// protocol variant.
    pub fn quote_with_fee(&self, input_amount: u64, is_a_to_b: bool, fee_bps: u16) -> (r: (
        u64,
        u16,
    ))
        requires
            fee_bps < 10_000,
        ensures
            r.0 == pool_out_spec(*self, input_amount as int, is_a_to_b, fee_bps as int),
            r.1 == pool_impact_spec(*self, input_amount as int, is_a_to_b, fee_bps as int),
            r.1 <= 10_000,
    {
        match self.dex_type {
            DexType::RaydiumAmmV4 | DexType::RaydiumCpmm => {
                if is_a_to_b {
                    cpmm_quote(input_amount, self.reserve_a, self.reserve_b, fee_bps)
                } else {
                    cpmm_quote(input_amount, self.reserve_b, self.reserve_a, fee_bps)
                }
            },
            DexType::MeteoraDlmm => {
                let (base, impact) = cl_quote(input_amount, self.liquidity);
                let step: u16 = match self.bin_step_bps {
                    Some(s) => s,
                    None => 1,
                };
                (self.price_adjust(base, is_a_to_b), dlmm_widen(impact, step))
            },
            _ => {
                let (base, impact) = cl_quote(input_amount, self.liquidity);
                (self.price_adjust(base, is_a_to_b), impact)
            },
        }
    }

    /// Carries a depth-damped concentrated-liquidity amount across the pool's
    /// marginal price, saturating a quote beyond 64 bits.
    fn price_adjust(&self, base: u64, is_a_to_b: bool) -> (r: u64)
        ensures
            r == ({
                let w = if !price_ab_usable(*self) {
                    0int
                } else if is_a_to_b {
                    sat_mul_u128_spec(base as int, price_ab_spec(*self)) / (PRICE_SCALE as int)
                } else {
                    base as int * (PRICE_SCALE as int) / price_ab_spec(*self)
                };
                if w > u64::MAX {
                    u64::MAX as int
                } else {
                    w
                }
            }),
    {
        let price = match self.marginal_price_ab() {
            Some(v) => v,
            None => {
                return 0;
            },
        };
        let w: u128 = if is_a_to_b {
            let prod = match (base as u128).checked_mul(price) {
                Some(v) => v,
                None => u128::MAX,
            };
            prod / PRICE_SCALE
        } else {
            proof {
                vstd::arithmetic::mul::lemma_mul_upper_bound(
                    base as int,
                    u64::MAX as int,
                    PRICE_SCALE as int,
                    PRICE_SCALE as int,
                );
                vstd::arithmetic::mul::lemma_mul_nonnegative(base as int, PRICE_SCALE as int);
            }
            (base as u128) * PRICE_SCALE / price
        };
        if w > u64::MAX as u128 {
            u64::MAX
        } else {
            w as u64
        }
    }

    /// Quotes a trade through the pool at its own total fee.
    /// Returns `(output_amount, price_impact_bps)`.
    pub fn calculate_price_impact(&self, input_amount: u64, is_a_to_b: bool) -> (r: (u64, u16))
        requires
            self.total_fee_bps < 10_000,
        ensures
            r.0 == pool_out_spec(*self, input_amount as int, is_a_to_b, self.total_fee_bps as int),
            r.1 == pool_impact_spec(
                *self,
                input_amount as int,
                is_a_to_b,
                self.total_fee_bps as int,
            ),
            r.1 <= 10_000,
    {
        self.quote_with_fee(input_amount, is_a_to_b, self.total_fee_bps)
    }

    /// Execution probability of a trade against the pool's input-side
    /// reserve, in ppm: exponential decay in the size ratio, zero on an empty
    /// side.
    pub fn execution_probability(&self, trade_size: u64, is_a_to_b: bool) -> (r: u64)
        ensures
            r == pool_prob_spec(*self, trade_size as int, is_a_to_b),
            r <= PPM,
    {
        let reserve: u64 = match self.dex_type {
            DexType::RaydiumAmmV4 | DexType::RaydiumCpmm => {
                if is_a_to_b {
                    self.reserve_a
                } else {
                    self.reserve_b
                }
            },
            _ => {
                if self.liquidity > u64::MAX as u128 {
                    u64::MAX
                } else {
                    self.liquidity as u64
                }
            },
        };
        decay_ppm(trade_size, reserve)
    }

    /// The pool's price point on a normalized pair at `now`: its marginal
    /// price and liquidity proxy, or nothing when the pool does not quote the
    /// pair, is untradable, or its price degenerates — so every price point a
    /// tradable pool yields carries a strictly positive price.
    pub fn price_point(&self, pair: &TokenPair, now: u64) -> (r: Option<PricePoint>)
        ensures
            r matches Some(pt) ==> pt.price > 0 && pt.price == pair_price_spec(*self, *pair)
                && pt.pool_id == self.pool_id && pt.protocol_variant == self.dex_type
                && pt.liquidity_proxy == liquidity_proxy_spec(*self) && pt.token_base == pair.base
                && pt.token_quote == pair.quote && pt.observed_unix == now,
            !tradable(*self) ==> r is None,
    {
        if !self.is_tradable() {
            return None;
        }
        match self.marginal_price(pair) {
            Some(price) => Some(
                PricePoint {
                    pool_id: self.pool_id,
                    protocol_variant: self.dex_type,
                    price,
                    liquidity_proxy: self.liquidity_proxy(),
                    token_base: pair.base,
                    token_quote: pair.quote,
                    observed_unix: now,
                },
            ),
            None => None,
        }
    }

    /// Whether the outbound reserve holds at least twice the required output,
    /// the safety margin the router asks for.
    pub fn has_sufficient_liquidity(&self, required_output: u64, is_a_to_b: bool) -> (r: bool)
        ensures
            r == (2 * required_output <= if is_a_to_b {
                self.reserve_b as int
            } else {
                self.reserve_a as int
            }),
    {
        let available: u64 = if is_a_to_b {
            self.reserve_b
        } else {
            self.reserve_a
        };
        2 * (required_output as u128) <= available as u128
    }
}

} // verus!

//! The flash-loan opportunity detector: keeps a per-pair price feed derived
//! from streamed pool states, finds the widest price spread among
//! sufficiently liquid pools, sizes the loan from the available liquidity,
//! and evaluates the round trip under the closed-form profit model with the
//! flash-loan repayment folded in.

use vstd::prelude::*;
use vstd::seq_lib::group_filter_ensures;
use crate::flash::{closed_form_received_spec, repayment_spec, sim_rejects};
use crate::keys::{pair_of, Key, TokenPair};
use crate::numeric::{sqrt_price_to_price, PRICE_SCALE};
use vstd::arithmetic::mul::lemma_mul_is_commutative;

verus! {

/// Protocols the flash-loan detector watches.
#[derive(Clone, Copy, Debug, PartialEq, Eq, Structural)]
pub enum PoolProtocol {
    RaydiumClmm,
    RaydiumAmmV4,
}

/// One pool's current quotation of a pair: its price (scaled by
/// `PRICE_SCALE`), its liquidity, and when it was observed.
#[derive(Clone, Copy, Debug)]
pub struct PoolPrice {
    pub pool: Key,
    pub protocol: PoolProtocol,
    pub price: u128,
    pub liquidity: u128,
    pub token0: Key,
    pub token1: Key,
    pub timestamp: i64,
}

/// A detected flash-loan arbitrage opportunity: buy at `pool_a` (the lower
/// price), sell at `pool_b`, borrowing `loan_amount` of the quote token.
#[derive(Clone, Copy, Debug)]
pub struct ArbitrageOpportunity {
    pub pool_a: Key,
    pub pool_b: Key,
    pub pool_a_protocol: PoolProtocol,
    pub pool_b_protocol: PoolProtocol,
    pub base_token: Key,
    pub quote_token: Key,
    pub price_a: u128,
    pub price_b: u128,
    /// Expected profit after swap fees and flash-loan repayment.
    pub expected_profit: u64,
    pub loan_amount: u64,
    pub timestamp: i64,
    /// Confidence score, zero to one hundred.
    pub confidence: u8,
}

/// Cumulative swap volumes of a constant-product pool, from its account
/// state.
#[derive(Clone, Copy, Debug, PartialEq, Eq, Structural)]
pub struct AmmSwapVolumes {
    pub swap_coin_in_amount: u128,
    pub swap_pc_out_amount: u128,
    pub swap_pc_in_amount: u128,
    pub swap_coin_out_amount: u128,
    pub lp_amount: u64,
}

/// A price ratio `num * PRICE_SCALE / den`, saturated once the numerator
/// cannot be scaled within 128 bits.
pub open spec fn scaled_ratio_spec(num: int, den: int) -> int {
    if num > u128::MAX as int / (PRICE_SCALE as int) {
        u128::MAX as int
    } else {
        num * (PRICE_SCALE as int) / den
    }
}

/// The price estimate from cumulative volumes: the average of the two
/// per-direction prices that are defined and positive, zero when neither is.
pub open spec fn ammv4_price_spec(v: AmmSwapVolumes) -> int {
    let p1 = if v.swap_coin_in_amount > 0 {
        scaled_ratio_spec(v.swap_pc_out_amount as int, v.swap_coin_in_amount as int)
    } else {
        0int
    };
    let p2 = if v.swap_coin_out_amount > 0 {
        scaled_ratio_spec(v.swap_pc_in_amount as int, v.swap_coin_out_amount as int)
    } else {
        0int
    };
    if p1 > 0 && p2 > 0 {
        (p1 + p2) / 2
    } else if p1 > 0 {
        p1
    } else if p2 > 0 {
        p2
    } else {
        0int
    }
}

/// Saturating liquidity estimate from cumulative volumes: the largest of the
/// two volumes, ten times the LP amount, and ten times the smaller volume,
/// halved, and floored at a million.
pub open spec fn ammv4_liquidity_spec(v: AmmSwapVolumes) -> int {
    let coin_volume = sat_add_u128(
        v.swap_coin_in_amount as int,
        v.swap_coin_out_amount as int,
    );
    let pc_volume = sat_add_u128(v.swap_pc_in_amount as int, v.swap_pc_out_amount as int);
    let lp_based = sat_mul10_u128(v.lp_amount as int);
    let volume_based = sat_mul10_u128(if coin_volume <= pc_volume {
        coin_volume
    } else {
        pc_volume
    });
    let m1 = if coin_volume >= pc_volume {
        coin_volume
    } else {
        pc_volume
    };
    let m2 = if m1 >= lp_based {
        m1
    } else {
        lp_based
    };
    let m3 = if m2 >= volume_based {
        m2
    } else {
        volume_based
    };
    let e = m3 / 2;
    if e < 1_000_000 {
        1_000_000int
    } else {
        e
    }
}

/// Saturating 128-bit addition.
pub open spec fn sat_add_u128(a: int, b: int) -> int {
    if a + b > u128::MAX {
        u128::MAX as int
    } else {
        a + b
    }
}

/// Saturating multiplication by ten.
pub open spec fn sat_mul10_u128(a: int) -> int {
    if a * 10 > u128::MAX {
        u128::MAX as int
    } else {
        a * 10
    }
}

/// The loan sized from the smaller pool's liquidity: a liquidity-tiered
/// fraction of it, clamped to the configured maximum and floored at 10^5.
pub open spec fn optimal_loan_spec(liq_a: int, liq_b: int, max_loan: int) -> int {
    let min_liquidity = if liq_a <= liq_b {
        liq_a
    } else {
        liq_b
    };
    let percentage: int = if min_liquidity >= 100_000_000_000 {
        15int
    } else if min_liquidity > 50_000_000_000 {
        10int
    } else if min_liquidity > 20_000_000_000 {
        5int
    } else {
        2int
    };
    let loan_wide = min_liquidity / percentage;
    let loan = if loan_wide > u64::MAX {
        u64::MAX as int
    } else {
        loan_wide
    };
    let capped = if loan <= max_loan {
        loan
    } else {
        max_loan
    };
    if capped < 100_000 {
        100_000int
    } else {
        capped
    }
}

/// The liquidity-and-spread confidence score, zero to one hundred: up to 50
/// points for per-pool and combined liquidity, up to 20 for the spread, up to
/// 10 for freshness.
pub open spec fn confidence_score_spec(
    liq_a: int,
    liq_b: int,
    spread_ppm: int,
    age_a: int,
    age_b: int,
) -> int {
    let min_liquidity = if liq_a <= liq_b {
        liq_a
    } else {
        liq_b
    };
    let combined = sat_add_u128(liq_a, liq_b);
    let liq_points: int = if min_liquidity > 100_000_000_000 {
        30int
    } else if min_liquidity > 50_000_000_000 {
        25int
    } else if min_liquidity > 10_000_000_000 {
        15int
    } else if min_liquidity > 5_000_000_000 {
        10int
    } else if min_liquidity > 1_000_000_000 {
        5int
    } else {
        0int
    };
    let combined_points: int = if combined > 200_000_000_000 {
        20int
    } else if combined > 100_000_000_000 {
        15int
    } else if combined > 50_000_000_000 {
        10int
    } else {
        0int
    };
    let spread_points: int = if spread_ppm > 50_000 {
        20int
    } else if spread_ppm > 30_000 {
        15int
    } else if spread_ppm > 10_000 {
        10int
    } else if spread_ppm > 5_000 {
        5int
    } else {
        0int
    };
    let max_age = if age_a >= age_b {
        age_a
    } else {
        age_b
    };
    let age_points: int = if max_age < 2 {
        10int
    } else if max_age < 5 {
        7int
    } else if max_age < 10 {
        5int
    } else if max_age < 30 {
        2int
    } else {
        0int
    };
    let total = liq_points + combined_points + spread_points + age_points;
    if total > 100 {
        100int
    } else {
        total
    }
}

/// The feed entries quoting a normalized pair.
pub open spec fn pair_entry_filter(pair: TokenPair) -> spec_fn(PoolPrice) -> bool {
    |e: PoolPrice| pair_of(e.token0, e.token1) == pair
}

/// A feed entry under thirty seconds old at `now`; a stamp from the future
/// counts as fresh, a negative one never does.
pub open spec fn feed_fresh_at(e: PoolPrice, now: i64) -> bool {
    e.timestamp > now || (e.timestamp >= 0 && now - e.timestamp < 30)
}

/// What an upsert keeps of the old feed: entries of other pairs untouched,
/// and same-pair entries of other pools that are still fresh.
pub open spec fn feed_keep_filter(new_pool: Key, pair: TokenPair, now: i64) -> spec_fn(
    PoolPrice,
) -> bool {
    |e: PoolPrice| pair_of(e.token0, e.token1) != pair || (e.pool != new_pool && feed_fresh_at(
        e,
        now,
    ))
}

/// The entries that pass the search's per-pool liquidity floor with a sane
/// age.
pub open spec fn liquid_entry_filter(min_liq: u128, now: i64) -> spec_fn(PoolPrice) -> bool {
    |e: PoolPrice| e.liquidity >= min_liq && 0 <= e.timestamp <= now
}

/// The first cheapest entry among the first `k`.
pub open spec fn min_by_price_upto(s: Seq<PoolPrice>, k: int) -> PoolPrice
    decreases k,
{
    if k <= 1 {
        s[0]
    } else if s[k - 1].price < min_by_price_upto(s, k - 1).price {
        s[k - 1]
    } else {
        min_by_price_upto(s, k - 1)
    }
}

/// The first dearest entry among the first `k`.
pub open spec fn max_by_price_upto(s: Seq<PoolPrice>, k: int) -> PoolPrice
    decreases k,
{
    if k <= 1 {
        s[0]
    } else if s[k - 1].price > max_by_price_upto(s, k - 1).price {
        s[k - 1]
    } else {
        max_by_price_upto(s, k - 1)
    }
}

/// The first cheapest entry of a non-empty list.
pub open spec fn min_by_price(s: Seq<PoolPrice>) -> PoolPrice {
    min_by_price_upto(s, s.len() as int)
}

/// The first dearest entry of a non-empty list.
pub open spec fn max_by_price(s: Seq<PoolPrice>) -> PoolPrice {
    max_by_price_upto(s, s.len() as int)
}

/// The cheapest-so-far is one of the entries looked at.
proof fn lemma_min_upto_mem(s: Seq<PoolPrice>, k: int)
    requires
        1 <= k <= s.len(),
    ensures
        exists|w: int| 0 <= w < k && s[w] == min_by_price_upto(s, k),
    decreases k,
{
    if k == 1 {
        assert(s[0] == min_by_price_upto(s, 1));
    } else {
        lemma_min_upto_mem(s, k - 1);
        if s[k - 1].price < min_by_price_upto(s, k - 1).price {
            assert(s[k - 1] == min_by_price_upto(s, k));
        }
    }
}

/// The dearest-so-far is one of the entries looked at.
proof fn lemma_max_upto_mem(s: Seq<PoolPrice>, k: int)
    requires
        1 <= k <= s.len(),
    ensures
        exists|w: int| 0 <= w < k && s[w] == max_by_price_upto(s, k),
    decreases k,
{
    if k == 1 {
        assert(s[0] == max_by_price_upto(s, 1));
    } else {
        lemma_max_upto_mem(s, k - 1);
        if s[k - 1].price > max_by_price_upto(s, k - 1).price {
            assert(s[k - 1] == max_by_price_upto(s, k));
        }
    }
}

/// The exec-mirrored spread gate: the spread as ppm of the buy price,
/// saturated.
pub open spec fn spread_gate_ppm(bp: int, sp: int) -> int {
    let spread = sp - bp;
    if spread > u128::MAX as int / 1_000_000 {
        u128::MAX as int
    } else {
        spread * 1_000_000 / bp
    }
}

/// When the round-trip evaluation of a buy/sell pair yields no candidate: no
/// positive spread, a spread under one percent, a simulation that cannot be
/// carried, an unprofitable round trip, or a profit under the floor.
pub open spec fn profit_rejects(
    buy: PoolPrice,
    sell: PoolPrice,
    min_profit: u64,
    max_loan: u64,
) -> bool {
    let loan = optimal_loan_spec(buy.liquidity as int, sell.liquidity as int, max_loan as int);
    let received = closed_form_received_spec(loan, 25, buy.price as int, sell.price as int);
    let repay = repayment_spec(loan, 900);
    ||| buy.price == 0
    ||| sell.price <= buy.price
    ||| spread_gate_ppm(buy.price as int, sell.price as int) < 10_000
    ||| sim_rejects(loan, buy.price as int, sell.price as int, 25, 900)
    ||| received <= repay
    ||| received - repay < min_profit
}

/// Detects flash-loan arbitrage across the pools quoting each pair.
pub struct OpportunityDetector {
    price_feed: Vec<PoolPrice>,
    min_profit_threshold: u64,
    max_loan_amount: u64,
    min_liquidity_threshold: u128,
    min_combined_liquidity: u128,
}

impl OpportunityDetector {
    /// The price-feed entries, in feed order.
    pub closed spec fn feed_spec(&self) -> Seq<PoolPrice> {
        self.price_feed@
    }

    /// Minimum profit accepted, in the smallest unit.
    pub closed spec fn min_profit_spec(&self) -> u64 {
        self.min_profit_threshold
    }

    /// Largest loan taken.
    pub closed spec fn max_loan_spec(&self) -> u64 {
        self.max_loan_amount
    }

    /// Per-pool liquidity floor.
    pub closed spec fn min_liquidity_spec(&self) -> u128 {
        self.min_liquidity_threshold
    }

    /// Combined liquidity floor over the two chosen pools.
    pub closed spec fn min_combined_spec(&self) -> u128 {
        self.min_combined_liquidity
    }

    /// Minimum profit accepted, in the smallest unit.
    pub fn min_profit_threshold(&self) -> (r: u64)
        ensures
            r == self.min_profit_spec(),
    {
        self.min_profit_threshold
    }

    /// Largest loan taken.
    pub fn max_loan_amount(&self) -> (r: u64)
        ensures
            r == self.max_loan_spec(),
    {
        self.max_loan_amount
    }

    /// Per-pool liquidity floor.
    pub fn min_liquidity_threshold(&self) -> (r: u128)
        ensures
            r == self.min_liquidity_spec(),
    {
        self.min_liquidity_threshold
    }

    /// Combined liquidity floor over the two chosen pools.
    pub fn min_combined_liquidity(&self) -> (r: u128)
        ensures
            r == self.min_combined_spec(),
    {
        self.min_combined_liquidity
    }

    /// A detector with the given thresholds and an empty price feed.
    pub fn new(
        min_profit_threshold: u64,
        max_loan_amount: u64,
        min_liquidity_threshold: u128,
        min_combined_liquidity: u128,
    ) -> (r: OpportunityDetector)
        ensures
            r.min_profit_spec() == min_profit_threshold,
            r.max_loan_spec() == max_loan_amount,
            r.min_liquidity_spec() == min_liquidity_threshold,
            r.min_combined_spec() == min_combined_liquidity,
    {
        OpportunityDetector {
            price_feed: Vec::new(),
            min_profit_threshold,
            max_loan_amount,
            min_liquidity_threshold,
            min_combined_liquidity,
        }
    }

    /// A detector with the customary high-liquidity thresholds.
    pub fn new_high_liquidity() -> (r: OpportunityDetector)
        ensures
            r.min_profit_spec() == 1_000_000,
            r.max_loan_spec() == 100_000_000_000,
            r.min_liquidity_spec() == 10_000_000_000,
            r.min_combined_spec() == 50_000_000_000,
    {
        OpportunityDetector::new(1_000_000, 100_000_000_000, 10_000_000_000, 50_000_000_000)
    }

    /// The price of a concentrated-liquidity pool from its square-root price,
    /// rejecting a zero or overflowing conversion.
    pub fn calculate_clmm_price(&self, sqrt_price_q64: u128) -> (r: Option<u128>)
        ensures
            r matches Some(p) ==> p > 0 && p == crate::numeric::sqrt_price_to_price_spec(
                sqrt_price_q64 as int,
            ),
    {
        sqrt_price_to_price(sqrt_price_q64)
    }

    /// The price estimate of a constant-product pool from its cumulative swap
    /// volumes, rejecting pools that never traded or whose estimate floors to
    /// zero.
    pub fn calculate_ammv4_price(&self, volumes: &AmmSwapVolumes) -> (r: Option<u128>)
        ensures
            r matches Some(p) ==> p > 0 && p == ammv4_price_spec(*volumes),
            r is None <==> ammv4_price_spec(*volumes) <= 0,
    {
        let p1: u128 = if volumes.swap_coin_in_amount > 0 {
            scaled_ratio(volumes.swap_pc_out_amount, volumes.swap_coin_in_amount)
        } else {
            0
        };
        let p2: u128 = if volumes.swap_coin_out_amount > 0 {
            scaled_ratio(volumes.swap_pc_in_amount, volumes.swap_coin_out_amount)
        } else {
            0
        };
        let avg: u128 = if p1 > 0 && p2 > 0 {
            p1 / 2 + p2 / 2 + (p1 % 2 + p2 % 2) / 2
        } else if p1 > 0 {
            p1
        } else {
            p2
        };
        proof {
            if p1 > 0 && p2 > 0 {
                vstd::arithmetic::div_mod::lemma_fundamental_div_mod(p1 as int, 2int);
                vstd::arithmetic::div_mod::lemma_fundamental_div_mod(p2 as int, 2int);
                vstd::arithmetic::div_mod::lemma_mod_bound(p1 as int, 2int);
                vstd::arithmetic::div_mod::lemma_mod_bound(p2 as int, 2int);
            }
        }
        if avg == 0 {
            None
        } else {
            Some(avg)
        }
    }

    /// Saturating liquidity estimate of a constant-product pool from its
    /// cumulative volumes.
    pub fn estimate_ammv4_liquidity(&self, volumes: &AmmSwapVolumes) -> (r: u128)
        ensures
            r == ammv4_liquidity_spec(*volumes),
            r >= 1_000_000,
    {
        let coin_volume = sat_add(volumes.swap_coin_in_amount, volumes.swap_coin_out_amount);
        let pc_volume = sat_add(volumes.swap_pc_in_amount, volumes.swap_pc_out_amount);
        let lp_based = sat_mul10(volumes.lp_amount as u128);
        let volume_based = sat_mul10(
            if coin_volume <= pc_volume {
                coin_volume
            } else {
                pc_volume
            },
        );
        let m1 = if coin_volume >= pc_volume {
            coin_volume
        } else {
            pc_volume
        };
        let m2 = if m1 >= lp_based {
            m1
        } else {
            lp_based
        };
        let m3 = if m2 >= volume_based {
            m2
        } else {
            volume_based
        };
        let e = m3 / 2;
        if e < 1_000_000 {
            1_000_000
        } else {
            e
        }
    }

    /// The loan sized from the two pools' liquidity under the detector's cap.
    pub fn calculate_optimal_loan_size(&self, buy_pool: &PoolPrice, sell_pool: &PoolPrice) -> (r:
        u64)
        ensures
            r == optimal_loan_spec(
                buy_pool.liquidity as int,
                sell_pool.liquidity as int,
                self.max_loan_spec() as int,
            ),
            100_000 <= r,
    {
        let min_liquidity: u128 = if buy_pool.liquidity <= sell_pool.liquidity {
            buy_pool.liquidity
        } else {
            sell_pool.liquidity
        };
        let percentage: u128 = if min_liquidity >= 100_000_000_000 {
            15
        } else if min_liquidity > 50_000_000_000 {
            10
        } else if min_liquidity > 20_000_000_000 {
            5
        } else {
            2
        };
        let loan_wide: u128 = min_liquidity / percentage;
        let loan: u64 = if loan_wide > u64::MAX as u128 {
            u64::MAX
        } else {
            loan_wide as u64
        };
        let capped: u64 = if loan <= self.max_loan_amount {
            loan
        } else {
            self.max_loan_amount
        };
        if capped < 100_000 {
            100_000
        } else {
            capped
        }
    }

    /// The confidence score of a candidate, from liquidity, spread and the
    /// feed entries' ages at `now`.
    pub fn calculate_confidence(
        &self,
        buy_pool: &PoolPrice,
        sell_pool: &PoolPrice,
        spread_ppm: u64,
        now: i64,
    ) -> (r: u8)
        requires
            0 <= buy_pool.timestamp <= now,
            0 <= sell_pool.timestamp <= now,
        ensures
            r == confidence_score_spec(
                buy_pool.liquidity as int,
                sell_pool.liquidity as int,
                spread_ppm as int,
                now - buy_pool.timestamp,
                now - sell_pool.timestamp,
            ),
            r <= 100,
    {
        let min_liquidity: u128 = if buy_pool.liquidity <= sell_pool.liquidity {
            buy_pool.liquidity
        } else {
            sell_pool.liquidity
        };
        let combined: u128 = sat_add(buy_pool.liquidity, sell_pool.liquidity);
        let liq_points: u8 = if min_liquidity > 100_000_000_000 {
            30
        } else if min_liquidity > 50_000_000_000 {
            25
        } else if min_liquidity > 10_000_000_000 {
            15
        } else if min_liquidity > 5_000_000_000 {
            10
        } else if min_liquidity > 1_000_000_000 {
            5
        } else {
            0
        };
        let combined_points: u8 = if combined > 200_000_000_000 {
            20
        } else if combined > 100_000_000_000 {
            15
        } else if combined > 50_000_000_000 {
            10
        } else {
            0
        };
        let spread_points: u8 = if spread_ppm > 50_000 {
            20
        } else if spread_ppm > 30_000 {
            15
        } else if spread_ppm > 10_000 {
            10
        } else if spread_ppm > 5_000 {
            5
        } else {
            0
        };
        let age_a: i64 = now - buy_pool.timestamp;
        let age_b: i64 = now - sell_pool.timestamp;
        let max_age: i64 = if age_a >= age_b {
            age_a
        } else {
            age_b
        };
        let age_points: u8 = if max_age < 2 {
            10
        } else if max_age < 5 {
            7
        } else if max_age < 10 {
            5
        } else if max_age < 30 {
            2
        } else {
            0
        };
        let total: u8 = liq_points + combined_points + spread_points + age_points;
        if total > 100 {
            100
        } else {
            total
        }
    }

    /// The cheapest and dearest entries of a price list: the returned pair
    /// brackets every listed price.
    pub fn find_price_spread(&self, prices: &Vec<PoolPrice>) -> (r: Option<(PoolPrice, PoolPrice)>)
        ensures
            r is Some <==> prices@.len() > 0,
            r matches Some(mm) ==> mm.0 == min_by_price(prices@) && mm.1 == max_by_price(prices@),
            r matches Some(mm) ==> forall|i: int|
                0 <= i < prices@.len() ==> mm.0.price <= (#[trigger] prices@[i]).price
                    && prices@[i].price <= mm.1.price,
    {
        if prices.len() == 0 {
            return None;
        }
        let mut min_p = prices[0];
        let mut max_p = prices[0];
        let n = prices.len();
        for i in 1..n
            invariant
                n == prices@.len(),
                n > 0,
                1 <= i <= n,
                min_p == min_by_price_upto(prices@, i as int),
                max_p == max_by_price_upto(prices@, i as int),
                forall|j: int|
                    0 <= j < i ==> min_p.price <= (#[trigger] prices@[j]).price && prices@[j].price
                        <= max_p.price,
        {
            if prices[i].price < min_p.price {
                min_p = prices[i];
            }
            if prices[i].price > max_p.price {
                max_p = prices[i];
            }
        }
        Some((min_p, max_p))
    }

    /// Records one pool's current quotation, replacing any earlier entry of
    /// the same pool and purging same-pair entries older than thirty seconds.
    pub fn update_price_feed(&mut self, price: PoolPrice, now: i64)
        ensures
            final(self).min_profit_spec() == old(self).min_profit_spec(),
            final(self).max_loan_spec() == old(self).max_loan_spec(),
            final(self).min_liquidity_spec() == old(self).min_liquidity_spec(),
            final(self).min_combined_spec() == old(self).min_combined_spec(),
            final(self).feed_spec() == old(self).feed_spec().filter(
                feed_keep_filter(price.pool, pair_of(price.token0, price.token1), now),
            ).push(price),
    {
        broadcast use group_filter_ensures;

        let pair = TokenPair::new(price.token0, price.token1);
        let ghost pred = feed_keep_filter(price.pool, pair_of(price.token0, price.token1), now);
        let mut updated: Vec<PoolPrice> = Vec::new();
        let n = self.price_feed.len();
        proof {
            assert(self.feed_spec().take(0int) =~= Seq::<PoolPrice>::empty());
            assert(Seq::<PoolPrice>::empty().filter(pred) =~= Seq::<PoolPrice>::empty()) by {
                reveal(Seq::filter);
            }
        }
        for i in 0..n
            invariant
                n == self.price_feed@.len(),
                self == old(self),
                pair == pair_of(price.token0, price.token1),
                pred == feed_keep_filter(price.pool, pair_of(price.token0, price.token1), now),
                updated@ == self.feed_spec().take(i as int).filter(pred),
        {
            let e = self.price_feed[i];
            let e_pair = TokenPair::new(e.token0, e.token1);
            let same_pair = e_pair.base == pair.base && e_pair.quote == pair.quote;
            let fresh = if e.timestamp > now {
                true
            } else if e.timestamp >= 0 {
                now - e.timestamp < 30
            } else {
                false
            };
            proof {
                assert(self.feed_spec().take(i + 1).drop_last() =~= self.feed_spec().take(
                    i as int,
                ));
                assert(self.feed_spec().take(i + 1) =~= self.feed_spec().take(i as int).push(
                    self.feed_spec()[i as int],
                ));
                Seq::lemma_filter_push(
                    self.feed_spec().take(i as int),
                    self.feed_spec()[i as int],
                    pred,
                );
                assert((!(e.pool == price.pool && same_pair) && (!same_pair || fresh)) == pred(
                    self.feed_spec()[i as int],
                ));
            }
            if e.pool == price.pool && same_pair {
                // replaced below
            } else if !same_pair || fresh {
                updated.push(e);
            }
        }
        proof {
            assert(self.feed_spec().take(n as int) =~= self.feed_spec());
        }
        updated.push(price);
        self.price_feed = updated;
    }

    /// The feed's entries quoting the (normalized) pair of the two tokens,
    /// exactly and in feed order.
    pub fn prices_for_pair(&self, token0: Key, token1: Key) -> (r: Vec<PoolPrice>)
        ensures
            r@ == self.feed_spec().filter(pair_entry_filter(pair_of(token0, token1))),
    {
        broadcast use group_filter_ensures;

        let pair = TokenPair::new(token0, token1);
        let ghost pred = pair_entry_filter(pair_of(token0, token1));
        let mut out: Vec<PoolPrice> = Vec::new();
        let n = self.price_feed.len();
        proof {
            assert(self.feed_spec().take(0int) =~= Seq::<PoolPrice>::empty());
            assert(Seq::<PoolPrice>::empty().filter(pred) =~= Seq::<PoolPrice>::empty()) by {
                reveal(Seq::filter);
            }
        }
        for i in 0..n
            invariant
                n == self.price_feed@.len(),
                pair == pair_of(token0, token1),
                pred == pair_entry_filter(pair_of(token0, token1)),
                out@ == self.feed_spec().take(i as int).filter(pred),
        {
            let e = self.price_feed[i];
            let e_pair = TokenPair::new(e.token0, e.token1);
            proof {
                assert(self.feed_spec().take(i + 1).drop_last() =~= self.feed_spec().take(
                    i as int,
                ));
                assert(self.feed_spec().take(i + 1) =~= self.feed_spec().take(i as int).push(
                    self.feed_spec()[i as int],
                ));
                Seq::lemma_filter_push(
                    self.feed_spec().take(i as int),
                    self.feed_spec()[i as int],
                    pred,
                );
                assert((e_pair.base == pair.base && e_pair.quote == pair.quote) == pred(
                    self.feed_spec()[i as int],
                ));
            }
            if e_pair.base == pair.base && e_pair.quote == pair.quote {
                out.push(e);
            }
        }
        proof {
            assert(self.feed_spec().take(n as int) =~= self.feed_spec());
        }
        out
    }

    /// Evaluates the round trip between the cheapest and the dearest pool
    /// under the closed-form model (9 bps flash fee, 25 bps swap fee per
    /// leg): `None` when the spread is under one percent, the liquidity gates
    /// fail, the numbers overflow, or the profit stays under the detector's
    /// floor; an emitted opportunity always carries a positive expected
    /// profit at a strictly positive spread.
    pub fn calculate_profit(&self, buy_pool: &PoolPrice, sell_pool: &PoolPrice, now: i64) -> (r:
        Option<ArbitrageOpportunity>)
        requires
            0 <= buy_pool.timestamp <= now,
            0 <= sell_pool.timestamp <= now,
        ensures
            r is None <==> profit_rejects(
                *buy_pool,
                *sell_pool,
                self.min_profit_spec(),
                self.max_loan_spec(),
            ),
            r matches Some(o) ==> {
                let loan = optimal_loan_spec(
                    buy_pool.liquidity as int,
                    sell_pool.liquidity as int,
                    self.max_loan_spec() as int,
                );
                &&& o.price_b > o.price_a > 0
                &&& o.price_a == buy_pool.price && o.price_b == sell_pool.price
                &&& o.expected_profit >= self.min_profit_spec() && o.expected_profit > 0
                &&& o.loan_amount == loan
                &&& o.expected_profit == closed_form_received_spec(
                    loan,
                    25,
                    buy_pool.price as int,
                    sell_pool.price as int,
                ) - repayment_spec(loan, 900)
                &&& o.pool_a == buy_pool.pool && o.pool_b == sell_pool.pool
                &&& o.timestamp == now
            },
    {
        if buy_pool.price == 0 || sell_pool.price <= buy_pool.price {
            return None;
        }
        // spread must clear one percent before fees are worth paying
        let spread: u128 = sell_pool.price - buy_pool.price;
        let spread_ppm_w: u128 = if spread > u128::MAX / 1_000_000 {
            u128::MAX
        } else {
            spread * 1_000_000 / buy_pool.price
        };
        if spread_ppm_w < 10_000 {
            return None;
        }
        let spread_ppm: u64 = if spread_ppm_w > u64::MAX as u128 {
            u64::MAX
        } else {
            spread_ppm_w as u64
        };
        let loan = self.calculate_optimal_loan_size(buy_pool, sell_pool);
        let sim = match crate::flash::simulate_flash_loan_detailed(
            loan,
            buy_pool.price,
            sell_pool.price,
            buy_pool.pool,
            sell_pool.pool,
            25,
            900,
        ) {
            Some(s) => s,
            None => {
                return None;
            },
        };
        if !sim.would_succeed {
            return None;
        }
        if sim.net_profit < self.min_profit_threshold || sim.net_profit == 0 {
            return None;
        }
        let confidence = self.calculate_confidence(buy_pool, sell_pool, spread_ppm, now);
        Some(
            ArbitrageOpportunity {
                pool_a: buy_pool.pool,
                pool_b: sell_pool.pool,
                pool_a_protocol: buy_pool.protocol,
                pool_b_protocol: sell_pool.protocol,
                base_token: buy_pool.token0,
                quote_token: buy_pool.token1,
                price_a: buy_pool.price,
                price_b: sell_pool.price,
                expected_profit: sim.net_profit,
                loan_amount: loan,
                timestamp: now,
                confidence,
            },
        )
    }

    /// Looks for the widest-spread opportunity among the feed's entries for a
    /// pair: filters the per-pool liquidity floor, checks the combined floor
    /// over the chosen two, and evaluates the round trip. Anything emitted
    /// has a positive spread and clears the profit floor.
    pub fn find_arbitrage_opportunity(&self, token0: Key, token1: Key, now: i64) -> (r: Option<
        ArbitrageOpportunity,
    >)
        ensures
            ({
                let entries = self.feed_spec().filter(pair_entry_filter(pair_of(token0, token1)));
                let liquid = entries.filter(
                    liquid_entry_filter(self.min_liquidity_spec(), now),
                );
                &&& (r is Some <==> entries.len() >= 2 && liquid.len() >= 2 && sat_add_u128(
                    min_by_price(liquid).liquidity as int,
                    max_by_price(liquid).liquidity as int,
                ) >= self.min_combined_spec() && !profit_rejects(
                    min_by_price(liquid),
                    max_by_price(liquid),
                    self.min_profit_spec(),
                    self.max_loan_spec(),
                ))
                &&& (r matches Some(o) ==> o.pool_a == min_by_price(liquid).pool && o.pool_b
                    == max_by_price(liquid).pool && o.price_a == min_by_price(liquid).price
                    && o.price_b == max_by_price(liquid).price && o.price_b > o.price_a > 0
                    && o.expected_profit >= self.min_profit_spec() && o.expected_profit > 0)
            }),
    {
        broadcast use group_filter_ensures;

        let ghost entries = self.feed_spec().filter(pair_entry_filter(pair_of(token0, token1)));
        let ghost lpred = liquid_entry_filter(self.min_liquidity_spec(), now);
        let prices = self.prices_for_pair(token0, token1);
        if prices.len() < 2 {
            proof {
                if entries.filter(lpred).len() >= 2 {
                    Seq::lemma_filter_len(entries, lpred);
                }
            }
            return None;
        }
        let mut liquid: Vec<PoolPrice> = Vec::new();
        let n = prices.len();
        proof {
            assert(entries.take(0int) =~= Seq::<PoolPrice>::empty());
            assert(Seq::<PoolPrice>::empty().filter(lpred) =~= Seq::<PoolPrice>::empty()) by {
                reveal(Seq::filter);
            }
        }
        for i in 0..n
            invariant
                n == prices@.len(),
                prices@ == entries,
                lpred == liquid_entry_filter(self.min_liquidity_spec(), now),
                liquid@ == entries.take(i as int).filter(lpred),
        {
            let p = prices[i];
            proof {
                assert(entries.take(i + 1).drop_last() =~= entries.take(i as int));
                assert(entries.take(i + 1) =~= entries.take(i as int).push(entries[i as int]));
                Seq::lemma_filter_push(entries.take(i as int), entries[i as int], lpred);
            }
            if p.liquidity >= self.min_liquidity_threshold && 0 <= p.timestamp && p.timestamp
                <= now {
                liquid.push(p);
            }
        }
        proof {
            assert(entries.take(n as int) =~= entries);
        }
        if liquid.len() < 2 {
            return None;
        }
        let (min_pool, max_pool) = match self.find_price_spread(&liquid) {
            Some(mm) => mm,
            None => {
                return None;
            },
        };
        proof {
            lemma_min_upto_mem(liquid@, liquid@.len() as int);
            lemma_max_upto_mem(liquid@, liquid@.len() as int);
            let wmin = choose|w: int|
                0 <= w < liquid@.len() && liquid@[w] == min_by_price_upto(
                    liquid@,
                    liquid@.len() as int,
                );
            let wmax = choose|w: int|
                0 <= w < liquid@.len() && liquid@[w] == max_by_price_upto(
                    liquid@,
                    liquid@.len() as int,
                );
            Seq::lemma_filter_pred(entries, lpred, wmin);
            Seq::lemma_filter_pred(entries, lpred, wmax);
        }
        let combined = sat_add(min_pool.liquidity, max_pool.liquidity);
        if combined < self.min_combined_liquidity {
            return None;
        }
        self.calculate_profit(&min_pool, &max_pool, now)
    }
}

/// Saturating 128-bit addition.
fn sat_add(a: u128, b: u128) -> (r: u128)
    ensures
        r == sat_add_u128(a as int, b as int),
{
    if a > u128::MAX - b {
        u128::MAX
    } else {
        a + b
    }
}

/// Saturating multiplication by ten.
fn sat_mul10(a: u128) -> (r: u128)
    ensures
        r == sat_mul10_u128(a as int),
{
    if a > u128::MAX / 10 {
        proof {
            vstd::arithmetic::div_mod::lemma_fundamental_div_mod(u128::MAX as int, 10int);
            vstd::arithmetic::div_mod::lemma_mod_bound(u128::MAX as int, 10int);
        }
        u128::MAX
    } else {
        proof {
            vstd::arithmetic::div_mod::lemma_fundamental_div_mod(u128::MAX as int, 10int);
            vstd::arithmetic::div_mod::lemma_mod_bound(u128::MAX as int, 10int);
        }
        a * 10
    }
}

/// `num * PRICE_SCALE / den`, saturated to 128 bits, exact below the
/// saturation point.
fn scaled_ratio(num: u128, den: u128) -> (r: u128)
    requires
        den > 0,
    ensures
        r == scaled_ratio_spec(num as int, den as int),
{
    if num > u128::MAX / PRICE_SCALE {
        // the ratio cannot be represented; saturate
        u128::MAX
    } else {
        proof {
            vstd::arithmetic::div_mod::lemma_fundamental_div_mod(
                u128::MAX as int,
                PRICE_SCALE as int,
            );
            vstd::arithmetic::div_mod::lemma_mod_bound(u128::MAX as int, PRICE_SCALE as int);
            lemma_mul_is_commutative((u128::MAX as int) / (PRICE_SCALE as int), PRICE_SCALE as int);
            vstd::arithmetic::mul::lemma_mul_inequality(
                num as int,
                (u128::MAX as int) / (PRICE_SCALE as int),
                PRICE_SCALE as int,
            );
        }
        num * PRICE_SCALE / den
    }
}

} // verus!

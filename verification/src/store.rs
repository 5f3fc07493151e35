//! The pool-state store: the authoritative collection of [`PoolState`]
//! records, keyed by pool identifier. An upsert that violates the tradability
//! invariants, or that would move a pool's update time backwards, leaves the
//! store unchanged; reads by pair filter out entries older than the
//! configured maximum age. The pair index is derived from the records on
//! every lookup, so it can never disagree with them.

use vstd::prelude::*;
use vstd::seq_lib::group_filter_ensures;
use crate::keys::{pair_of, Key, TokenPair};
use crate::numeric::PPM;
use crate::pool::{pool_out_spec, pool_prob_spec, tradable, PoolState};

verus! {

/// No two records carry the same pool identifier.
pub open spec fn unique_ids(s: Seq<PoolState>) -> bool {
    forall|i: int, j: int|
        0 <= i < j < s.len() ==> (#[trigger] s[i]).pool_id != (#[trigger] s[j]).pool_id
}

/// Whether some record carries the identifier.
pub open spec fn has_pool(s: Seq<PoolState>, id: Key) -> bool {
    exists|i: int| 0 <= i < s.len() && (#[trigger] s[i]).pool_id == id
}

/// The index of the record carrying the identifier.
pub open spec fn pool_index(s: Seq<PoolState>, id: Key) -> int {
    choose|i: int| 0 <= i < s.len() && (#[trigger] s[i]).pool_id == id
}

/// A record is fresh at `now` when it is at most `max_age` seconds old.
pub open spec fn fresh_at(p: PoolState, now: u64, max_age: u64) -> bool {
    p.last_updated_unix + max_age >= now
}

/// A record quotes the normalized pair of the two tokens.
pub open spec fn on_pair(p: PoolState, pair: TokenPair) -> bool {
    pair_of(p.token_a, p.token_b) == pair
}

/// The predicate selecting the records served for a pair at `now`: on the
/// pair and fresh.
pub open spec fn served_filter(pair: TokenPair, now: u64, max_age: u64) -> spec_fn(
    PoolState,
) -> bool {
    |q: PoolState| on_pair(q, pair) && fresh_at(q, now, max_age)
}

/// The predicate selecting the records fresh at `now`.
pub open spec fn fresh_filter(now: u64, max_age: u64) -> spec_fn(PoolState) -> bool {
    |q: PoolState| fresh_at(q, now, max_age)
}

/// Routing score of a pool for a given input: expected output, i.e. the
/// quoted output weighted by the execution probability (in output
/// micro-units).
pub open spec fn pool_score_spec(p: PoolState, amount_in: int, token_in: Key) -> int {
    let a_to_b = p.token_a == token_in;
    pool_out_spec(p, amount_in, a_to_b, p.total_fee_bps as int) * pool_prob_spec(
        p,
        amount_in,
        a_to_b,
    )
}

/// Filtering a sequence with unique identifiers keeps them unique.
proof fn lemma_filter_unique_ids(s: Seq<PoolState>, pred: spec_fn(PoolState) -> bool)
    requires
        unique_ids(s),
    ensures
        unique_ids(s.filter(pred)),
    decreases s.len(),
{
    broadcast use group_filter_ensures;

    if s.len() == 0 {
        assert(s.filter(pred) =~= Seq::<PoolState>::empty()) by {
            reveal(Seq::filter);
        }
    } else {
        let init = s.drop_last();
        let last = s.last();
        assert(unique_ids(init)) by {
            assert(forall|i: int| 0 <= i < init.len() ==> init[i] == s[i]);
        }
        lemma_filter_unique_ids(init, pred);
        assert(init.push(last) =~= s);
        Seq::lemma_filter_push(init, last, pred);
        if pred(last) {
            let f = init.filter(pred).push(last);
            assert forall|i: int, j: int| 0 <= i < j < f.len() implies (#[trigger] f[i]).pool_id
                != (#[trigger] f[j]).pool_id by {
                if j == f.len() - 1 {
                    let elem = init.filter(pred)[i];
                    assert(init.filter(pred).contains(elem));
                    Seq::lemma_filter_contains_rev(init, pred, elem);
                    let k = choose|k: int| 0 <= k < init.len() && init[k] == elem;
                    assert(s[k] == elem && s[s.len() - 1] == last);
                }
            }
        }
    }
}

/// Summary statistics of the store.
#[derive(Clone, Copy, Debug, PartialEq, Eq, Structural)]
pub struct LiquidityStats {
    /// Number of records held.
    pub total_pools: usize,
    /// Number of distinct token pairs among them.
    pub token_pairs: usize,
    /// Sum of the records' liquidity fields, saturated.
    pub total_liquidity: u128,
}

/// The sum of the liquidity fields of a sequence of records, saturated at
/// `u128::MAX`.
pub open spec fn liquidity_sum(s: Seq<PoolState>) -> int
    decreases s.len(),
{
    if s.len() == 0 {
        0int
    } else {
        let rest = liquidity_sum(s.drop_last());
        if rest + s.last().liquidity > u128::MAX {
            u128::MAX as int
        } else {
            rest + s.last().liquidity
        }
    }
}

/// The pool-state store. It exclusively owns the records; reads hand out
/// copies.
pub struct LiquidityMonitor {
    pools: Vec<PoolState>,
    max_pool_age_secs: u64,
}

impl LiquidityMonitor {
    /// The records, in insertion order.
    pub closed spec fn view(&self) -> Seq<PoolState> {
        self.pools@
    }

    /// Maximum age, in seconds, before a record stops being served.
    pub closed spec fn max_age_spec(&self) -> u64 {
        self.max_pool_age_secs
    }

    /// Store invariant: pool identifiers are unique.
    pub open spec fn wf(&self) -> bool {
        unique_ids(self.view())
    }

    /// An empty store serving records up to `max_pool_age_secs` old.
    pub fn new(max_pool_age_secs: u64) -> (r: LiquidityMonitor)
        ensures
            r.wf(),
            r.view() =~= Seq::<PoolState>::empty(),
            r.max_age_spec() == max_pool_age_secs,
    {
        LiquidityMonitor { pools: Vec::new(), max_pool_age_secs }
    }

    /// Inserts or overwrites the record for `p.pool_id`. An untradable state
    /// is rejected and the store is left exactly as it was; so is a state
    /// older than the one held, keeping each pool's update time
    /// non-decreasing.
    pub fn update_pool(&mut self, p: PoolState)
        requires
            old(self).wf(),
        ensures
            final(self).wf(),
            final(self).max_age_spec() == old(self).max_age_spec(),
            !tradable(p) ==> final(self).view() == old(self).view(),
            tradable(p) && !has_pool(old(self).view(), p.pool_id) ==> final(self).view() == old(
                self,
            ).view().push(p),
            tradable(p) && has_pool(old(self).view(), p.pool_id) ==> {
                let i = pool_index(old(self).view(), p.pool_id);
                if old(self).view()[i].last_updated_unix <= p.last_updated_unix {
                    final(self).view() == old(self).view().update(i, p)
                } else {
                    final(self).view() == old(self).view()
                }
            },
    {
        if !p.is_tradable() {
            return ;
        }
        let n = self.pools.len();
        let ghost s = self.pools@;
        for i in 0..n
            invariant
                self.pools@ == s,
                s == old(self).view(),
                n == s.len(),
                unique_ids(s),
                tradable(p),
                self.max_pool_age_secs == old(self).max_pool_age_secs,
                forall|j: int| 0 <= j < i ==> (#[trigger] s[j]).pool_id != p.pool_id,
        {
            if self.pools[i].pool_id == p.pool_id {
                proof {
                    assert(has_pool(s, p.pool_id));
                    let k = pool_index(s, p.pool_id);
                    assert(0 <= k < s.len() && s[k].pool_id == p.pool_id);
                    assert(k == i as int);
                }
                if self.pools[i].last_updated_unix <= p.last_updated_unix {
                    self.pools.set(i, p);
                    proof {
                        assert forall|a: int, b: int| 0 <= a < b < self.pools@.len() implies (
                        #[trigger] self.pools@[a]).pool_id != (#[trigger] self.pools@[b]).pool_id by {
                            assert(s[a].pool_id != s[b].pool_id);
                        }
                    }
                }
                return ;
            }
        }
        assert(!has_pool(s, p.pool_id));
        self.pools.push(p);
        proof {
            assert forall|a: int, b: int| 0 <= a < b < self.pools@.len() implies (
            #[trigger] self.pools@[a]).pool_id != (#[trigger] self.pools@[b]).pool_id by {
                if b < s.len() {
                    assert(s[a].pool_id != s[b].pool_id);
                } else {
                    assert(self.pools@[b] == p && self.pools@[a] == s[a]);
                }
            }
        }
    }

    /// A copy of the record for `address`, if one is held.
    pub fn get_pool(&self, address: &Key) -> (r: Option<PoolState>)
        requires
            self.wf(),
        ensures
            r is Some <==> has_pool(self.view(), *address),
            r matches Some(p) ==> p == self.view()[pool_index(self.view(), *address)],
    {
        let n = self.pools.len();
        for i in 0..n
            invariant
                n == self.view().len(),
                self.wf(),
                forall|j: int| 0 <= j < i ==> (#[trigger] self.view()[j]).pool_id != *address,
        {
            if self.pools[i].pool_id == *address {
                proof {
                    assert(has_pool(self.view(), *address));
                    let k = pool_index(self.view(), *address);
                    assert(0 <= k < self.view().len() && self.view()[k].pool_id == *address);
                }
                return Some(self.pools[i]);
            }
        }
        None
    }

    /// Copies of the fresh records quoting the (normalized) pair of the two
    /// tokens: exactly the store's records served at `now`, in store order.
    pub fn get_pools_for_pair(&self, token_a: Key, token_b: Key, now: u64) -> (r: Vec<PoolState>)
        requires
            self.wf(),
        ensures
            r@ == self.view().filter(
                served_filter(pair_of(token_a, token_b), now, self.max_age_spec()),
            ),
            unique_ids(r@),
    {
        broadcast use group_filter_ensures;

        let pair = TokenPair::new(token_a, token_b);
        let ghost pred = served_filter(pair_of(token_a, token_b), now, self.max_age_spec());
        let mut out: Vec<PoolState> = Vec::new();
        let n = self.pools.len();
        proof {
            assert(self.view().take(0int) =~= Seq::<PoolState>::empty());
            assert(Seq::<PoolState>::empty().filter(pred) =~= Seq::<PoolState>::empty()) by {
                reveal(Seq::filter);
            }
        }
        for i in 0..n
            invariant
                n == self.view().len(),
                self.wf(),
                pair == pair_of(token_a, token_b),
                pred == served_filter(pair_of(token_a, token_b), now, self.max_age_spec()),
                out@ == self.view().take(i as int).filter(pred),
        {
            let p = self.pools[i];
            let candidate_pair = TokenPair::new(p.token_a, p.token_b);
            let pair_ok = candidate_pair.base == pair.base && candidate_pair.quote == pair.quote;
            let fresh_ok = if p.last_updated_unix > u64::MAX - self.max_pool_age_secs {
                true
            } else {
                p.last_updated_unix + self.max_pool_age_secs >= now
            };
            proof {
                assert(self.view().take(i + 1).drop_last() =~= self.view().take(i as int));
                assert(self.view().take(i + 1) =~= self.view().take(i as int).push(
                    self.view()[i as int],
                ));
                Seq::lemma_filter_push(self.view().take(i as int), self.view()[i as int], pred);
                assert(pair_ok == on_pair(p, pair_of(token_a, token_b)));
                assert(fresh_ok == fresh_at(p, now, self.max_age_spec()));
                assert(pred(self.view()[i as int]) == (on_pair(p, pair_of(token_a, token_b))
                    && fresh_at(p, now, self.max_age_spec())));
            }
            if pair_ok && fresh_ok {
                out.push(p);
            }
        }
        proof {
            assert(self.view().take(n as int) =~= self.view());
            lemma_filter_unique_ids(self.view(), pred);
        }
        out
    }

    /// Drops every record older than the maximum age at `now`, keeping
    /// exactly the fresh ones in order.
    pub fn clean_stale_pools(&mut self, now: u64)
        requires
            old(self).wf(),
        ensures
            final(self).wf(),
            final(self).max_age_spec() == old(self).max_age_spec(),
            final(self).view() == old(self).view().filter(
                fresh_filter(now, old(self).max_age_spec()),
            ),
    {
        broadcast use group_filter_ensures;

        let ghost pred = fresh_filter(now, self.max_pool_age_secs);
        let mut kept: Vec<PoolState> = Vec::new();
        let n = self.pools.len();
        proof {
            assert(self.view().take(0int) =~= Seq::<PoolState>::empty());
            assert(Seq::<PoolState>::empty().filter(pred) =~= Seq::<PoolState>::empty()) by {
                reveal(Seq::filter);
            }
        }
        for i in 0..n
            invariant
                n == self.view().len(),
                self.view() == old(self).view(),
                self.max_pool_age_secs == old(self).max_pool_age_secs,
                self.wf(),
                pred == fresh_filter(now, self.max_pool_age_secs),
                kept@ == self.view().take(i as int).filter(pred),
        {
            let p = self.pools[i];
            let fresh_ok = if p.last_updated_unix > u64::MAX - self.max_pool_age_secs {
                true
            } else {
                p.last_updated_unix + self.max_pool_age_secs >= now
            };
            proof {
                assert(self.view().take(i + 1).drop_last() =~= self.view().take(i as int));
                assert(self.view().take(i + 1) =~= self.view().take(i as int).push(
                    self.view()[i as int],
                ));
                Seq::lemma_filter_push(self.view().take(i as int), self.view()[i as int], pred);
                assert(fresh_ok == pred(self.view()[i as int]));
            }
            if fresh_ok {
                kept.push(p);
            }
        }
        proof {
            assert(self.view().take(n as int) =~= self.view());
            lemma_filter_unique_ids(old(self).view(), pred);
        }
        self.pools = kept;
    }

    /// The pool among the records served for `(token_in, token_out)` at `now`
    /// with the greatest expected output for `amount_in`: no served tradable
    /// pool scores strictly higher. Returns the pool, its quoted output, and
    /// the score in output micro-units.
    pub fn find_best_pool(&self, token_in: Key, token_out: Key, amount_in: u64, now: u64) -> (r:
        Option<(PoolState, u64, u128)>)
        requires
            self.wf(),
        ensures
            ({
                let cands = self.view().filter(
                    served_filter(pair_of(token_in, token_out), now, self.max_age_spec()),
                );
                &&& r is Some <==> exists|i: int|
                    0 <= i < cands.len() && tradable(#[trigger] cands[i])
                &&& r matches Some(b) ==> (exists|i: int|
                    0 <= i < cands.len() && #[trigger] cands[i] == b.0 && tradable(b.0)) && b.2
                    == pool_score_spec(b.0, amount_in as int, token_in) && b.1 == pool_out_spec(
                    b.0,
                    amount_in as int,
                    b.0.token_a == token_in,
                    b.0.total_fee_bps as int,
                )
                &&& r matches Some(b) ==> forall|i: int|
                    0 <= i < cands.len() && tradable(#[trigger] cands[i]) ==> pool_score_spec(
                        cands[i],
                        amount_in as int,
                        token_in,
                    ) <= b.2
            }),
    {
        let pools = self.get_pools_for_pair(token_in, token_out, now);
        let ghost cands = self.view().filter(
            served_filter(pair_of(token_in, token_out), now, self.max_age_spec()),
        );
        let mut best: Option<(PoolState, u64, u128)> = None;
        let n = pools.len();
        for i in 0..n
            invariant
                pools@ == cands,
                n == cands.len(),
                best is Some <==> exists|j: int| 0 <= j < i && tradable(#[trigger] cands[j]),
                best matches Some(b) ==> (exists|j: int|
                    0 <= j < i && #[trigger] cands[j] == b.0 && tradable(b.0)) && b.2
                    == pool_score_spec(b.0, amount_in as int, token_in) && b.1 == pool_out_spec(
                    b.0,
                    amount_in as int,
                    b.0.token_a == token_in,
                    b.0.total_fee_bps as int,
                ),
                best matches Some(b) ==> forall|j: int|
                    0 <= j < i && tradable(#[trigger] cands[j]) ==> pool_score_spec(
                        cands[j],
                        amount_in as int,
                        token_in,
                    ) <= b.2,
        {
            let p = pools[i];
            if p.is_tradable() {
                let a_to_b = p.token_a == token_in;
                let (output, _impact) = p.calculate_price_impact(amount_in, a_to_b);
                let prob = p.execution_probability(amount_in, a_to_b);
                proof {
                    vstd::arithmetic::mul::lemma_mul_upper_bound(
                        output as int,
                        u64::MAX as int,
                        prob as int,
                        PPM as int,
                    );
                    vstd::arithmetic::mul::lemma_mul_nonnegative(output as int, prob as int);
                }
                let score: u128 = (output as u128) * (prob as u128);
                let better = match &best {
                    Some(b) => score > b.2,
                    None => true,
                };
                if better {
                    best = Some((p, output, score));
                }
            }
        }
        best
    }

    /// Summary statistics: record count, distinct pairs, and total liquidity
    /// (saturated).
    pub fn stats(&self) -> (r: LiquidityStats)
        requires
            self.wf(),
        ensures
            r.total_pools == self.view().len(),
            r.token_pairs <= r.total_pools,
            r.total_liquidity == liquidity_sum(self.view()),
    {
        let n = self.pools.len();
        let mut pairs: Vec<TokenPair> = Vec::new();
        let mut total: u128 = 0;
        for i in 0..n
            invariant
                n == self.view().len(),
                pairs@.len() <= i,
                total == liquidity_sum(self.view().take(i as int)),
        {
            let p = self.pools[i];
            let pair = TokenPair::new(p.token_a, p.token_b);
            let mut seen = false;
            let m = pairs.len();
            for k in 0..m
                invariant
                    m == pairs@.len(),
            {
                if pairs[k].base == pair.base && pairs[k].quote == pair.quote {
                    seen = true;
                }
            }
            if !seen {
                pairs.push(pair);
            }
            proof {
                assert(self.view().take(i + 1).drop_last() =~= self.view().take(i as int));
                assert(self.view().take(i + 1).last() == self.view()[i as int]);
            }
            if total > u128::MAX - p.liquidity {
                total = u128::MAX;
            } else {
                total = total + p.liquidity;
            }
        }
        proof {
            assert(self.view().take(n as int) =~= self.view());
        }
        LiquidityStats { total_pools: n, token_pairs: pairs.len(), total_liquidity: total }
    }
}

} // verus!

//! The event-driven engine: the arbitrage detector that owns the pool-state
//! store and the opportunity ranker, the typed event stream it consumes, the
//! health counters, and the reconnect/backoff policy of the stream
//! orchestrator. The transport itself lives outside; it hands typed events in
//! and performs the sleeps and reconnects this module decides.

use vstd::prelude::*;
use crate::keys::{pair_of, Key, TokenPair};
use crate::pool::{tradable, PoolState};
use crate::ranker::{live_filter, sorted_by_ev_desc, OpportunityRanker};
use crate::search::{
    cfg_wf, find_opportunities_for_pair, lemma_search_complete_extend, opp_wf, passes_gates_spec,
    search_complete, ArbConfig, EnhancedArbitrageOpportunity,
};
use crate::store::{has_pool, pool_index, LiquidityMonitor};

verus! {

/// A token pair watched by the detector.
#[derive(Clone, Debug)]
pub struct MonitoredPair {
    /// Display name of the market.
    pub name: String,
    pub token_a: Key,
    pub token_b: Key,
}

/// The cross-pool arbitrage detector: the pool-state store, the watched
/// pairs, the ranked opportunities, and the search configuration.
pub struct EnhancedArbitrageDetector {
    pools: LiquidityMonitor,
    monitored_pairs: Vec<MonitoredPair>,
    opportunities: OpportunityRanker,
    config: ArbConfig,
}

impl EnhancedArbitrageDetector {
    /// The search configuration in force.
    pub closed spec fn config_spec(&self) -> ArbConfig {
        self.config
    }

    /// The pool-state store.
    pub closed spec fn pools_spec(&self) -> LiquidityMonitor {
        self.pools
    }

    /// The ranked opportunities.
    pub closed spec fn ranker_spec(&self) -> OpportunityRanker {
        self.opportunities
    }

    /// The watched pairs.
    pub closed spec fn pairs_spec(&self) -> Seq<MonitoredPair> {
        self.monitored_pairs@
    }

    /// Detector invariant: the store and ranker invariants, and a
    /// well-formed configuration.
    pub open spec fn wf(&self) -> bool {
        &&& self.pools_spec().wf()
        &&& self.ranker_spec().wf()
        &&& cfg_wf(self.config_spec())
        &&& forall|k: int|
            0 <= k < self.ranker_spec().view().len() ==> opp_wf(
                #[trigger] self.ranker_spec().view()[k],
            )
    }

    /// A detector watching the given pairs: an empty store serving records up
    /// to `max_pool_age_secs` old, and an empty ranker capped at
    /// `max_opportunities`.
    pub fn new(
        monitored_pairs: Vec<MonitoredPair>,
        config: ArbConfig,
        max_pool_age_secs: u64,
        max_opportunities: usize,
    ) -> (r: EnhancedArbitrageDetector)
        requires
            cfg_wf(config),
            max_opportunities >= 1,
        ensures
            r.wf(),
            r.config_spec() == config,
            r.pools_spec().view() =~= Seq::<PoolState>::empty(),
            r.ranker_spec().view() =~= Seq::<EnhancedArbitrageOpportunity>::empty(),
    {
        EnhancedArbitrageDetector {
            pools: LiquidityMonitor::new(max_pool_age_secs),
            monitored_pairs,
            opportunities: OpportunityRanker::new(max_opportunities),
            config,
        }
    }

    /// Read access to the pool-state store.
    pub fn pools_ref(&self) -> (r: &LiquidityMonitor)
        ensures
            *r == self.pools_spec(),
    {
        &self.pools
    }

    /// Feeds one pool state into the store: an untradable or stale-regressed
    /// state leaves the store exactly as it was; a valid one appends the
    /// record or replaces the pool's existing record, touching nothing else.
    pub fn update_pool_state(&mut self, pool_state: PoolState)
        requires
            old(self).wf(),
        ensures
            final(self).wf(),
            final(self).config_spec() == old(self).config_spec(),
            final(self).ranker_spec() == old(self).ranker_spec(),
            final(self).pairs_spec() == old(self).pairs_spec(),
            !tradable(pool_state) ==> final(self).pools_spec().view() == old(
                self,
            ).pools_spec().view(),
            tradable(pool_state) && !has_pool(old(self).pools_spec().view(), pool_state.pool_id)
                ==> final(self).pools_spec().view() == old(self).pools_spec().view().push(
                pool_state,
            ),
            tradable(pool_state) && has_pool(old(self).pools_spec().view(), pool_state.pool_id)
                ==> {
                let i = pool_index(old(self).pools_spec().view(), pool_state.pool_id);
                if old(self).pools_spec().view()[i].last_updated_unix
                    <= pool_state.last_updated_unix {
                    final(self).pools_spec().view() == old(self).pools_spec().view().update(
                        i,
                        pool_state,
                    )
                } else {
                    final(self).pools_spec().view() == old(self).pools_spec().view()
                }
            },
    {
        self.pools.update_pool(pool_state);
    }

    /// Searches one pair now, without touching the ranker: every emitted
    /// candidate is internally consistent and clears the acceptance gates.
    pub fn find_opportunities_for_pair(&self, token_a: Key, token_b: Key, now: u64) -> (r: Vec<
        EnhancedArbitrageOpportunity,
    >)
        requires
            self.wf(),
        ensures
            forall|k: int|
                0 <= k < r@.len() ==> opp_wf(#[trigger] r@[k]) && passes_gates_spec(
                    r@[k],
                    self.config_spec(),
                ) && r@[k].token_pair == pair_of(token_a, token_b) && r@[k].observed_unix == now,
            search_complete(
                r@,
                self.pools_spec().view(),
                self.pools_spec().max_age_spec(),
                token_a,
                token_b,
                self.config_spec(),
                now,
            ),
    {
        find_opportunities_for_pair(&self.pools, token_a, token_b, &self.config, now)
    }

    /// Scans every monitored pair and replaces the ranked collection with the
    /// result, atomically. Returns the new ranking, best first: every entry
    /// is internally consistent, clears the gates, and was observed at `now`.
    pub fn scan_arbitrage_opportunities(&mut self, now: u64) -> (r: Vec<
        EnhancedArbitrageOpportunity,
    >)
        requires
            old(self).wf(),
        ensures
            final(self).wf(),
            final(self).config_spec() == old(self).config_spec(),
            final(self).pools_spec() == old(self).pools_spec(),
            r@ == final(self).ranker_spec().view(),
            sorted_by_ev_desc(r@),
            forall|k: int|
                0 <= k < r@.len() ==> opp_wf(#[trigger] r@[k]) && passes_gates_spec(
                    r@[k],
                    old(self).config_spec(),
                ) && r@[k].observed_unix == now,
            r@.len() < final(self).ranker_spec().n_max_spec() ==> forall|m: int|
                0 <= m < old(self).pairs_spec().len() ==> search_complete(
                    r@,
                    old(self).pools_spec().view(),
                    old(self).pools_spec().max_age_spec(),
                    (#[trigger] old(self).pairs_spec()[m]).token_a,
                    old(self).pairs_spec()[m].token_b,
                    old(self).config_spec(),
                    now,
                ),
    {
        let mut collected: Vec<EnhancedArbitrageOpportunity> = Vec::new();
        let n = self.monitored_pairs.len();
        for i in 0..n
            invariant
                n == self.monitored_pairs@.len(),
                self.wf(),
                self == old(self),
                forall|k: int|
                    0 <= k < collected@.len() ==> opp_wf(#[trigger] collected@[k])
                        && passes_gates_spec(collected@[k], self.config_spec())
                        && collected@[k].observed_unix == now,
                forall|m: int|
                    0 <= m < i ==> search_complete(
                        collected@,
                        old(self).pools_spec().view(),
                        old(self).pools_spec().max_age_spec(),
                        (#[trigger] old(self).pairs_spec()[m]).token_a,
                        old(self).pairs_spec()[m].token_b,
                        old(self).config_spec(),
                        now,
                    ),
        {
            let pair_cfg = &self.monitored_pairs[i];
            let found = find_opportunities_for_pair(
                &self.pools,
                pair_cfg.token_a,
                pair_cfg.token_b,
                &self.config,
                now,
            );
            let ghost base = collected@;
            let ghost add = found@;
            let mut rest = found;
            proof {
                assert(add.skip(0int) =~= add);
                assert(base + add.take(0int) =~= base);
            }
            let ghost mut t: int = 0;
            while rest.len() > 0
                invariant
                    0 <= t <= add.len(),
                    rest@ == add.skip(t),
                    collected@ == base + add.take(t),
                    forall|k: int|
                        0 <= k < add.len() ==> opp_wf(#[trigger] add[k]) && passes_gates_spec(
                            add[k],
                            self.config_spec(),
                        ) && add[k].observed_unix == now,
                    forall|k: int|
                        0 <= k < base.len() ==> opp_wf(#[trigger] base[k]) && passes_gates_spec(
                            base[k],
                            self.config_spec(),
                        ) && base[k].observed_unix == now,
                    self == old(self),
                decreases rest@.len(),
            {
                let o = rest.remove(0);
                proof {
                    assert(add.skip(t)[0] == add[t]);
                    assert(add.skip(t).subrange(1, add.skip(t).len() as int) =~= add.skip(t + 1));
                    assert(base + add.take(t + 1) =~= (base + add.take(t)).push(add[t]));
                }
                collected.push(o);
                proof {
                    t = t + 1;
                }
            }
            proof {
                assert(add.take(t) =~= add);
                assert(collected@ == base + add);
                // the earlier pairs' results are still all present
                assert forall|m: int| 0 <= m < i + 1 implies search_complete(
                    collected@,
                    old(self).pools_spec().view(),
                    old(self).pools_spec().max_age_spec(),
                    (#[trigger] old(self).pairs_spec()[m]).token_a,
                    old(self).pairs_spec()[m].token_b,
                    old(self).config_spec(),
                    now,
                ) by {
                    if m < i {
                        assert forall|x: EnhancedArbitrageOpportunity| base.contains(x)
                            implies collected@.contains(x) by {
                            let w = choose|w: int| 0 <= w < base.len() && base[w] == x;
                            assert(collected@[w] == x);
                        }
                        lemma_search_complete_extend(
                            base,
                            collected@,
                            old(self).pools_spec().view(),
                            old(self).pools_spec().max_age_spec(),
                            old(self).pairs_spec()[m].token_a,
                            old(self).pairs_spec()[m].token_b,
                            old(self).config_spec(),
                            now,
                        );
                    } else {
                        assert forall|x: EnhancedArbitrageOpportunity| add.contains(x)
                            implies collected@.contains(x) by {
                            let w = choose|w: int| 0 <= w < add.len() && add[w] == x;
                            assert(collected@[base.len() + w] == x);
                        }
                        lemma_search_complete_extend(
                            add,
                            collected@,
                            old(self).pools_spec().view(),
                            old(self).pools_spec().max_age_spec(),
                            old(self).pairs_spec()[m].token_a,
                            old(self).pairs_spec()[m].token_b,
                            old(self).config_spec(),
                            now,
                        );
                    }
                }
            }
        }
        let ghost all = collected@;
        self.opportunities.replace_all(&collected);
        let result = self.opportunities.get_opportunities();
        proof {
            if result@.len() < self.ranker_spec().n_max_spec() {
                assert(all.len() <= self.ranker_spec().n_max_spec());
                assert forall|x: EnhancedArbitrageOpportunity| all.contains(x)
                    implies result@.contains(x) by {
                    let w = choose|w: int| 0 <= w < all.len() && all[w] == x;
                    assert(self.ranker_spec().view().contains(all[w]));
                }
                assert forall|m: int| 0 <= m < old(self).pairs_spec().len()
                    implies search_complete(
                    result@,
                    old(self).pools_spec().view(),
                    old(self).pools_spec().max_age_spec(),
                    (#[trigger] old(self).pairs_spec()[m]).token_a,
                    old(self).pairs_spec()[m].token_b,
                    old(self).config_spec(),
                    now,
                ) by {
                    lemma_search_complete_extend(
                        all,
                        result@,
                        old(self).pools_spec().view(),
                        old(self).pools_spec().max_age_spec(),
                        old(self).pairs_spec()[m].token_a,
                        old(self).pairs_spec()[m].token_b,
                        old(self).config_spec(),
                        now,
                    );
                }
            }
        }
        result
    }

    /// A copy of the current ranked opportunities, best first.
    pub fn get_opportunities(&self) -> (r: Vec<EnhancedArbitrageOpportunity>)
        requires
            self.wf(),
        ensures
            r@ == self.ranker_spec().view(),
            sorted_by_ev_desc(r@),
            forall|k: int| 0 <= k < r@.len() ==> opp_wf(#[trigger] r@[k]),
    {
        self.opportunities.get_opportunities()
    }

    /// Drops ranked opportunities past their time to live at `now`.
    pub fn expire_opportunities(&mut self, now: u64, ttl_secs: u64)
        requires
            old(self).wf(),
        ensures
            final(self).wf(),
            final(self).config_spec() == old(self).config_spec(),
            final(self).pools_spec() == old(self).pools_spec(),
    {
        self.opportunities.expire(now, ttl_secs);
        proof {
            broadcast use vstd::seq_lib::group_filter_ensures;

            let pred = live_filter(now, ttl_secs);
            let kept = self.ranker_spec().view();
            let before = old(self).ranker_spec().view();
            assert forall|k: int| 0 <= k < kept.len() implies opp_wf(#[trigger] kept[k]) by {
                let elem = kept[k];
                assert(kept.contains(elem));
                Seq::lemma_filter_contains_rev(before, pred, elem);
                let w = choose|w: int| 0 <= w < before.len() && before[w] == elem;
                assert(opp_wf(before[w]));
            }
        }
    }

    /// Drops pool records older than the store's maximum age at `now`.
    pub fn clean_stale_pools(&mut self, now: u64)
        requires
            old(self).wf(),
        ensures
            final(self).wf(),
            final(self).config_spec() == old(self).config_spec(),
            final(self).ranker_spec() == old(self).ranker_spec(),
    {
        self.pools.clean_stale_pools(now);
    }
}

// ----------------------------------------------------------------------------
// Typed events and health counters
// ----------------------------------------------------------------------------

/// A typed event from the stream, after the transport has decoded it.
#[derive(Clone, Copy, Debug)]
pub enum StreamEvent {
    /// A full pool-state payload.
    PoolStateUpdate(PoolState),
    /// A swap observed on a pool.
    Swap { pool_id: Key, token_in: Key, token_out: Key, amount_in: u64, amount_out: u64 },
    /// Block metadata or a timer tick, carrying the block time.
    BlockMeta { unix_time: u64 },
}

/// Health counters of the orchestrator, all saturating.
#[derive(Clone, Copy, Debug, PartialEq, Eq, Structural)]
pub struct HealthSnapshot {
    pub events_received: u64,
    pub updates_applied: u64,
    pub swaps_seen: u64,
    pub scans_run: u64,
    pub opportunities_emitted: u64,
    pub reconnects: u64,
    pub drops: u64,
}

/// All counters at zero.
pub open spec fn zero_counters() -> HealthSnapshot {
    HealthSnapshot {
        events_received: 0,
        updates_applied: 0,
        swaps_seen: 0,
        scans_run: 0,
        opportunities_emitted: 0,
        reconnects: 0,
        drops: 0,
    }
}

impl HealthSnapshot {
    /// All counters at zero.
    pub fn new() -> (r: HealthSnapshot)
        ensures
            r == zero_counters(),
    {
        HealthSnapshot {
            events_received: 0,
            updates_applied: 0,
            swaps_seen: 0,
            scans_run: 0,
            opportunities_emitted: 0,
            reconnects: 0,
            drops: 0,
        }
    }
}

/// A saturating counter increment.
pub open spec fn bump_spec(c: u64) -> u64 {
    if c == u64::MAX {
        c
    } else {
        (c + 1) as u64
    }
}

fn bump(c: u64) -> (r: u64)
    ensures
        r == bump_spec(c),
{
    if c == u64::MAX {
        c
    } else {
        c + 1
    }
}

// ----------------------------------------------------------------------------
// Reconnect policy
// ----------------------------------------------------------------------------

/// Two to the `e`-th.
pub open spec fn pow2_spec(e: nat) -> int
    decreases e,
{
    if e == 0 {
        1int
    } else {
        2 * pow2_spec((e - 1) as nat)
    }
}

/// Exponential backoff: `min(base * 2^attempt, cap)` seconds.
pub open spec fn backoff_delay_spec(attempt: u32, base: u64, cap: u64) -> int {
    let raw = base * pow2_spec(attempt as nat);
    if raw > cap {
        cap as int
    } else {
        raw
    }
}

/// The delay before reconnect attempt number `attempt` (counted from zero):
/// the base delay doubled per attempt, capped.
pub fn backoff_delay_secs(attempt: u32, base_secs: u64, cap_secs: u64) -> (r: u64)
    requires
        base_secs <= cap_secs,
    ensures
        r == backoff_delay_spec(attempt, base_secs, cap_secs),
        r <= cap_secs,
{
    let mut d: u64 = base_secs;
    let mut i: u32 = 0;
    while i < attempt
        invariant
            i <= attempt,
            base_secs <= cap_secs,
            d as int == backoff_delay_spec(i, base_secs, cap_secs),
            d <= cap_secs,
        decreases attempt - i,
    {
        proof {
            assert(pow2_spec((i + 1) as nat) == 2 * pow2_spec(i as nat));
            lemma_pow2_pos(i as nat);
            vstd::arithmetic::mul::lemma_mul_nonnegative(base_secs as int, pow2_spec(i as nat));
        }
        if d <= cap_secs / 2 {
            d = 2 * d;
            proof {
                let raw_i = base_secs * pow2_spec(i as nat);
                let raw_n = base_secs * pow2_spec((i + 1) as nat);
                assert(raw_n == 2 * raw_i) by (nonlinear_arith)
                    requires
                        raw_i == base_secs * pow2_spec(i as nat),
                        raw_n == base_secs * pow2_spec((i + 1) as nat),
                        pow2_spec((i + 1) as nat) == 2 * pow2_spec(i as nat),
                ;
                if raw_i > cap_secs {
                    // then the invariant put d at the cap, and d <= cap/2
                    // forces the cap (hence the base, hence raw_i) to zero
                    assert(cap_secs == 0);
                    assert(base_secs == 0);
                    vstd::arithmetic::mul::lemma_mul_by_zero_is_zero(pow2_spec(i as nat));
                    assert(raw_i == 0);
                    assert(false);
                }
            }
        } else {
            d = cap_secs;
            proof {
                let raw_i = base_secs * pow2_spec(i as nat);
                let raw_n = base_secs * pow2_spec((i + 1) as nat);
                assert(raw_n == 2 * raw_i) by (nonlinear_arith)
                    requires
                        raw_i == base_secs * pow2_spec(i as nat),
                        raw_n == base_secs * pow2_spec((i + 1) as nat),
                        pow2_spec((i + 1) as nat) == 2 * pow2_spec(i as nat),
                ;
            }
        }
        i = i + 1;
    }
    d
}

/// `pow2` is positive.
proof fn lemma_pow2_pos(e: nat)
    ensures
        pow2_spec(e) >= 1,
    decreases e,
{
    if e > 0 {
        lemma_pow2_pos((e - 1) as nat);
    }
}

/// Reconnect policy of the orchestrator.
#[derive(Clone, Copy, Debug)]
pub struct ReconnectPolicy {
    /// First backoff delay, seconds.
    pub base_secs: u64,
    /// Backoff cap, seconds.
    pub cap_secs: u64,
    /// Attempts before giving up.
    pub max_attempts: u32,
}

impl ReconnectPolicy {
    /// The customary policy: 2 s base, 60 s cap, 10 attempts.
    pub fn new_default() -> (r: ReconnectPolicy)
        ensures
            r.base_secs == 2,
            r.cap_secs == 60,
            r.max_attempts == 10,
    {
        ReconnectPolicy { base_secs: 2, cap_secs: 60, max_attempts: 10 }
    }
}

/// What the transport should do after a failure.
#[derive(Clone, Copy, Debug, PartialEq, Eq, Structural)]
pub enum ReconnectDecision {
    /// Sleep this many seconds, then reconnect.
    Retry { delay_secs: u64 },
    /// The attempts are exhausted; surface the failure.
    GiveUp,
}

/// The decision after `attempt` consecutive failures (counted from zero):
/// retry with exponential backoff until the attempts are exhausted.
pub fn reconnect_decision(attempt: u32, policy: &ReconnectPolicy) -> (r: ReconnectDecision)
    requires
        policy.base_secs <= policy.cap_secs,
    ensures
        attempt >= policy.max_attempts ==> r == ReconnectDecision::GiveUp,
        attempt < policy.max_attempts ==> r == (ReconnectDecision::Retry {
            delay_secs: backoff_delay_spec(attempt, policy.base_secs, policy.cap_secs) as u64,
        }),
{
    if attempt >= policy.max_attempts {
        ReconnectDecision::GiveUp
    } else {
        let delay_secs = backoff_delay_secs(attempt, policy.base_secs, policy.cap_secs);
        ReconnectDecision::Retry { delay_secs }
    }
}

// ----------------------------------------------------------------------------
// Orchestrator
// ----------------------------------------------------------------------------

/// The stream orchestrator: owns the detector, demultiplexes typed events
/// into store updates and swap-triggered scans, runs periodic rescans on
/// block ticks, tracks health counters, and decides reconnects on transport
/// failure. The internal state survives a reconnect untouched.
pub struct StreamOrchestrator {
    detector: EnhancedArbitrageDetector,
    policy: ReconnectPolicy,
    scan_interval_secs: u64,
    last_scan_unix: u64,
    attempt: u32,
    counters: HealthSnapshot,
}

impl StreamOrchestrator {
    /// The owned detector.
    pub closed spec fn detector_spec(&self) -> EnhancedArbitrageDetector {
        self.detector
    }

    /// The health counters.
    pub closed spec fn counters_spec(&self) -> HealthSnapshot {
        self.counters
    }

    /// Consecutive failed reconnect attempts.
    pub closed spec fn attempt_spec(&self) -> u32 {
        self.attempt
    }

    /// When the last periodic scan ran.
    pub closed spec fn last_scan_spec(&self) -> u64 {
        self.last_scan_unix
    }

    /// The periodic rescan cadence, seconds.
    pub closed spec fn scan_interval_spec(&self) -> u64 {
        self.scan_interval_secs
    }

    /// Whether a block tick at `t` is due to trigger a periodic rescan.
    pub open spec fn scan_due_spec(&self, t: u64) -> bool {
        self.last_scan_spec() + self.scan_interval_spec() <= t
    }

    /// Orchestrator invariant.
    pub open spec fn wf(&self) -> bool {
        self.detector_spec().wf()
    }

    /// An orchestrator around a detector.
    pub fn new(
        detector: EnhancedArbitrageDetector,
        policy: ReconnectPolicy,
        scan_interval_secs: u64,
    ) -> (r: StreamOrchestrator)
        requires
            detector.wf(),
            policy.base_secs <= policy.cap_secs,
        ensures
            r.wf(),
            r.detector_spec() == detector,
            r.attempt_spec() == 0,
            r.counters_spec() == zero_counters(),
    {
        StreamOrchestrator {
            detector,
            policy,
            scan_interval_secs,
            last_scan_unix: 0,
            attempt: 0,
            counters: HealthSnapshot::new(),
        }
    }

    /// Handles one typed event at `now` and returns the opportunities the
    /// step emitted, each internally consistent and past the acceptance
    /// gates. Pool updates feed the store (an invalid one changes nothing);
    /// swaps trigger a scan of the swapped pool's pair; block ticks trigger a
    /// periodic full rescan. The event counter always advances.
    pub fn handle_event(&mut self, event: StreamEvent, now: u64) -> (r: Vec<
        EnhancedArbitrageOpportunity,
    >)
        requires
            old(self).wf(),
        ensures
            final(self).wf(),
            final(self).counters_spec().events_received == bump_spec(
                old(self).counters_spec().events_received,
            ),
            forall|k: int|
                0 <= k < r@.len() ==> opp_wf(#[trigger] r@[k]) && passes_gates_spec(
                    r@[k],
                    old(self).detector_spec().config_spec(),
                ),
            event matches StreamEvent::PoolStateUpdate(p) ==> ({
                let before = old(self).detector_spec().pools_spec().view();
                let after = final(self).detector_spec().pools_spec().view();
                &&& !tradable(p) ==> after == before
                &&& tradable(p) && !has_pool(before, p.pool_id) ==> after == before.push(p)
                &&& tradable(p) && has_pool(before, p.pool_id) ==> {
                    let i = pool_index(before, p.pool_id);
                    if before[i].last_updated_unix <= p.last_updated_unix {
                        after == before.update(i, p)
                    } else {
                        after == before
                    }
                }
            }),
            event matches StreamEvent::Swap { pool_id, .. } ==> (has_pool(
                old(self).detector_spec().pools_spec().view(),
                pool_id,
            ) ==> {
                let held = old(self).detector_spec().pools_spec().view()[pool_index(
                    old(self).detector_spec().pools_spec().view(),
                    pool_id,
                )];
                search_complete(
                    r@,
                    old(self).detector_spec().pools_spec().view(),
                    old(self).detector_spec().pools_spec().max_age_spec(),
                    held.token_a,
                    held.token_b,
                    old(self).detector_spec().config_spec(),
                    now,
                )
            }),
            event matches StreamEvent::BlockMeta { unix_time } ==> (old(self).scan_due_spec(
                unix_time,
            ) ==> r@ == final(self).detector_spec().ranker_spec().view() && (r@.len() < final(self).detector_spec().ranker_spec().n_max_spec() ==> forall|m: int|
                0 <= m < old(self).detector_spec().pairs_spec().len() ==> search_complete(
                    r@,
                    old(self).detector_spec().pools_spec().view(),
                    old(self).detector_spec().pools_spec().max_age_spec(),
                    (#[trigger] old(self).detector_spec().pairs_spec()[m]).token_a,
                    old(self).detector_spec().pairs_spec()[m].token_b,
                    old(self).detector_spec().config_spec(),
                    now,
                ))),
    {
        self.counters.events_received = bump(self.counters.events_received);
        match event {
            StreamEvent::PoolStateUpdate(p) => {
                self.detector.update_pool_state(p);
                self.counters.updates_applied = bump(self.counters.updates_applied);
                Vec::new()
            },
            StreamEvent::Swap { pool_id, .. } => {
                self.counters.swaps_seen = bump(self.counters.swaps_seen);
                let found = match self.detector_pair_of_pool(&pool_id) {
                    Some(pair) => {
                        let out = self.detector.find_opportunities_for_pair(
                            pair.base,
                            pair.quote,
                            now,
                        );
                        proof {
                            let view = self.detector_spec().pools_spec().view();
                            let held = view[pool_index(view, pool_id)];
                            assert(pair == pair_of(held.token_a, held.token_b));
                            assert(pair_of(pair.base, pair.quote) == pair_of(
                                held.token_a,
                                held.token_b,
                            ));
                        }
                        out
                    },
                    None => Vec::new(),
                };
                if found.len() > 0 {
                    self.counters.opportunities_emitted = bump(
                        self.counters.opportunities_emitted,
                    );
                }
                found
            },
            StreamEvent::BlockMeta { unix_time } => {
                let due = if self.last_scan_unix > u64::MAX - self.scan_interval_secs {
                    false
                } else {
                    unix_time >= self.last_scan_unix + self.scan_interval_secs
                };
                proof {
                    assert(due == old(self).scan_due_spec(unix_time));
                }
                if due {
                    self.last_scan_unix = unix_time;
                    self.counters.scans_run = bump(self.counters.scans_run);
                    let found = self.detector.scan_arbitrage_opportunities(now);
                    if found.len() > 0 {
                        self.counters.opportunities_emitted = bump(
                            self.counters.opportunities_emitted,
                        );
                    }
                    found
                } else {
                    Vec::new()
                }
            },
        }
    }

    /// Handles one typed event against the wall clock.
    pub fn handle_event_now(&mut self, event: StreamEvent) -> (r: Vec<
        EnhancedArbitrageOpportunity,
    >)
        requires
            old(self).wf(),
        ensures
            final(self).wf(),
            forall|k: int|
                0 <= k < r@.len() ==> opp_wf(#[trigger] r@[k]) && passes_gates_spec(
                    r@[k],
                    old(self).detector_spec().config_spec(),
                ),
    {
        let now = crate::route::current_timestamp();
        self.handle_event(event, now)
    }

    /// The pair quoted by a pool the store holds.
    fn detector_pair_of_pool(&self, pool_id: &Key) -> (r: Option<TokenPair>)
        requires
            self.wf(),
        ensures
            r is Some <==> has_pool(self.detector_spec().pools_spec().view(), *pool_id),
            r matches Some(pr) ==> pr == pair_of(
                self.detector_spec().pools_spec().view()[pool_index(
                    self.detector_spec().pools_spec().view(),
                    *pool_id,
                )].token_a,
                self.detector_spec().pools_spec().view()[pool_index(
                    self.detector_spec().pools_spec().view(),
                    *pool_id,
                )].token_b,
            ),
    {
        match self.detector.pools_ref().get_pool(pool_id) {
            Some(p) => Some(TokenPair::new(p.token_a, p.token_b)),
            None => None,
        }
    }

    /// Reports a transport failure: the reconnect counter and the attempt
    /// count advance, the engine state is untouched, and the transport is
    /// told to retry after the policy's backoff — or to give up once the
    /// attempts are exhausted.
    pub fn on_transport_error(&mut self) -> (r: ReconnectDecision)
        requires
            old(self).wf(),
            old(self).policy_spec().base_secs <= old(self).policy_spec().cap_secs,
        ensures
            final(self).wf(),
            final(self).detector_spec() == old(self).detector_spec(),
            final(self).counters_spec().reconnects == bump_spec(
                old(self).counters_spec().reconnects,
            ),
            old(self).attempt_spec() >= old(self).policy_spec().max_attempts ==> r
                == ReconnectDecision::GiveUp,
            old(self).attempt_spec() < old(self).policy_spec().max_attempts ==> r == (
            ReconnectDecision::Retry {
                delay_secs: backoff_delay_spec(
                    old(self).attempt_spec(),
                    old(self).policy_spec().base_secs,
                    old(self).policy_spec().cap_secs,
                ) as u64,
            }) && final(self).attempt_spec() == old(self).attempt_spec() + 1,
    {
        self.counters.reconnects = bump(self.counters.reconnects);
        let decision = reconnect_decision(self.attempt, &self.policy);
        if self.attempt < self.policy.max_attempts {
            self.attempt = self.attempt + 1;
        }
        decision
    }

    /// Reports a successful (re)connection: the failure streak resets, the
    /// engine state is untouched.
    pub fn on_connected(&mut self)
        requires
            old(self).wf(),
        ensures
            final(self).wf(),
            final(self).detector_spec() == old(self).detector_spec(),
            final(self).attempt_spec() == 0,
            final(self).counters_spec() == old(self).counters_spec(),
    {
        self.attempt = 0;
    }

    /// Records that a consumer could not keep up and an emission was dropped.
    pub fn on_drop(&mut self)
        requires
            old(self).wf(),
        ensures
            final(self).wf(),
            final(self).detector_spec() == old(self).detector_spec(),
            final(self).counters_spec().drops == bump_spec(old(self).counters_spec().drops),
    {
        self.counters.drops = bump(self.counters.drops);
    }

    /// The reconnect policy in force.
    pub closed spec fn policy_spec(&self) -> ReconnectPolicy {
        self.policy
    }

    /// The current health counters.
    pub fn health(&self) -> (r: HealthSnapshot)
        ensures
            r == self.counters_spec(),
    {
        self.counters
    }

    /// A copy of the current ranked opportunities.
    pub fn get_opportunities(&self) -> (r: Vec<EnhancedArbitrageOpportunity>)
        requires
            self.wf(),
        ensures
            sorted_by_ev_desc(r@),
            forall|k: int| 0 <= k < r@.len() ==> opp_wf(#[trigger] r@[k]),
    {
        self.detector.get_opportunities()
    }

    /// The number of pool records currently held, a health signal that state
    /// survived a reconnect.
    pub fn pool_count(&self) -> (r: usize)
        requires
            self.wf(),
        ensures
            r == self.detector_spec().pools_spec().view().len(),
    {
        self.detector.pools_ref().stats().total_pools
    }
}

} // verus!

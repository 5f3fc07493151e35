//! The opportunity ranker: an ordered collection of opportunities capped at a
//! maximum size and sorted by expected-value score descending. Rescans
//! replace the whole collection in one call; readers always see it capped and
//! ordered.

use vstd::prelude::*;
use vstd::seq_lib::group_filter_ensures;
use crate::search::EnhancedArbitrageOpportunity;

verus! {

/// Ordered by expected-value score, highest first.
pub open spec fn sorted_by_ev_desc(s: Seq<EnhancedArbitrageOpportunity>) -> bool {
    forall|i: int, j: int|
        0 <= i <= j < s.len() ==> (#[trigger] s[i]).ev_score_ppm >= (#[trigger] s[j]).ev_score_ppm
}

/// An opportunity is live at `now` when it is at most `ttl` seconds old.
pub open spec fn live_at(o: EnhancedArbitrageOpportunity, now: u64, ttl: u64) -> bool {
    o.observed_unix + ttl >= now
}

/// The predicate selecting the opportunities live at `now`.
pub open spec fn live_filter(now: u64, ttl: u64) -> spec_fn(EnhancedArbitrageOpportunity) -> bool {
    |o: EnhancedArbitrageOpportunity| live_at(o, now, ttl)
}

/// Filtering keeps a descending order.
proof fn lemma_filter_sorted(
    s: Seq<EnhancedArbitrageOpportunity>,
    pred: spec_fn(EnhancedArbitrageOpportunity) -> bool,
)
    requires
        sorted_by_ev_desc(s),
    ensures
        sorted_by_ev_desc(s.filter(pred)),
    decreases s.len(),
{
    broadcast use group_filter_ensures;

    if s.len() == 0 {
        assert(s.filter(pred) =~= Seq::<EnhancedArbitrageOpportunity>::empty()) by {
            reveal(Seq::filter);
        }
    } else {
        let init = s.drop_last();
        let last = s.last();
        assert(sorted_by_ev_desc(init)) by {
            assert(forall|i: int| 0 <= i < init.len() ==> init[i] == s[i]);
        }
        lemma_filter_sorted(init, pred);
        assert(init.push(last) =~= s);
        Seq::lemma_filter_push(init, last, pred);
        if pred(last) {
            let f = init.filter(pred).push(last);
            assert forall|i: int, j: int| 0 <= i <= j < f.len() implies (
            #[trigger] f[i]).ev_score_ppm >= (#[trigger] f[j]).ev_score_ppm by {
                if j == f.len() - 1 && i < j {
                    let elem = init.filter(pred)[i];
                    assert(init.filter(pred).contains(elem));
                    Seq::lemma_filter_contains_rev(init, pred, elem);
                    let k = choose|k: int| 0 <= k < init.len() && init[k] == elem;
                    assert(s[k] == elem && s[s.len() - 1] == last);
                }
            }
        }
    }
}

/// Inserting keeps everything the sequence contained.
proof fn lemma_insert_preserves_contains(
    s: Seq<EnhancedArbitrageOpportunity>,
    p: int,
    x: EnhancedArbitrageOpportunity,
    y: EnhancedArbitrageOpportunity,
)
    requires
        s.contains(y),
        0 <= p <= s.len(),
    ensures
        s.insert(p, x).contains(y),
{
    let w = choose|w: int| 0 <= w < s.len() && s[w] == y;
    if w < p {
        assert(s.insert(p, x)[w] == y);
    } else {
        assert(s.insert(p, x)[w + 1] == y);
    }
}

/// The ranked collection of current opportunities: capped at `max` entries,
/// ordered by expected-value score descending at every external observation
/// point. A rescan replaces the whole content atomically; an entry that a
/// rescan does not re-emit is thereby superseded, and expiry drops entries
/// past their time to live.
pub struct OpportunityRanker {
    opportunities: Vec<EnhancedArbitrageOpportunity>,
    max_opportunities: usize,
}

impl OpportunityRanker {
    /// The ranked opportunities, best first.
    pub closed spec fn view(&self) -> Seq<EnhancedArbitrageOpportunity> {
        self.opportunities@
    }

    /// The cap on the number of ranked opportunities.
    pub closed spec fn n_max_spec(&self) -> int {
        self.max_opportunities as int
    }

    /// The ranker invariant: never more than the cap, always ordered.
    pub open spec fn wf(&self) -> bool {
        self.view().len() <= self.n_max_spec() && sorted_by_ev_desc(self.view())
    }

    /// An empty ranker capped at `max_opportunities` entries.
    pub fn new(max_opportunities: usize) -> (r: OpportunityRanker)
        requires
            max_opportunities >= 1,
        ensures
            r.wf(),
            r.view() =~= Seq::<EnhancedArbitrageOpportunity>::empty(),
            r.n_max_spec() == max_opportunities,
    {
        OpportunityRanker { opportunities: Vec::new(), max_opportunities }
    }

    /// Number of ranked opportunities.
    pub fn len(&self) -> (r: usize)
        ensures
            r == self.view().len(),
    {
        self.opportunities.len()
    }

    /// Ranks one opportunity into the collection: it is inserted at its
    /// place, and the weakest entry is dropped when the collection would
    /// exceed the cap. A candidate is guaranteed a slot when there is room or
    /// when it beats the weakest resident.
    pub fn rank(&mut self, o: EnhancedArbitrageOpportunity)
        requires
            old(self).wf(),
        ensures
            final(self).wf(),
            final(self).n_max_spec() == old(self).n_max_spec(),
            forall|k: int|
                0 <= k < final(self).view().len() ==> final(self).view()[k] == o || old(
                    self,
                ).view().contains(#[trigger] final(self).view()[k]),
            old(self).view().len() < old(self).n_max_spec() ==> final(self).view().contains(o)
                && final(self).view().len() == old(self).view().len() + 1,
            old(self).view().len() < old(self).n_max_spec() ==> exists|p: int|
                0 <= p <= old(self).view().len() && final(self).view() == old(
                    self,
                ).view().insert(p, o),
            old(self).view().len() >= old(self).n_max_spec() ==> final(self).view().len() == old(
                self,
            ).view().len(),
            old(self).view().len() == old(self).n_max_spec() && old(self).view().len() > 0 && old(
                self,
            ).view().last().ev_score_ppm < o.ev_score_ppm ==> final(self).view().contains(o)
                && final(self).view().len() == old(self).n_max_spec(),
    {
        let n = self.opportunities.len();
        let mut pos: usize = 0;
        while pos < n && self.opportunities[pos].ev_score_ppm >= o.ev_score_ppm
            invariant
                pos <= n,
                n == self.view().len(),
                self.view() == old(self).view(),
                self.max_opportunities == old(self).max_opportunities,
                old(self).wf(),
                forall|j: int|
                    0 <= j < pos ==> (#[trigger] self.view()[j]).ev_score_ppm >= o.ev_score_ppm,
            decreases n - pos,
        {
            pos = pos + 1;
        }
        proof {
            assert(forall|j: int|
                0 <= j < pos ==> (#[trigger] self.view()[j]).ev_score_ppm >= o.ev_score_ppm);
            assert(pos < n ==> self.view()[pos as int].ev_score_ppm < o.ev_score_ppm);
        }
        let ghost before = self.opportunities@;
        self.opportunities.insert(pos, o);
        proof {
            assert(self.view() == before.insert(pos as int, o));
            assert forall|a: int, b: int| 0 <= a <= b < self.view().len() implies (
            #[trigger] self.view()[a]).ev_score_ppm >= (#[trigger] self.view()[b]).ev_score_ppm by {
                if a < pos && b < pos {
                    assert(before[a].ev_score_ppm >= before[b].ev_score_ppm);
                } else if a < pos && b == pos {
                } else if a < pos && b > pos {
                    assert(before[a].ev_score_ppm >= before[b - 1].ev_score_ppm);
                } else if a == pos && b > pos {
                    if pos < before.len() {
                        assert(before[pos as int].ev_score_ppm <= o.ev_score_ppm);
                        assert(before[pos as int].ev_score_ppm <= before[b - 1].ev_score_ppm
                            || before[pos as int].ev_score_ppm >= before[b - 1].ev_score_ppm);
                        assert(before[pos as int].ev_score_ppm >= before[b - 1].ev_score_ppm);
                    }
                } else if a > pos && b > pos {
                    assert(before[a - 1].ev_score_ppm >= before[b - 1].ev_score_ppm);
                }
            }
        }
        if self.opportunities.len() > self.max_opportunities {
            let ghost with_o = self.opportunities@;
            let last = self.opportunities.len() - 1;
            self.opportunities.remove(last);
            proof {
                assert(self.view() =~= with_o.take(with_o.len() - 1));
                if pos < n {
                    assert(self.view().contains(o)) by {
                        assert(self.view()[pos as int] == o);
                    }
                }
            }
        } else {
            proof {
                assert(self.view().contains(o)) by {
                    assert(self.view()[pos as int] == o);
                }
                assert(exists|p: int|
                    0 <= p <= before.len() && self.view() == before.insert(p, o)) by {
                    assert(self.view() == before.insert(pos as int, o));
                }
            }
        }
        proof {
            assert forall|k: int| 0 <= k < self.view().len() implies self.view()[k] == o || old(
                self,
            ).view().contains(#[trigger] self.view()[k]) by {
                let v = self.view()[k];
                if k < pos {
                    assert(before[k] == v);
                    assert(old(self).view().contains(v)) by {
                        assert(old(self).view()[k] == v);
                    }
                } else if k > pos {
                    assert(before[k - 1] == v);
                    assert(old(self).view().contains(v)) by {
                        assert(old(self).view()[k - 1] == v);
                    }
                }
            }
        }
    }

    /// Replaces the whole collection with the given candidates in one step
    /// (all-or-nothing, so readers never see a torn rescan): the result ranks
    /// only given candidates, capped and ordered.
    pub fn replace_all(&mut self, candidates: &Vec<EnhancedArbitrageOpportunity>)
        requires
            old(self).wf(),
        ensures
            final(self).wf(),
            final(self).n_max_spec() == old(self).n_max_spec(),
            forall|k: int|
                0 <= k < final(self).view().len() ==> candidates@.contains(
                    #[trigger] final(self).view()[k],
                ),
            final(self).view().len() as int == if candidates@.len() <= old(self).n_max_spec() {
                candidates@.len() as int
            } else {
                old(self).n_max_spec()
            },
            candidates@.len() <= old(self).n_max_spec() ==> forall|k: int|
                0 <= k < candidates@.len() ==> final(self).view().contains(
                    #[trigger] candidates@[k],
                ),
    {
        self.opportunities = Vec::new();
        let n = candidates.len();
        for i in 0..n
            invariant
                n == candidates@.len(),
                self.wf(),
                self.max_opportunities == old(self).max_opportunities,
                self.view().len() as int == if i <= self.n_max_spec() {
                    i as int
                } else {
                    self.n_max_spec()
                },
                forall|k: int|
                    0 <= k < self.view().len() ==> candidates@.contains(
                        #[trigger] self.view()[k],
                    ),
                n <= self.n_max_spec() ==> forall|k: int|
                    0 <= k < i ==> self.view().contains(#[trigger] candidates@[k]),
        {
            let ghost prev = self.view();
            self.rank(candidates[i]);
            proof {
                assert forall|k: int| 0 <= k < self.view().len() implies candidates@.contains(
                    #[trigger] self.view()[k],
                ) by {
                    let v = self.view()[k];
                    if v == candidates@[i as int] {
                        assert(candidates@.contains(v));
                    } else {
                        assert(prev.contains(v));
                        let w = choose|w: int| 0 <= w < prev.len() && prev[w] == v;
                    }
                }
                if n <= self.n_max_spec() {
                    assert forall|k: int| 0 <= k <= i implies self.view().contains(
                        #[trigger] candidates@[k],
                    ) by {
                        if k < i {
                            assert(prev.contains(candidates@[k]));
                            let p = choose|p: int|
                                0 <= p <= prev.len() && self.view() == prev.insert(
                                    p,
                                    candidates@[i as int],
                                );
                            lemma_insert_preserves_contains(
                                prev,
                                p,
                                candidates@[i as int],
                                candidates@[k],
                            );
                        }
                    }
                }
            }
        }
    }

    /// The current top `k` opportunities, best first: the prefix of the
    /// ranked collection.
    pub fn top_k(&self, k: usize) -> (r: Vec<EnhancedArbitrageOpportunity>)
        requires
            self.wf(),
        ensures
            r@ == if k <= self.view().len() {
                self.view().take(k as int)
            } else {
                self.view()
            },
            sorted_by_ev_desc(r@),
    {
        let limit = if k <= self.opportunities.len() {
            k
        } else {
            self.opportunities.len()
        };
        let mut out: Vec<EnhancedArbitrageOpportunity> = Vec::new();
        for i in 0..limit
            invariant
                limit <= self.view().len(),
                limit as int == if k <= self.view().len() {
                    k as int
                } else {
                    self.view().len() as int
                },
                self.wf(),
                out@ == self.view().take(i as int),
        {
            out.push(self.opportunities[i]);
            proof {
                assert(out@ =~= self.view().take(i + 1));
            }
        }
        proof {
            if k > self.view().len() {
                assert(self.view().take(limit as int) =~= self.view());
            }
        }
        out
    }

    /// A copy of the whole ranked collection, best first.
    pub fn get_opportunities(&self) -> (r: Vec<EnhancedArbitrageOpportunity>)
        requires
            self.wf(),
        ensures
            r@ == self.view(),
            sorted_by_ev_desc(r@),
    {
        let n = self.opportunities.len();
        self.top_k(n)
    }

    /// Drops every opportunity past its time to live at `now`, keeping
    /// exactly the live ones in rank order.
    pub fn expire(&mut self, now: u64, ttl_secs: u64)
        requires
            old(self).wf(),
        ensures
            final(self).wf(),
            final(self).n_max_spec() == old(self).n_max_spec(),
            final(self).view() == old(self).view().filter(live_filter(now, ttl_secs)),
    {
        broadcast use group_filter_ensures;

        let ghost pred = live_filter(now, ttl_secs);
        let mut kept: Vec<EnhancedArbitrageOpportunity> = Vec::new();
        let n = self.opportunities.len();
        proof {
            assert(self.view().take(0int) =~= Seq::<EnhancedArbitrageOpportunity>::empty());
            assert(Seq::<EnhancedArbitrageOpportunity>::empty().filter(pred) =~= Seq::<
                EnhancedArbitrageOpportunity,
            >::empty()) by {
                reveal(Seq::filter);
            }
        }
        for i in 0..n
            invariant
                n == self.view().len(),
                self.view() == old(self).view(),
                self.max_opportunities == old(self).max_opportunities,
                old(self).wf(),
                pred == live_filter(now, ttl_secs),
                kept@ == self.view().take(i as int).filter(pred),
        {
            let o = self.opportunities[i];
            let live = if o.observed_unix > u64::MAX - ttl_secs {
                true
            } else {
                o.observed_unix + ttl_secs >= now
            };
            proof {
                assert(self.view().take(i + 1).drop_last() =~= self.view().take(i as int));
                assert(self.view().take(i + 1) =~= self.view().take(i as int).push(
                    self.view()[i as int],
                ));
                Seq::lemma_filter_push(self.view().take(i as int), self.view()[i as int], pred);
                assert(live == pred(self.view()[i as int]));
            }
            if live {
                kept.push(o);
            }
        }
        proof {
            assert(self.view().take(n as int) =~= self.view());
            lemma_filter_sorted(old(self).view(), pred);
            Seq::lemma_filter_len(old(self).view(), pred);
        }
        self.opportunities = kept;
    }
}

} // verus!

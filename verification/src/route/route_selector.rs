//! Choosing one of several chains.

use vstd::prelude::*;
use crate::key_map::KeyMap;
use crate::random::random_index;
use crate::route::chain_selection::{
    draw_lands_on, eligible, gate_spares_the_unknown_and_the_best, is_best, kept,
    kept_are_the_eligible, lemma_left_out_is_not_better, none_measured, pick_weighted, rank_chains, retain_eligible,
    the_best_are_among_the_chains, the_kept_outscore_the_left_out, top, unscored, RttSlot,
    ScoreStore, ScoredChain,
};
use crate::route::conn_chain::{
    a_resolved_chain_is_as_configured, the_first_unknown_hop_is_named, GaugedConnChain,
    ProbeFutures, ProbeTaskState, SharableConfig, WeightedConnChain, WeightedConnChainBuildError,
    WeightedConnChainBuilder,
};
use crate::route::hop_config::HopConfig;
use crate::route::weight::{lemma_weight_sum_grows, weight_sum, weights_vanish_together};
use crate::time::{Duration, Instant, NANOS_PER_SEC};

verus! {

/// How long scores are good for, in seconds.
pub const PROBE_ROUND_INTERVAL_SECS: u64 = 30;

/// The chains cannot be chosen from. `R` is what a ratio is given as.
#[derive(Debug)]
pub enum RouteSelectorError<R> {
    ZeroAccumulatedWeight,
    TooManyActiveChains,
    InvalidMaxRttRatio(R),
}

/// Chains to choose from, at least one. `G` tells how slow a chain may be
/// beside the best, if that matters.
#[derive(Debug)]
pub struct NonEmptyRouteSelector<G> {
    pub chains: Vec<GaugedConnChain>,
    pub cum_weight: usize,
    pub active_chains: usize,
    pub gate: Option<G>,
}

/// Chains to choose from, if there are any.
#[derive(Debug)]
pub enum RouteSelector<G> {
    Empty,
    NonEmpty(NonEmptyRouteSelector<G>),
}

/// The selector of a connection's chain.
pub type ConnSelector<G> = RouteSelector<G>;

pub type NonEmptyConnSelector<G> = NonEmptyRouteSelector<G>;

pub type ConnSelectorError<R> = RouteSelectorError<R>;

/// The weights of the chains, one by one.
pub open spec fn weights_of(chains: Seq<WeightedConnChain>) -> Seq<usize> {
    chains.map_values(|chain: WeightedConnChain| chain.weight)
}

/// The weights of the chains together.
pub open spec fn total_weight(chains: Seq<WeightedConnChain>) -> int {
    weight_sum(weights_of(chains))
}

fn sum_weights(chains: &[WeightedConnChain]) -> (sum: usize)
    requires
        total_weight(chains@) <= usize::MAX,
    ensures
        sum == total_weight(chains@),
{
    let ghost weights = weights_of(chains@);
    let mut sum: usize = 0;
    let mut i: usize = 0;
    while i < chains.len()
        invariant
            i <= chains@.len(),
            weights == weights_of(chains@),
            sum == weight_sum(weights.take(i as int)),
            weight_sum(weights) <= usize::MAX,
        decreases chains@.len() - i,
    {
        proof {
            lemma_weight_sum_grows(weights, i as int);
        }
        sum = sum + chains[i].weight;
        i += 1;
    }
    assert(weights.take(i as int) =~= weights);
    sum
}

/// Whether the probe of each chain, if chains are probed, was collected behind
/// those that were there.
pub open spec fn probes_collected<F, P: Fn(&WeightedConnChain) -> F>(
    make_probe: Option<&P>,
    chains: Seq<WeightedConnChain>,
    before: Seq<F>,
    after: Seq<F>,
) -> bool {
    match make_probe {
        None => after == before,
        Some(make) => {
            &&& after.len() == before.len() + chains.len()
            &&& after.take(before.len() as int) == before
            &&& forall|i: int|
                0 <= i < chains.len() ==> call_ensures(
                    *make,
                    (&(#[trigger] chains[i]),),
                    after[before.len() + i],
                )
        },
    }
}

impl<G> NonEmptyRouteSelector<G> {
    /// There is a chain, there is weight, and no more chains are active than
    /// there are.
    pub open spec fn wf(self) -> bool {
        &&& self.chains@.len() > 0
        &&& self.cum_weight > 0
        &&& 0 < self.active_chains <= self.chains@.len()
        &&& forall|i: int| 0 <= i < self.chains@.len() ==> (#[trigger] self.chains@[i]).wf()
    }

    /// Why the chains cannot be chosen from, if they cannot.
    pub open spec fn refusal<R>(
        chains: Seq<WeightedConnChain>,
        active_chains: Option<usize>,
        gate: Option<Result<G, R>>,
    ) -> Option<RouteSelectorError<R>> {
        if total_weight(chains) == 0 {
            Some(RouteSelectorError::ZeroAccumulatedWeight)
        } else if gate is Some && gate->0 is Err {
            Some(RouteSelectorError::InvalidMaxRttRatio(gate->0->Err_0))
        } else if active_chains is Some && active_chains->0 > chains.len() {
            Some(RouteSelectorError::TooManyActiveChains)
        } else {
            None
        }
    }

    /// Whether the selector is made of these chains, with nothing measured of
    /// them yet.
    pub open spec fn made_of<R>(
        self,
        chains: Seq<WeightedConnChain>,
        probed: bool,
        active_chains: Option<usize>,
        gate: Option<Result<G, R>>,
    ) -> bool {
        &&& self.wf()
        &&& self.chains@.len() == chains.len()
        &&& forall|i: int|
            0 <= i < chains.len() ==> {
                &&& (#[trigger] self.chains@[i]).weighted == chains[i]
                &&& self.chains@[i].rtt_stats.srtt is None
                &&& self.chains@[i].rtt_stats.rttvar is None
                &&& self.chains@[i].rtt_stats.recent@.len() == 0
                &&& self.chains@[i].probe_state == (if probed {
                    ProbeTaskState::Running
                } else {
                    ProbeTaskState::Disabled
                })
            }
        &&& self.cum_weight == total_weight(chains)
        &&& self.active_chains == (match active_chains {
            Some(active) => active as int,
            None => chains.len() as int,
        })
        &&& self.gate == (match gate {
            Some(Ok(gate)) => Some(gate),
            _ => None,
        })
    }

    /// Makes a selector. `gate` is the result of reading the configured
    /// ratio, if one is configured. `make_probe`, where chains are probed,
    /// makes the probe of each.
    pub fn new<F, P: Fn(&WeightedConnChain) -> F, R>(
        chains: Vec<WeightedConnChain>,
        make_probe: Option<&P>,
        active_chains: Option<usize>,
        gate: Option<Result<G, R>>,
        probes: &mut ProbeFutures<F>,
    ) -> (r: Result<Self, RouteSelectorError<R>>)
        requires
            total_weight(chains@) <= usize::MAX,
            active_chains matches Some(active) ==> active > 0,
            make_probe matches Some(make) ==> forall|c: &WeightedConnChain|
                call_requires(*make, (c,)),
        ensures
            match Self::refusal(chains@, active_chains, gate) {
                Some(error) => r == Err::<Self, _>(error) && *final(probes) == *old(probes),
                None => {
                    &&& r matches Ok(selector)
                    &&& selector.made_of(chains@, make_probe is Some, active_chains, gate)
                    &&& probes_collected(
                        make_probe,
                        chains@,
                        old(probes).futures@,
                        final(probes).futures@,
                    )
                },
            },
    {
        let cum_weight: usize = sum_weights(chains.as_slice());
        if cum_weight == 0 {
            return Err(RouteSelectorError::ZeroAccumulatedWeight);
        }
        let gate = match gate {
            Some(Ok(gate)) => Some(gate),
            Some(Err(ratio)) => {
                return Err(RouteSelectorError::InvalidMaxRttRatio(ratio));
            },
            None => None,
        };
        let active_chains: usize = match active_chains {
            Some(active) => {
                if active > chains.len() {
                    return Err(RouteSelectorError::TooManyActiveChains);
                }
                active
            },
            None => chains.len(),
        };
        let ghost all = chains@;
        let ghost n = probes.futures@.len();
        let mut rest: Vec<WeightedConnChain> = chains;
        let mut gauged: Vec<GaugedConnChain> = Vec::new();
        assert(probes.futures@.take(n as int) =~= old(probes).futures@);
        while rest.len() > 0
            invariant
                gauged@.len() + rest@.len() == all.len(),
                rest@ == all.skip(gauged@.len() as int),
                n == old(probes).futures@.len(),
                make_probe matches Some(make) ==> forall|c: &WeightedConnChain|
                    call_requires(*make, (c,)),
                forall|i: int|
                    0 <= i < gauged@.len() ==> {
                        &&& (#[trigger] gauged@[i]).wf()
                        &&& gauged@[i].weighted == all[i]
                        &&& gauged@[i].rtt_stats.srtt is None
                        &&& gauged@[i].rtt_stats.rttvar is None
                        &&& gauged@[i].rtt_stats.recent@.len() == 0
                        &&& gauged@[i].probe_state == (if make_probe is Some {
                            ProbeTaskState::Running
                        } else {
                            ProbeTaskState::Disabled
                        })
                    },
                match make_probe {
                    None => probes.futures@ == old(probes).futures@,
                    Some(make) => {
                        &&& probes.futures@.len() == n + gauged@.len()
                        &&& probes.futures@.take(n as int) == old(probes).futures@
                        &&& forall|i: int|
                            0 <= i < gauged@.len() ==> call_ensures(
                                *make,
                                (&(#[trigger] all[i]),),
                                probes.futures@[n + i],
                            )
                    },
                },
            decreases rest@.len(),
        {
            let ghost i = gauged@.len() as int;
            let ghost before = probes.futures@;
            let weighted = rest.remove(0);
            assert(weighted == all[i]);
            assert(rest@ =~= all.skip(i + 1));
            let probe = match make_probe {
                Some(make) => Some(make(&weighted)),
                None => None,
            };
            let chain = GaugedConnChain::new(weighted, probe, probes);
            gauged.push(chain);
            proof {
                if make_probe is Some {
                    assert(probes.futures@.take(n as int) =~= before.take(n as int));
                    assert(forall|k: int| 0 <= k < before.len() ==> probes.futures@[k] == before[k]);
                }
            }
        }
        Ok(NonEmptyRouteSelector { chains: gauged, cum_weight, active_chains, gate })
    }

    /// The chains before any is left out, with their ranks.
    pub open spec fn scores_as<S: Fn(usize, usize, usize, RttSlot) -> i64>(
        self,
        score: S,
        scored: Seq<ScoredChain>,
    ) -> bool {
        &&& scored.len() == self.chains@.len()
        &&& forall|i: int|
            0 <= i < scored.len() ==> {
                &&& (#[trigger] scored[i]).index == i
                &&& scored[i].rtt == self.chains@[i].slot()
                &&& call_ensures(
                    score,
                    (
                        i as usize,
                        self.chains@[i].weighted.weight,
                        self.cum_weight,
                        self.chains@[i].slot(),
                    ),
                    scored[i].score,
                )
            }
    }

    /// Whether ranking the chains may give these scores.
    pub open spec fn scores_to<
        S: Fn(usize, usize, usize, RttSlot) -> i64,
        C: Fn(&G, Duration) -> Duration,
    >(self, score: S, cutoff_of: C, scores: Seq<ScoredChain>) -> bool {
        exists|scored: Seq<ScoredChain>| #[trigger]
            self.scores_as(score, scored) && match self.gate {
                None => scores == top(scored, self.active_chains as nat),
                Some(gate) => if none_measured(scored) {
                    scores == top(scored, self.active_chains as nat)
                } else {
                    exists|best: Duration, cutoff: Duration|
                        {
                            &&& #[trigger] call_ensures(cutoff_of, (&gate, best), cutoff)
                            &&& is_best(scored, best)
                            &&& scores == top(kept(scored, cutoff), self.active_chains as nat)
                        }
                },
            }
    }

    /// Ranks the chains: scores each by its index, its weight, the weight of
    /// all, and what is known of its round trip time; leaves out those that
    /// are too slow beside the best; and keeps the best. `cutoff_of` tells from
    /// `gate` and the best time how slow a chain may be.
    pub fn scores<
        S: Fn(usize, usize, usize, RttSlot) -> i64,
        C: Fn(&G, Duration) -> Duration,
    >(&self, score: &S, cutoff_of: &C) -> (r: Vec<ScoredChain>)
        requires
            self.wf(),
            forall|i: usize, w: usize, c: usize, slot: RttSlot|
                call_requires(*score, (i, w, c, slot)),
            forall|g: &G, best: Duration| call_requires(*cutoff_of, (g, best)),
        ensures
            self.scores_to(*score, *cutoff_of, r@),
            self.ranks(r@),
            r@.len() <= self.active_chains,
            self.gate is None ==> r@.len() == self.active_chains,
            self.gate is None || spares_the_best(*cutoff_of) ==> r@.len() > 0,
    {
        let mut scored: Vec<ScoredChain> = Vec::new();
        let mut i: usize = 0;
        while i < self.chains.len()
            invariant
                i <= self.chains@.len(),
                self.wf(),
                scored@.len() == i,
                forall|i: usize, w: usize, c: usize, slot: RttSlot|
                    call_requires(*score, (i, w, c, slot)),
                forall|j: int|
                    0 <= j < i ==> {
                        &&& (#[trigger] scored@[j]).index == j
                        &&& scored@[j].rtt == self.chains@[j].slot()
                        &&& call_ensures(
                            *score,
                            (
                                j as usize,
                                self.chains@[j].weighted.weight,
                                self.cum_weight,
                                self.chains@[j].slot(),
                            ),
                            scored@[j].score,
                        )
                    },
            decreases self.chains@.len() - i,
        {
            let rtt = self.chains[i].rtt_slot();
            let rank: i64 = score(i, self.chains[i].weighted.weight, self.cum_weight, rtt);
            scored.push(ScoredChain { index: i, score: rank, rtt });
            i += 1;
        }
        let ghost all = scored@;
        assert(self.scores_as(*score, all));
        if let Some(gate) = &self.gate {
            let gated = |best: Duration| -> (cutoff: Duration)
                requires
                    call_requires(cutoff_of, (gate, best)),
                ensures
                    call_ensures(cutoff_of, (gate, best), cutoff),
                { cutoff_of(gate, best) };
            retain_eligible(&mut scored, &gated);
            proof {
                if !none_measured(all) {
                    let (best, cutoff) = choose|best: Duration, cutoff: Duration|
                        {
                            &&& #[trigger] call_ensures(gated, (best,), cutoff)
                            &&& is_best(all, best)
                            &&& scored@ == kept(all, cutoff)
                        };
                    assert(call_ensures(*cutoff_of, (gate, best), cutoff));
                    if spares_the_best(*cutoff_of) {
                        gate_spares_the_unknown_and_the_best(all, best, cutoff);
                    }
                }
            }
        }
        let ranked = rank_chains(scored.as_slice(), self.active_chains);
        proof {
            the_best_are_among_the_chains(scored@, self.active_chains as nat);
            assert forall|j: int| 0 <= j < ranked@.len() implies (#[trigger] ranked@[j]).index
                < self.chains@.len() by {
                let chain = ranked@[j];
                if scored@ != all {
                    let c = choose|c: Duration| scored@ == kept(all, c);
                    kept_are_the_eligible(all, c, chain);
                }
                assert(all.contains(chain));
            }
        }
        ranked
    }
}

/// Whether a chain that is as fast as the best is never too slow beside it.
pub open spec fn spares_the_best<G, C: Fn(&G, Duration) -> Duration>(cutoff_of: C) -> bool {
    forall|gate: &G, best: Duration, cutoff: Duration| #[trigger]
        call_ensures(cutoff_of, (gate, best), cutoff) ==> best.nanos <= cutoff.nanos
}

impl<G> NonEmptyRouteSelector<G> {
    /// Whether the scores are of chains that there are.
    pub open spec fn ranks(self, scores: Seq<ScoredChain>) -> bool {
        forall|i: int| 0 <= i < scores.len() ==> (#[trigger] scores[i]).index < self.chains@.len()
    }

    /// A store for the scores, as long as they are good for.
    pub fn score_store() -> (r: ScoreStore)
        ensures
            r.ttl.nanos == PROBE_ROUND_INTERVAL_SECS * NANOS_PER_SEC,
            r.made is None,
    {
        ScoreStore::new(Duration::from_secs(PROBE_ROUND_INTERVAL_SECS))
    }

    /// Ranks the chains anew, unless the scores that are stored are still
    /// good. Tells whether it did.
    pub fn refresh_scores<
        S: Fn(usize, usize, usize, RttSlot) -> i64,
        C: Fn(&G, Duration) -> Duration,
    >(&self, store: &mut ScoreStore, now: Instant, score: &S, cutoff_of: &C) -> (renewed: bool)
        requires
            self.wf(),
            forall|i: usize, w: usize, c: usize, slot: RttSlot|
                call_requires(*score, (i, w, c, slot)),
            forall|g: &G, best: Duration| call_requires(*cutoff_of, (g, best)),
        ensures
            renewed == (old(store).good_at(now) is None),
            !renewed ==> *final(store) == *old(store),
            renewed ==> {
                &&& final(store).ttl == old(store).ttl
                &&& final(store).made matches Some((at, scores))
                &&& at == now
                &&& self.scores_to(*score, *cutoff_of, scores@)
                &&& self.ranks(scores@)
                &&& self.gate is None || spares_the_best(*cutoff_of) ==> scores@.len() > 0
            },
    {
        if store.get(now).is_some() {
            return false;
        }
        let scores = self.scores(score, cutoff_of);
        store.set(scores, now);
        true
    }

    /// The chain with the `i`th score.
    pub fn chain_ranked(&self, scores: &[ScoredChain], i: usize) -> (r: &WeightedConnChain)
        requires
            self.ranks(scores@),
            i < scores@.len(),
        ensures
            *r == self.chains@[scores@[i as int].index as int].weighted,
    {
        self.chains[scores[i].index].weighted()
    }

    /// Whether the choice may fall on the `i`th chain.
    pub open spec fn chooses<F: Fn(usize) -> bool>(
        self,
        scores: Seq<ScoredChain>,
        sum_is_zero: bool,
        covers: F,
        i: int,
    ) -> bool {
        if self.chains@.len() == 1 {
            i == 0
        } else if sum_is_zero {
            exists|k: int| 0 <= k < scores.len() && (#[trigger] scores[k]).index == i
        } else {
            exists|k: int| #[trigger]
                draw_lands_on(covers, scores.len(), k) && scores[k].index == i
        }
    }

    /// Chooses a chain: the only one, or one at random among those that have a
    /// score. Where the scores add up to nothing all of these are as likely;
    /// otherwise it is the one that a draw lands on. `covers` tells whether
    /// the scores up to and with a position reach the draw.
    pub fn choose_chain<F: Fn(usize) -> bool>(
        &self,
        scores: &[ScoredChain],
        sum_is_zero: bool,
        covers: &F,
    ) -> (r: &WeightedConnChain)
        requires
            self.wf(),
            self.ranks(scores@),
            scores@.len() > 0,
            forall|i: usize| i < scores@.len() ==> call_requires(*covers, (i,)),
        ensures
            exists|i: int|
                0 <= i < self.chains@.len() && #[trigger] self.chooses(
                    scores@,
                    sum_is_zero,
                    *covers,
                    i,
                ) && *r == self.chains@[i].weighted,
    {
        if self.chains.len() == 1 {
            assert(self.chooses(scores@, sum_is_zero, *covers, 0));
            return self.chains[0].weighted();
        }
        if sum_is_zero {
            let k: usize = random_index(scores.len());
            assert(self.chooses(scores@, sum_is_zero, *covers, scores@[k as int].index as int));
            return self.chain_ranked(scores, k);
        }
        let i: usize = pick_weighted(scores, covers);
        assert(self.chooses(scores@, sum_is_zero, *covers, i as int));
        self.chains[i].weighted()
    }
}

impl<G> NonEmptyRouteSelector<G> {
    /// Whether some chain with a healthy probe was measured.
    pub open spec fn measured(self) -> bool {
        exists|i: int| 0 <= i < self.chains@.len() && (#[trigger] self.chains@[i]).slot() is Measured
    }

    /// Whether this is the best time measured of the chains with a healthy
    /// probe.
    pub open spec fn best_time(self, best: Duration) -> bool {
        &&& exists|i: int|
            0 <= i < self.chains@.len() && (#[trigger] self.chains@[i]).slot()
                == RttSlot::Measured(best)
        &&& forall|i: int|
            0 <= i < self.chains@.len() ==> ((#[trigger] self.chains@[i]).slot() matches
                RttSlot::Measured(rtt) ==> best.nanos <= rtt.nanos)
    }

    /// Whether the cutoff is one that the best time may be given.
    pub open spec fn cuts_off_at<C: Fn(&G, Duration) -> Duration>(
        self,
        cutoff_of: C,
        cutoff: Duration,
    ) -> bool {
        &&& self.gate is Some
        &&& exists|best: Duration| #[trigger]
            self.best_time(best) && call_ensures(cutoff_of, (&self.gate->0, best), cutoff)
    }

    /// Whether every score is of a chain that may stay beside the best: its
    /// probe has not died, and what was measured is within the cutoff.
    pub open spec fn all_eligible(self, scores: Seq<ScoredChain>, cutoff: Duration) -> bool {
        forall|k: int|
            0 <= k < scores.len() ==> {
                &&& (#[trigger] scores[k]).index < self.chains@.len()
                &&& scores[k].rtt == self.chains@[scores[k].index as int].slot()
                &&& !(scores[k].rtt is Unreachable)
                &&& scores[k].rtt matches RttSlot::Measured(rtt) ==> rtt.nanos <= cutoff.nanos
            }
    }
}

/// Once a chain with a healthy probe was measured, a gated selector scores some
/// chain, and none whose probe died or that is slower than the cutoff: as long
/// as the cutoff is not below the best time.
pub proof fn gated_scores_are_of_eligible_chains<
    G,
    S: Fn(usize, usize, usize, RttSlot) -> i64,
    C: Fn(&G, Duration) -> Duration,
>(selector: NonEmptyRouteSelector<G>, score: S, cutoff_of: C, scores: Seq<ScoredChain>)
    requires
        selector.wf(),
        selector.gate is Some,
        selector.measured(),
        spares_the_best(cutoff_of),
        selector.scores_to(score, cutoff_of, scores),
    ensures
        scores.len() > 0,
        exists|cutoff: Duration| #[trigger]
            selector.cuts_off_at(cutoff_of, cutoff) && selector.all_eligible(scores, cutoff),
{
    let gate = selector.gate->0;
    let i = choose|i: int|
        0 <= i < selector.chains@.len() && (#[trigger] selector.chains@[i]).slot() is Measured;
    let scored = choose|scored: Seq<ScoredChain>| #[trigger]
        selector.scores_as(score, scored) && if none_measured(scored) {
            scores == top(scored, selector.active_chains as nat)
        } else {
            exists|best: Duration, cutoff: Duration|
                {
                    &&& #[trigger] call_ensures(cutoff_of, (&gate, best), cutoff)
                    &&& is_best(scored, best)
                    &&& scores == top(kept(scored, cutoff), selector.active_chains as nat)
                }
        };
    assert(scored[i].rtt is Measured);
    let (best, cutoff) = choose|best: Duration, cutoff: Duration|
        {
            &&& #[trigger] call_ensures(cutoff_of, (&gate, best), cutoff)
            &&& is_best(scored, best)
            &&& scores == top(kept(scored, cutoff), selector.active_chains as nat)
        };
    assert(selector.best_time(best)) by {
        let k = choose|k: int|
            0 <= k < scored.len() && (#[trigger] scored[k]).rtt == RttSlot::Measured(best);
        assert(selector.chains@[k].slot() == RttSlot::Measured(best));
        assert forall|j: int| 0 <= j < selector.chains@.len() implies (
        (#[trigger] selector.chains@[j]).slot() matches RttSlot::Measured(rtt) ==> best.nanos
            <= rtt.nanos) by {
            assert(scored[j].rtt == selector.chains@[j].slot());
        }
    }
    assert(selector.cuts_off_at(cutoff_of, cutoff));
    gate_spares_the_unknown_and_the_best(scored, best, cutoff);
    let left = kept(scored, cutoff);
    the_best_are_among_the_chains(left, selector.active_chains as nat);
    assert forall|k: int| 0 <= k < scores.len() implies {
        &&& (#[trigger] scores[k]).index < selector.chains@.len()
        &&& scores[k].rtt == selector.chains@[scores[k].index as int].slot()
        &&& !(scores[k].rtt is Unreachable)
        &&& scores[k].rtt matches RttSlot::Measured(rtt) ==> rtt.nanos <= cutoff.nanos
    } by {
        assert(left.contains(scores[k]));
        kept_are_the_eligible(scored, cutoff, scores[k]);
        let j = choose|j: int| 0 <= j < scored.len() && scored[j] == scores[k];
        assert(scored[j].index == j);
    }
    assert(selector.all_eligible(scores, cutoff));
}

/// Once a chain with a healthy probe was measured, no choice of a gated
/// selector falls on a chain whose probe died, nor on one whose time is above
/// the cutoff, whatever was drawn and even if all scores are zero: as long as
/// the cutoff is not below the best time.
pub proof fn a_gated_choice_is_of_an_eligible_chain<
    G,
    S: Fn(usize, usize, usize, RttSlot) -> i64,
    C: Fn(&G, Duration) -> Duration,
    F: Fn(usize) -> bool,
>(
    selector: NonEmptyRouteSelector<G>,
    score: S,
    cutoff_of: C,
    scores: Seq<ScoredChain>,
    sum_is_zero: bool,
    covers: F,
    chosen: int,
)
    requires
        selector.wf(),
        selector.gate is Some,
        selector.measured(),
        spares_the_best(cutoff_of),
        selector.scores_to(score, cutoff_of, scores),
        selector.chooses(scores, sum_is_zero, covers, chosen),
    ensures
        0 <= chosen < selector.chains@.len(),
        selector.chains@[chosen].probe_state.healthy(),
        exists|cutoff: Duration| #[trigger]
            selector.cuts_off_at(cutoff_of, cutoff) && (
            selector.chains@[chosen].rtt_stats.effective_nanos() matches Some(nanos) ==> nanos
                <= cutoff.nanos),
{
    gated_scores_are_of_eligible_chains(selector, score, cutoff_of, scores);
    let cutoff = choose|cutoff: Duration| #[trigger]
        selector.cuts_off_at(cutoff_of, cutoff) && selector.all_eligible(scores, cutoff);
    assert(selector.chains@[chosen].wf());
    if selector.chains@.len() == 1 {
        let best = choose|best: Duration| #[trigger]
            selector.best_time(best) && call_ensures(
                cutoff_of,
                (&selector.gate->0, best),
                cutoff,
            );
        assert(selector.chains@[0].slot() == RttSlot::Measured(best));
    } else if sum_is_zero {
        let k = choose|k: int| 0 <= k < scores.len() && (#[trigger] scores[k]).index == chosen;
        assert(scores[k].rtt == selector.chains@[chosen].slot());
    } else {
        let k = choose|k: int| #[trigger]
            draw_lands_on(covers, scores.len(), k) && scores[k].index == chosen;
        assert(scores[k].rtt == selector.chains@[chosen].slot());
    }
}

impl<G> RouteSelector<G> {
    /// Makes a selector; without chains it is empty, whatever else is
    /// configured.
    pub fn new<F, P: Fn(&WeightedConnChain) -> F, R>(
        chains: Vec<WeightedConnChain>,
        make_probe: Option<&P>,
        active_chains: Option<usize>,
        gate: Option<Result<G, R>>,
        probes: &mut ProbeFutures<F>,
    ) -> (r: Result<Self, RouteSelectorError<R>>)
        requires
            total_weight(chains@) <= usize::MAX,
            active_chains matches Some(active) ==> active > 0,
            make_probe matches Some(make) ==> forall|c: &WeightedConnChain|
                call_requires(*make, (c,)),
        ensures
            if chains@.len() == 0 {
                r == Ok::<Self, RouteSelectorError<R>>(RouteSelector::Empty) && *final(probes)
                    == *old(probes)
            } else {
                match NonEmptyRouteSelector::refusal(chains@, active_chains, gate) {
                    Some(error) => r == Err::<Self, _>(error) && *final(probes) == *old(probes),
                    None => {
                        &&& r matches Ok(RouteSelector::NonEmpty(selector))
                        &&& selector.made_of(chains@, make_probe is Some, active_chains, gate)
                        &&& probes_collected(
                            make_probe,
                            chains@,
                            old(probes).futures@,
                            final(probes).futures@,
                        )
                    },
                }
            },
    {
        if chains.len() == 0 {
            return Ok(RouteSelector::Empty);
        }
        match NonEmptyRouteSelector::new(chains, make_probe, active_chains, gate, probes) {
            Ok(selector) => Ok(RouteSelector::NonEmpty(selector)),
            Err(e) => Err(e),
        }
    }
}

/// A selector as it is configured. `R` is what a ratio is given as.
#[derive(Debug)]
pub struct RouteSelectorBuilder<R> {
    pub chains: Vec<WeightedConnChainBuilder>,
    pub probe_rtt: bool,
    pub active_chains: Option<usize>,
    pub max_rtt_ratio: Option<R>,
}

/// Why a selector could not be put together.
#[derive(Debug)]
pub enum RouteSelectorBuildError<R> {
    ChainConfig(WeightedConnChainBuildError),
    RouteSelector(RouteSelectorError<R>),
}

pub type ConnSelectorBuilder<R> = RouteSelectorBuilder<R>;

pub type ConnSelectorBuildError<R> = RouteSelectorBuildError<R>;

/// The weights of the configured chains, one by one.
pub open spec fn configured_weights(chains: Seq<WeightedConnChainBuilder>) -> Seq<usize> {
    chains.map_values(|chain: WeightedConnChainBuilder| chain.weight)
}

/// The weights of the configured chains together.
pub open spec fn configured_weight(chains: Seq<WeightedConnChainBuilder>) -> int {
    weight_sum(configured_weights(chains))
}

/// Whether looking up all chains ends in `r`: all of them, or the error of the
/// first that is not complete.
pub open spec fn chains_resolve_to(
    configured: Seq<WeightedConnChainBuilder>,
    conn: KeyMap<String, HopConfig>,
    r: Result<Seq<WeightedConnChain>, WeightedConnChainBuildError>,
) -> bool {
    match r {
        Ok(chains) => {
            &&& chains.len() == configured.len()
            &&& forall|i: int|
                0 <= i < chains.len() ==> (#[trigger] configured[i]).resolves_to(
                    conn,
                    Ok(chains[i]),
                )
        },
        Err(e) => exists|i: int|
            {
                &&& 0 <= i < configured.len()
                &&& (#[trigger] configured[i]).resolves_to(conn, Err(e))
                &&& forall|j: int| 0 <= j < i ==> chain_complete(#[trigger] configured[j], conn)
            },
    }
}

/// Whether all hops of a configured chain are known.
pub open spec fn chain_complete(
    configured: WeightedConnChainBuilder,
    conn: KeyMap<String, HopConfig>,
) -> bool {
    forall|i: int|
        0 <= i < configured.chain@.len() ==> crate::route::conn_chain::hop_known(
            #[trigger] configured.chain@[i],
            conn,
        )
}

fn resolve_chains(
    configured: Vec<WeightedConnChainBuilder>,
    conn: &KeyMap<String, HopConfig>,
) -> (r: Result<Vec<WeightedConnChain>, WeightedConnChainBuildError>)
    requires
        conn.wf(),
    ensures
        chains_resolve_to(
            configured@,
            *conn,
            match r {
                Ok(chains) => Ok(chains@),
                Err(e) => Err(e),
            },
        ),
        r matches Ok(chains) ==> total_weight(chains@) == configured_weight(configured@),
{
    let ghost all = configured@;
    let mut rest: Vec<WeightedConnChainBuilder> = configured;
    let mut chains: Vec<WeightedConnChain> = Vec::new();
    while rest.len() > 0
        invariant
            conn.wf(),
            all == configured@,
            chains@.len() + rest@.len() == all.len(),
            rest@ == all.skip(chains@.len() as int),
            forall|i: int|
                0 <= i < chains@.len() ==> (#[trigger] all[i]).resolves_to(*conn, Ok(chains@[i])),
            forall|i: int| 0 <= i < chains@.len() ==> chain_complete(#[trigger] all[i], *conn),
        decreases rest@.len(),
    {
        let ghost i = chains@.len() as int;
        let builder = rest.remove(0);
        assert(builder == all[i]);
        assert(rest@ =~= all.skip(i + 1));
        match builder.resolve(conn) {
            Ok(chain) => {
                proof {
                    assert(chain_complete(all[i], *conn)) by {
                        assert forall|k: int| 0 <= k < all[i].chain@.len() implies
                            crate::route::conn_chain::hop_known(
                            #[trigger] all[i].chain@[k],
                            *conn,
                        ) by {
                            assert(crate::route::conn_chain::hop_stands_for(
                                all[i].chain@[k],
                                *conn,
                                chain.chain@[k],
                            ));
                        }
                    }
                }
                chains.push(chain);
            },
            Err(e) => {
                assert(all[i].resolves_to(*conn, Err(e)));
                return Err(e);
            },
        }
    }
    assert(weights_of(chains@) =~= configured_weights(all));
    Ok(chains)
}

impl<R> RouteSelectorBuilder<R> {
    /// Whether making the selector may end in `r`, the collected probes going
    /// from `before` to `after`: an error of the chains comes first, then one
    /// of the selector. Only a selector that was made, and that probes its
    /// chains, adds probes.
    pub open spec fn builds_to<
        G,
        F,
        P: Fn(&WeightedConnChain) -> F,
        Q: Fn(R) -> Result<G, R>,
    >(
        self,
        conn: KeyMap<String, HopConfig>,
        make_probe: P,
        gate_of: Q,
        before: Seq<F>,
        after: Seq<F>,
        r: Result<RouteSelector<G>, RouteSelectorBuildError<R>>,
    ) -> bool {
        match r {
            Err(RouteSelectorBuildError::ChainConfig(e)) => {
                &&& chains_resolve_to(self.chains@, conn, Err(e))
                &&& after == before
            },
            Err(RouteSelectorBuildError::RouteSelector(e)) => {
                &&& after == before
                &&& exists|chains: Seq<WeightedConnChain>, gate: Option<Result<G, R>>|
                    {
                        &&& #[trigger] chains_resolve_to(self.chains@, conn, Ok(chains))
                        &&& chains.len() > 0
                        &&& #[trigger] gate_read(gate_of, self.max_rtt_ratio, gate)
                        &&& NonEmptyRouteSelector::refusal(chains, self.active_chains, gate)
                            == Some(e)
                    }
            },
            Ok(RouteSelector::Empty) => self.chains@.len() == 0 && after == before,
            Ok(RouteSelector::NonEmpty(selector)) => exists|
                chains: Seq<WeightedConnChain>,
                gate: Option<Result<G, R>>,
            |
                {
                    &&& #[trigger] chains_resolve_to(self.chains@, conn, Ok(chains))
                    &&& #[trigger] gate_read(gate_of, self.max_rtt_ratio, gate)
                    &&& NonEmptyRouteSelector::refusal(chains, self.active_chains, gate) is None
                    &&& selector.made_of(chains, self.probe_rtt, self.active_chains, gate)
                    &&& probes_collected(
                        if self.probe_rtt {
                            Some(&make_probe)
                        } else {
                            None
                        },
                        chains,
                        before,
                        after,
                    )
                },
        }
    }

    /// Looks up the chains and makes the selector. `gate_of` reads the ratio.
    pub fn resolve<
        G,
        F,
        P: Fn(&WeightedConnChain) -> F,
        Q: Fn(R) -> Result<G, R>,
    >(
        self,
        conn: &KeyMap<String, HopConfig>,
        make_probe: &P,
        gate_of: &Q,
        probes: &mut ProbeFutures<F>,
    ) -> (r: Result<RouteSelector<G>, RouteSelectorBuildError<R>>)
        requires
            conn.wf(),
            configured_weight(self.chains@) <= usize::MAX,
            self.active_chains matches Some(active) ==> active > 0,
            forall|c: &WeightedConnChain| call_requires(*make_probe, (c,)),
            forall|ratio: R| call_requires(*gate_of, (ratio,)),
        ensures
            self.builds_to(
                *conn,
                *make_probe,
                *gate_of,
                old(probes).futures@,
                final(probes).futures@,
                r,
            ),
    {
        let ghost configured = self.chains@;
        let chains = match resolve_chains(self.chains, conn) {
            Ok(chains) => chains,
            Err(e) => {
                return Err(RouteSelectorBuildError::ChainConfig(e));
            },
        };
        let ghost resolved = chains@;
        assert(chains_resolve_to(configured, *conn, Ok(resolved)));
        let gate = match self.max_rtt_ratio {
            Some(ratio) => Some(gate_of(ratio)),
            None => None,
        };
        assert(gate_read(*gate_of, self.max_rtt_ratio, gate));
        let tracer = if self.probe_rtt {
            Some(make_probe)
        } else {
            None
        };
        match RouteSelector::new(chains, tracer, self.active_chains, gate, probes) {
            Ok(selector) => Ok(selector),
            Err(e) => Err(RouteSelectorBuildError::RouteSelector(e)),
        }
    }
}

/// Whether reading the configured ratio, if there is one, may end in `gate`.
pub open spec fn gate_read<G, R, Q: Fn(R) -> Result<G, R>>(
    gate_of: Q,
    ratio: Option<R>,
    gate: Option<Result<G, R>>,
) -> bool {
    match (ratio, gate) {
        (Some(ratio), Some(read)) => call_ensures(gate_of, (ratio,), read),
        (None, None) => true,
        _ => false,
    }
}

/// Chains are refused exactly if none of them has weight, if the configured
/// ratio cannot be used, or if more are to be active than there are, in this
/// order.
pub proof fn chains_are_refused_for_weight_ratio_or_number<G, R>(
    chains: Seq<WeightedConnChain>,
    active_chains: Option<usize>,
    gate: Option<Result<G, R>>,
)
    ensures
        ({
            let weightless = forall|i: int|
                0 <= i < chains.len() ==> (#[trigger] chains[i]).weight == 0;
            match NonEmptyRouteSelector::<G>::refusal(chains, active_chains, gate) {
                Some(RouteSelectorError::ZeroAccumulatedWeight) => weightless,
                Some(RouteSelectorError::InvalidMaxRttRatio(ratio)) => !weightless && gate == Some(
                    Err::<G, R>(ratio),
                ),
                Some(RouteSelectorError::TooManyActiveChains) => !weightless && !(gate matches Some(
                    Err(_),
                )) && (active_chains matches Some(active) && active > chains.len()),
                None => !weightless && !(gate matches Some(Err(_))) && (active_chains matches Some(
                    active,
                ) ==> active <= chains.len()),
            }
        }),
{
    let weights = weights_of(chains);
    weights_vanish_together(weights);
    assert forall|i: int| 0 <= i < chains.len() implies (#[trigger] chains[i]).weight
        == weights[i] by {}
    if total_weight(chains) == 0 {
        assert forall|i: int| 0 <= i < chains.len() implies (#[trigger] chains[i]).weight == 0 by {
            assert(weights[i] == 0);
        }
    } else {
        let i = choose|i: int| 0 <= i < weights.len() && #[trigger] weights[i] != 0;
        assert(chains[i].weight != 0);
    }
}

/// A selector holds the chains it was made of, in order, unmeasured, with their
/// probes running if they are probed. As many are active as was asked for, or
/// all of them.
pub proof fn a_selector_holds_its_chains<G, R>(
    selector: NonEmptyRouteSelector<G>,
    chains: Seq<WeightedConnChain>,
    probed: bool,
    active_chains: Option<usize>,
    gate: Option<Result<G, R>>,
    i: int,
)
    requires
        selector.made_of(chains, probed, active_chains, gate),
        0 <= i < chains.len(),
    ensures
        selector.chains@.len() == chains.len(),
        selector.chains@[i].weighted == chains[i],
        selector.chains@[i].slot() is Unmeasured,
        selector.chains@[i].rtt_stats.srtt is None,
        selector.chains@[i].probe_state is Running <==> probed,
        selector.chains@[i].probe_state is Disabled <==> !probed,
        selector.cum_weight == weight_sum(chains.map_values(|c: WeightedConnChain| c.weight)),
        active_chains matches Some(active) ==> selector.active_chains == active,
        active_chains is None ==> selector.active_chains == chains.len(),
        gate is None ==> selector.gate is None,
        gate matches Some(Ok(g)) ==> selector.gate == Some(g),
{
    assert(selector.chains@[i].weighted == chains[i]);
    assert(chains.map_values(|c: WeightedConnChain| c.weight) =~= weights_of(chains));
}

/// Each chain that is probed adds one probe, its own, behind those that were
/// there.
pub proof fn each_chain_adds_its_own_probe<F, P: Fn(&WeightedConnChain) -> F>(
    make: &P,
    chains: Seq<WeightedConnChain>,
    before: Seq<F>,
    after: Seq<F>,
)
    requires
        probes_collected(Some(make), chains, before, after),
    ensures
        exists|added: Seq<F>|
            {
                &&& after == #[trigger] (before + added)
                &&& added.len() == chains.len()
                &&& forall|i: int|
                    0 <= i < chains.len() ==> call_ensures(
                        *make,
                        (&chains[i],),
                        #[trigger] added[i],
                    )
            },
{
    let added = after.skip(before.len() as int);
    assert(after =~= before + added) by {
        assert forall|i: int| 0 <= i < before.len() implies after[i] == before[i] by {
            assert(after.take(before.len() as int)[i] == after[i]);
        }
    }
    assert forall|i: int| 0 <= i < chains.len() implies call_ensures(
        *make,
        (&chains[i],),
        #[trigger] added[i],
    ) by {
        assert(added[i] == after[before.len() + i]);
    }
}

/// A selector that does not probe its chains adds no probe.
pub proof fn no_probe_is_added_unasked<F, P: Fn(&WeightedConnChain) -> F>(
    chains: Seq<WeightedConnChain>,
    before: Seq<F>,
    after: Seq<F>,
)
    requires
        probes_collected::<F, P>(None, chains, before, after),
    ensures
        after == before,
{
}

/// Without a gate, or while nothing is measured, the scores are those of the
/// best chains: each chain is scored by its own index, weight and time, those
/// that are kept come from best to worst, and none that is left out scores more.
pub proof fn scores_are_of_the_best_chains<
    G,
    S: Fn(usize, usize, usize, RttSlot) -> i64,
    C: Fn(&G, Duration) -> Duration,
>(selector: NonEmptyRouteSelector<G>, score: S, cutoff_of: C, scores: Seq<ScoredChain>)
    requires
        selector.wf(),
        selector.gate is None || forall|i: int|
            0 <= i < selector.chains@.len() ==> !((
            #[trigger] selector.chains@[i]).slot() is Measured),
        selector.scores_to(score, cutoff_of, scores),
    ensures
        scores.len() == selector.active_chains,
        exists|all: Seq<i64>|
            {
                &&& #[trigger] all.len() == selector.chains@.len()
                &&& forall|i: int|
                    0 <= i < all.len() ==> call_ensures(
                        score,
                        (
                            i as usize,
                            selector.chains@[i].weighted.weight,
                            selector.cum_weight,
                            selector.chains@[i].slot(),
                        ),
                        #[trigger] all[i],
                    )
                &&& forall|k: int|
                    0 <= k < scores.len() ==> (#[trigger] scores[k]).index < all.len()
                        && scores[k].score == all[scores[k].index as int]
                &&& forall|i: int, k: int|
                    0 <= i < all.len() && 0 <= k < scores.len() && #[trigger] unscored(scores, i)
                        ==> all[i] <= (#[trigger] scores[k]).score
            },
        forall|j: int, k: int|
            0 <= j <= k < scores.len() ==> (#[trigger] scores[j]).score >= (
            #[trigger] scores[k]).score,
{
    let scored = choose|scored: Seq<ScoredChain>| #[trigger]
        selector.scores_as(score, scored) && match selector.gate {
            None => scores == top(scored, selector.active_chains as nat),
            Some(gate) => if none_measured(scored) {
                scores == top(scored, selector.active_chains as nat)
            } else {
                exists|best: Duration, cutoff: Duration|
                    {
                        &&& #[trigger] call_ensures(cutoff_of, (&gate, best), cutoff)
                        &&& is_best(scored, best)
                        &&& scores == top(kept(scored, cutoff), selector.active_chains as nat)
                    }
            },
        };
    if selector.gate is Some {
        assert forall|i: int| 0 <= i < scored.len() implies !((
        #[trigger] scored[i]).rtt is Measured) by {
            assert(!(selector.chains@[i].slot() is Measured));
        }
        assert(none_measured(scored));
    }
    let active = selector.active_chains as nat;
    the_kept_outscore_the_left_out(scored, active);
    the_best_are_among_the_chains(scored, active);
    let all = Seq::new(scored.len(), |i: int| scored[i].score);
    assert(all.len() == selector.chains@.len());
    assert forall|i: int| 0 <= i < all.len() implies call_ensures(
        score,
        (
            i as usize,
            selector.chains@[i].weighted.weight,
            selector.cum_weight,
            selector.chains@[i].slot(),
        ),
        #[trigger] all[i],
    ) by {
        assert(scored[i].index == i);
    }
    assert forall|k: int| 0 <= k < scores.len() implies (#[trigger] scores[k]).index < all.len()
        && scores[k].score == all[scores[k].index as int] by {
        assert(scored.contains(scores[k]));
        let j = choose|j: int| 0 <= j < scored.len() && scored[j] == scores[k];
        assert(scored[j].index == j);
    }
    assert forall|i: int, k: int|
        0 <= i < all.len() && 0 <= k < scores.len() && #[trigger] unscored(
            scores,
            i,
        ) implies all[i] <= (#[trigger] scores[k]).score by {
        let chain = scored[i];
        assert(chain.index == i);
        assert(scored.contains(chain));
        if scores.contains(chain) {
            let t = choose|t: int| 0 <= t < scores.len() && scores[t] == chain;
            assert(scores[t].index != i);
        }
        lemma_left_out_is_not_better(scored, active, chain);
    }
}

/// Once a chain was measured, a gated selector leaves out a chain that is within
/// the cutoff, or that nothing is known of, only where enough chains are better
/// or as good.
pub proof fn a_gate_leaves_out_no_better_chain<
    G,
    S: Fn(usize, usize, usize, RttSlot) -> i64,
    C: Fn(&G, Duration) -> Duration,
>(selector: NonEmptyRouteSelector<G>, score: S, cutoff_of: C, scores: Seq<ScoredChain>)
    requires
        selector.wf(),
        selector.gate is Some,
        exists|i: int|
            0 <= i < selector.chains@.len() && (
            #[trigger] selector.chains@[i]).slot() is Measured,
        selector.scores_to(score, cutoff_of, scores),
    ensures
        exists|all: Seq<i64>, cutoff: Duration|
            {
                &&& #[trigger] all.len() == selector.chains@.len()
                &&& #[trigger] selector.cuts_off_at(cutoff_of, cutoff)
                &&& forall|i: int|
                    0 <= i < all.len() ==> call_ensures(
                        score,
                        (
                            i as usize,
                            selector.chains@[i].weighted.weight,
                            selector.cum_weight,
                            selector.chains@[i].slot(),
                        ),
                        #[trigger] all[i],
                    )
                &&& forall|k: int|
                    0 <= k < scores.len() ==> (#[trigger] scores[k]).index < all.len()
                        && scores[k].score == all[scores[k].index as int]
                &&& forall|i: int, k: int|
                    0 <= i < all.len() && #[trigger] unscored(scores, i) && (
                    selector.chains@[i].slot() is Unmeasured || (
                    selector.chains@[i].slot() matches RttSlot::Measured(rtt) && rtt.nanos
                        <= cutoff.nanos)) && 0 <= k < scores.len() ==> all[i] <= (
                    #[trigger] scores[k]).score
                &&& forall|i: int|
                    0 <= i < all.len() && #[trigger] unscored(scores, i) && (
                    selector.chains@[i].slot() is Unmeasured || (
                    selector.chains@[i].slot() matches RttSlot::Measured(rtt) && rtt.nanos
                        <= cutoff.nanos)) ==> scores.len() == selector.active_chains
            },
        forall|j: int, k: int|
            0 <= j <= k < scores.len() ==> (#[trigger] scores[j]).score >= (
            #[trigger] scores[k]).score,
{
    let gate = selector.gate->0;
    let i = choose|i: int|
        0 <= i < selector.chains@.len() && (#[trigger] selector.chains@[i]).slot() is Measured;
    let scored = choose|scored: Seq<ScoredChain>| #[trigger]
        selector.scores_as(score, scored) && if none_measured(scored) {
            scores == top(scored, selector.active_chains as nat)
        } else {
            exists|best: Duration, cutoff: Duration|
                {
                    &&& #[trigger] call_ensures(cutoff_of, (&gate, best), cutoff)
                    &&& is_best(scored, best)
                    &&& scores == top(kept(scored, cutoff), selector.active_chains as nat)
                }
        };
    assert(scored[i].rtt is Measured);
    let (best, cutoff) = choose|best: Duration, cutoff: Duration|
        {
            &&& #[trigger] call_ensures(cutoff_of, (&gate, best), cutoff)
            &&& is_best(scored, best)
            &&& scores == top(kept(scored, cutoff), selector.active_chains as nat)
        };
    assert(selector.best_time(best)) by {
        let k = choose|k: int|
            0 <= k < scored.len() && (#[trigger] scored[k]).rtt == RttSlot::Measured(best);
        assert(selector.chains@[k].slot() == RttSlot::Measured(best));
        assert forall|j: int| 0 <= j < selector.chains@.len() implies (
        (#[trigger] selector.chains@[j]).slot() matches RttSlot::Measured(rtt) ==> best.nanos
            <= rtt.nanos) by {
            assert(scored[j].rtt == selector.chains@[j].slot());
        }
    }
    assert(selector.cuts_off_at(cutoff_of, cutoff));
    let active = selector.active_chains as nat;
    let left = kept(scored, cutoff);
    the_kept_outscore_the_left_out(left, active);
    the_best_are_among_the_chains(left, active);
    let all = Seq::new(scored.len(), |i: int| scored[i].score);
    assert(all.len() == selector.chains@.len());
    assert forall|i: int| 0 <= i < all.len() implies call_ensures(
        score,
        (
            i as usize,
            selector.chains@[i].weighted.weight,
            selector.cum_weight,
            selector.chains@[i].slot(),
        ),
        #[trigger] all[i],
    ) by {
        assert(scored[i].index == i);
    }
    assert forall|k: int| 0 <= k < scores.len() implies (#[trigger] scores[k]).index < all.len()
        && scores[k].score == all[scores[k].index as int] by {
        assert(left.contains(scores[k]));
        kept_are_the_eligible(scored, cutoff, scores[k]);
        let j = choose|j: int| 0 <= j < scored.len() && scored[j] == scores[k];
        assert(scored[j].index == j);
    }
    assert forall|i: int|
        0 <= i < all.len() && #[trigger] unscored(scores, i) && (
        selector.chains@[i].slot() is Unmeasured || (
        selector.chains@[i].slot() matches RttSlot::Measured(rtt) && rtt.nanos
            <= cutoff.nanos)) implies scores.len() == selector.active_chains && (forall|k: int|
        0 <= k < scores.len() ==> all[i] <= (#[trigger] scores[k]).score) by {
        let chain = scored[i];
        assert(chain.index == i);
        assert(scored.contains(chain));
        kept_are_the_eligible(scored, cutoff, chain);
        if scores.contains(chain) {
            let t = choose|t: int| 0 <= t < scores.len() && scores[t] == chain;
            assert(scores[t].index != i);
        }
        lemma_left_out_is_not_better(left, active, chain);
    }
}

/// The choice falls on the only chain, or on one that has a score: any of them
/// if the scores add up to nothing, and otherwise the first whose position
/// covers the draw, or the last.
pub proof fn the_choice_falls_on_a_scored_chain<G, F: Fn(usize) -> bool>(
    selector: NonEmptyRouteSelector<G>,
    scores: Seq<ScoredChain>,
    sum_is_zero: bool,
    covers: F,
    i: int,
)
    requires
        scores.len() > 0,
        scores.len() <= usize::MAX,
        selector.chooses(scores, sum_is_zero, covers, i),
    ensures
        selector.chains@.len() == 1 ==> i == 0,
        selector.chains@.len() != 1 ==> exists|k: int|
            {
                &&& 0 <= k < scores.len()
                &&& (#[trigger] scores[k]).index == i
                &&& !sum_is_zero ==> {
                    &&& forall|j: usize| j < k ==> #[trigger] call_ensures(covers, (j,), false)
                    &&& call_ensures(covers, (k as usize,), true) || k == scores.len() - 1
                }
            },
{
    if selector.chains@.len() != 1 && !sum_is_zero {
        let k = choose|k: int| #[trigger]
            draw_lands_on(covers, scores.len(), k) && scores[k].index == i;
        assert(scores[k].index == i);
    }
}

/// A selector that could be built has a chain for each configured one, with its
/// weight and its hops, and no configured chain is missing.
pub proof fn a_built_selector_is_as_configured<
    R,
    G,
    F,
    P: Fn(&WeightedConnChain) -> F,
    Q: Fn(R) -> Result<G, R>,
>(
    builder: RouteSelectorBuilder<R>,
    conn: KeyMap<String, HopConfig>,
    make_probe: P,
    gate_of: Q,
    before: Seq<F>,
    after: Seq<F>,
    selector: NonEmptyRouteSelector<G>,
    i: int,
)
    requires
        builder.builds_to(
            conn,
            make_probe,
            gate_of,
            before,
            after,
            Ok(RouteSelector::NonEmpty(selector)),
        ),
        0 <= i < builder.chains@.len(),
    ensures
        selector.chains@.len() == builder.chains@.len(),
        selector.chains@[i].weighted.weight == builder.chains@[i].weight,
        selector.chains@[i].weighted.chain@.len() == builder.chains@[i].chain@.len(),
        forall|h: int|
            0 <= h < builder.chains@[i].chain@.len() ==> match #[trigger] builder.chains@[i].chain@[h] {
                SharableConfig::SharingKey(key) => conn@.contains_key(key@)
                    && selector.chains@[i].weighted.chain@[h]@ == conn@[key@]@,
                SharableConfig::Private(hop) => selector.chains@[i].weighted.chain@[h] == hop,
            },
        selector.chains@[i].probe_state is Running <==> builder.probe_rtt,
        builder.active_chains matches Some(active) ==> selector.active_chains == active && active
            <= builder.chains@.len(),
        builder.active_chains is None ==> selector.active_chains == builder.chains@.len(),
        builder.max_rtt_ratio is None ==> selector.gate is None,
        builder.max_rtt_ratio matches Some(ratio) ==> (selector.gate matches Some(gate)
            && call_ensures(gate_of, (ratio,), Ok(gate))),
        after.len() == before.len() + if builder.probe_rtt {
            builder.chains@.len()
        } else {
            0
        },
{
    let (chains, gate) = choose|chains: Seq<WeightedConnChain>, gate: Option<Result<G, R>>|
        {
            &&& #[trigger] chains_resolve_to(builder.chains@, conn, Ok(chains))
            &&& #[trigger] gate_read(gate_of, builder.max_rtt_ratio, gate)
            &&& NonEmptyRouteSelector::refusal(chains, builder.active_chains, gate) is None
            &&& selector.made_of(chains, builder.probe_rtt, builder.active_chains, gate)
            &&& probes_collected(
                if builder.probe_rtt {
                    Some(&make_probe)
                } else {
                    None
                },
                chains,
                before,
                after,
            )
        };
    assert(builder.chains@[i].resolves_to(conn, Ok(chains[i])));
    assert(selector.chains@[i].weighted == chains[i]);
    assert forall|h: int|
        0 <= h < builder.chains@[i].chain@.len() implies match #[trigger] builder.chains@[i].chain@[h] {
        SharableConfig::SharingKey(key) => conn@.contains_key(key@)
            && selector.chains@[i].weighted.chain@[h]@ == conn@[key@]@,
        SharableConfig::Private(hop) => selector.chains@[i].weighted.chain@[h] == hop,
    } by {
        a_resolved_chain_is_as_configured(builder.chains@[i], conn, chains[i], h);
    }
}

/// A selector that could not be built has a hop that is not registered, and the
/// error names the first such one; or no chain has weight; or the ratio cannot be used; or more
/// chains are to be active than there are. No probe is added.
pub proof fn a_selector_fails_for_a_reason<
    R,
    G,
    F,
    P: Fn(&WeightedConnChain) -> F,
    Q: Fn(R) -> Result<G, R>,
>(
    builder: RouteSelectorBuilder<R>,
    conn: KeyMap<String, HopConfig>,
    make_probe: P,
    gate_of: Q,
    before: Seq<F>,
    after: Seq<F>,
    e: RouteSelectorBuildError<R>,
)
    requires
        builder.builds_to::<G, F, P, Q>(conn, make_probe, gate_of, before, after, Err(e)),
    ensures
        after == before,
        match e {
            RouteSelectorBuildError::ChainConfig(error) => exists|i: int, h: int, key: String|
                {
                    &&& 0 <= i < builder.chains@.len()
                    &&& 0 <= h < builder.chains@[i].chain@.len()
                    &&& #[trigger] builder.chains@[i].chain@[h] == SharableConfig::<
                        HopConfig,
                    >::SharingKey(key)
                    &&& !(#[trigger] conn@.contains_key(key@))
                    &&& error == WeightedConnChainBuildError::ProxyServerKeyNotFound(key)
                    &&& forall|j: int, k: int|
                        (0 <= j < i && 0 <= k < builder.chains@[j].chain@.len() || j == i && 0 <= k
                            < h) ==> ((#[trigger] builder.chains@[j].chain@[k]) matches
                            SharableConfig::SharingKey(other) ==> conn@.contains_key(other@))
                },
            RouteSelectorBuildError::RouteSelector(RouteSelectorError::ZeroAccumulatedWeight) =>
                forall|i: int|
                    0 <= i < builder.chains@.len() ==> (#[trigger] builder.chains@[i]).weight == 0,
            RouteSelectorBuildError::RouteSelector(
                RouteSelectorError::InvalidMaxRttRatio(refused),
            ) => builder.max_rtt_ratio matches Some(ratio) && call_ensures(
                gate_of,
                (ratio,),
                Err(refused),
            ),
            RouteSelectorBuildError::RouteSelector(RouteSelectorError::TooManyActiveChains) =>
                builder.active_chains matches Some(active) && active > builder.chains@.len(),
        },
{
    match e {
        RouteSelectorBuildError::ChainConfig(error) => {
            let i = choose|i: int|
                {
                    &&& 0 <= i < builder.chains@.len()
                    &&& (#[trigger] builder.chains@[i]).resolves_to(conn, Err(error))
                    &&& forall|j: int|
                        0 <= j < i ==> chain_complete(#[trigger] builder.chains@[j], conn)
                };
            the_first_unknown_hop_is_named(builder.chains@[i], conn, error);
            let (h, key) = choose|h: int, key: String|
                {
                    &&& 0 <= h < builder.chains@[i].chain@.len()
                    &&& #[trigger] builder.chains@[i].chain@[h] == SharableConfig::<
                        HopConfig,
                    >::SharingKey(key)
                    &&& !(#[trigger] conn@.contains_key(key@))
                    &&& error == WeightedConnChainBuildError::ProxyServerKeyNotFound(key)
                    &&& forall|k: int|
                        0 <= k < h ==> ((#[trigger] builder.chains@[i].chain@[k]) matches
                            SharableConfig::SharingKey(other) ==> conn@.contains_key(other@))
                };
            assert(builder.chains@[i].chain@[h] == SharableConfig::<HopConfig>::SharingKey(key));
            assert forall|j: int, k: int|
                (0 <= j < i && 0 <= k < builder.chains@[j].chain@.len() || j == i && 0 <= k
                    < h) implies ((#[trigger] builder.chains@[j].chain@[k]) matches
                SharableConfig::SharingKey(other) ==> conn@.contains_key(other@)) by {
                if j < i {
                    assert(chain_complete(builder.chains@[j], conn));
                    assert(crate::route::conn_chain::hop_known(
                        builder.chains@[j].chain@[k],
                        conn,
                    ));
                }
            }
        },
        RouteSelectorBuildError::RouteSelector(refused) => {
            let (chains, gate) = choose|
                chains: Seq<WeightedConnChain>,
                gate: Option<Result<G, R>>,
            |
                {
                    &&& #[trigger] chains_resolve_to(builder.chains@, conn, Ok(chains))
                    &&& chains.len() > 0
                    &&& #[trigger] gate_read(gate_of, builder.max_rtt_ratio, gate)
                    &&& NonEmptyRouteSelector::refusal(chains, builder.active_chains, gate) == Some(
                        refused,
                    )
                };
            chains_are_refused_for_weight_ratio_or_number(chains, builder.active_chains, gate);
            assert forall|i: int| 0 <= i < builder.chains@.len() implies (
            #[trigger] builder.chains@[i]).weight == chains[i].weight by {
                assert(builder.chains@[i].resolves_to(conn, Ok(chains[i])));
            }
        },
    }
}

/// A selector has a chain, some weight, and as many active chains as there are
/// at most, but at least one.
pub proof fn a_selector_has_something_to_choose<G>(selector: NonEmptyRouteSelector<G>)
    requires
        selector.wf(),
    ensures
        selector.chains@.len() >= 1,
        selector.cum_weight >= 1,
        1 <= selector.active_chains <= selector.chains@.len(),
{
}

} // verus!

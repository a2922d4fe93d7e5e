//! Choosing one of a group of chains.

use vstd::prelude::*;
use crate::proxy_table::proxy_server::ProxyConfig;
use crate::proxy_table::trace::{TRACES_PER_WAVE, TRACE_INTERVAL_SECS};
use crate::random::random_index;
use crate::route::chain_selection::{
    draw_lands_on, lemma_left_out_is_not_better, pick_weighted, rank_chains,
    the_best_are_among_the_chains, the_kept_outscore_the_left_out, top, unscored, RttSlot,
    ScoreStore, ScoredChain,
};
use crate::route::weight::{lemma_weight_sum_grows, weight_sum, weights_vanish_together};
use crate::time::{Duration, Instant, NANOS_PER_SEC};

verus! {

/// A chain of proxies, and how much it counts among others.
#[derive(Debug)]
pub struct WeightedProxyChain<A> {
    pub weight: usize,
    pub chain: Vec<ProxyConfig<A>>,
}

/// A chain with what its last wave of traces found out: the mean time, if any
/// trace came back, and how many were lost.
#[derive(Debug)]
pub struct GaugedProxyChain<A> {
    pub weighted: WeightedProxyChain<A>,
    pub rtt: Option<Duration>,
    pub lost: Option<usize>,
}

/// What a chain is scored by.
#[derive(Debug, Clone, Copy, PartialEq, Eq, Structural)]
pub struct ProxyChainGauge {
    pub weight: usize,
    pub rtt: Option<Duration>,
    pub lost: Option<usize>,
}

impl<A> GaugedProxyChain<A> {
    /// A chain of which nothing is known yet.
    pub fn new(weighted: WeightedProxyChain<A>) -> (r: Self)
        ensures
            r.weighted == weighted,
            r.rtt is None,
            r.lost is None,
    {
        GaugedProxyChain { weighted, rtt: None, lost: None }
    }

    pub fn weighted(&self) -> (r: &WeightedProxyChain<A>)
        ensures
            *r == self.weighted,
    {
        &self.weighted
    }

    pub fn rtt(&self) -> (r: Option<Duration>)
        ensures
            r == self.rtt,
    {
        self.rtt
    }

    pub open spec fn spec_gauge(self) -> ProxyChainGauge {
        ProxyChainGauge { weight: self.weighted.weight, rtt: self.rtt, lost: self.lost }
    }

    pub fn gauge(&self) -> (r: ProxyChainGauge)
        ensures
            r == self.spec_gauge(),
    {
        ProxyChainGauge { weight: self.weighted.weight, rtt: self.rtt, lost: self.lost }
    }

    /// Takes note of a wave.
    pub fn set_gauge(&mut self, rtt: Option<Duration>, lost: usize)
        requires
            lost <= TRACES_PER_WAVE,
        ensures
            final(self).weighted == old(self).weighted,
            final(self).rtt == rtt,
            final(self).lost == Some(lost),
    {
        self.rtt = rtt;
        self.lost = Some(lost);
    }
}

/// The chains cannot be chosen from.
#[derive(Debug, Clone, Copy, PartialEq, Eq, Structural)]
pub enum ProxyGroupError {
    ZeroAccumulatedWeight,
    TooManyActiveChains,
}

/// Chains to choose from, at least one.
#[derive(Debug)]
pub struct ProxyGroup<A> {
    pub chains: Vec<GaugedProxyChain<A>>,
    pub cum_weight: usize,
    pub active_chains: usize,
    /// Whether the chains are traced.
    pub traced: bool,
}

/// The weights of the chains, one by one.
pub open spec fn group_weights<A>(chains: Seq<WeightedProxyChain<A>>) -> Seq<usize> {
    chains.map_values(|chain: WeightedProxyChain<A>| chain.weight)
}

/// The weights of the chains together.
pub open spec fn group_weight<A>(chains: Seq<WeightedProxyChain<A>>) -> int {
    weight_sum(group_weights(chains))
}

impl<A> ProxyGroup<A> {
    /// There is a chain, there is weight, and no more chains are active than
    /// there are.
    pub open spec fn wf(self) -> bool {
        &&& self.chains@.len() > 0
        &&& self.cum_weight > 0
        &&& 0 < self.active_chains <= self.chains@.len()
    }

    /// Why the chains cannot be chosen from, if they cannot.
    pub open spec fn refusal(
        chains: Seq<WeightedProxyChain<A>>,
        active_chains: Option<usize>,
    ) -> Option<ProxyGroupError> {
        if group_weight(chains) == 0 {
            Some(ProxyGroupError::ZeroAccumulatedWeight)
        } else if active_chains is Some && active_chains->0 > chains.len() {
            Some(ProxyGroupError::TooManyActiveChains)
        } else {
            None
        }
    }

    /// Whether the group is made of these chains, with nothing known of them
    /// yet.
    pub open spec fn made_of(
        self,
        chains: Seq<WeightedProxyChain<A>>,
        traced: bool,
        active_chains: Option<usize>,
    ) -> bool {
        &&& self.wf()
        &&& self.traced == traced
        &&& self.chains@.len() == chains.len()
        &&& forall|i: int|
            0 <= i < chains.len() ==> {
                &&& (#[trigger] self.chains@[i]).weighted == chains[i]
                &&& self.chains@[i].rtt is None
                &&& self.chains@[i].lost is None
            }
        &&& self.cum_weight == group_weight(chains)
        &&& self.active_chains == (match active_chains {
            Some(active) => active as int,
            None => chains.len() as int,
        })
    }

    /// Makes a group. All its chains are active unless fewer are asked for.
    pub fn new(
        chains: Vec<WeightedProxyChain<A>>,
        traced: bool,
        active_chains: Option<usize>,
    ) -> (r: Result<Self, ProxyGroupError>)
        requires
            group_weight(chains@) <= usize::MAX,
            active_chains matches Some(active) ==> active > 0,
        ensures
            match Self::refusal(chains@, active_chains) {
                Some(error) => r == Err::<Self, _>(error),
                None => r matches Ok(group) && group.made_of(chains@, traced, active_chains),
            },
    {
        let ghost weights = group_weights(chains@);
        let mut cum_weight: usize = 0;
        let mut i: usize = 0;
        while i < chains.len()
            invariant
                i <= chains@.len(),
                weights == group_weights(chains@),
                cum_weight == weight_sum(weights.take(i as int)),
                weight_sum(weights) <= usize::MAX,
            decreases chains@.len() - i,
        {
            proof {
                lemma_weight_sum_grows(weights, i as int);
            }
            cum_weight = cum_weight + chains[i].weight;
            i += 1;
        }
        assert(weights.take(i as int) =~= weights);
        if cum_weight == 0 {
            return Err(ProxyGroupError::ZeroAccumulatedWeight);
        }
        let active_chains: usize = match active_chains {
            Some(active) => {
                if active > chains.len() {
                    return Err(ProxyGroupError::TooManyActiveChains);
                }
                active
            },
            None => chains.len(),
        };
        let ghost all = chains@;
        let mut rest: Vec<WeightedProxyChain<A>> = chains;
        let mut gauged: Vec<GaugedProxyChain<A>> = Vec::new();
        while rest.len() > 0
            invariant
                gauged@.len() + rest@.len() == all.len(),
                rest@ == all.skip(gauged@.len() as int),
                forall|i: int|
                    0 <= i < gauged@.len() ==> {
                        &&& (#[trigger] gauged@[i]).weighted == all[i]
                        &&& gauged@[i].rtt is None
                        &&& gauged@[i].lost is None
                    },
            decreases rest@.len(),
        {
            let ghost i = gauged@.len() as int;
            let weighted = rest.remove(0);
            assert(weighted == all[i]);
            assert(rest@ =~= all.skip(i + 1));
            gauged.push(GaugedProxyChain::new(weighted));
        }
        Ok(ProxyGroup { chains: gauged, cum_weight, active_chains, traced })
    }

    /// Whether these are the chains with their ranks.
    pub open spec fn scored_as(self, ranks: Seq<i64>, scored: Seq<ScoredChain>) -> bool {
        &&& scored.len() == self.chains@.len()
        &&& ranks.len() == self.chains@.len()
        &&& forall|i: int|
            0 <= i < scored.len() ==> (#[trigger] scored[i]) == (ScoredChain {
                index: i as usize,
                score: ranks[i],
                rtt: match self.chains@[i].rtt {
                    Some(rtt) => RttSlot::Measured(rtt),
                    None => RttSlot::Unmeasured,
                },
            })
    }

    /// Whether these are the gauges of all chains, in order.
    pub open spec fn gauged_as(self, gauges: Seq<ProxyChainGauge>) -> bool {
        &&& gauges.len() == self.chains@.len()
        &&& forall|i: int|
            0 <= i < gauges.len() ==> (#[trigger] gauges[i]) == self.chains@[i].spec_gauge()
    }

    /// Whether scoring all chains at once may give these ranks.
    pub open spec fn ranks_as<S: Fn(&[ProxyChainGauge], usize) -> Vec<i64>>(
        self,
        score: S,
        ranks: Vec<i64>,
    ) -> bool {
        exists|gauges: &[ProxyChainGauge]| #[trigger]
            self.gauged_as(gauges@) && call_ensures(score, (gauges, self.cum_weight), ranks)
    }

    /// Whether ranking the chains may give these scores.
    pub open spec fn scores_to<S: Fn(&[ProxyChainGauge], usize) -> Vec<i64>>(
        self,
        score: S,
        scores: Seq<ScoredChain>,
    ) -> bool {
        exists|ranks: Vec<i64>, scored: Seq<ScoredChain>|
            {
                &&& #[trigger] self.ranks_as(score, ranks)
                &&& #[trigger] self.scored_as(ranks@, scored)
                &&& scores == top(scored, self.active_chains as nat)
            }
    }

    /// The active chains, best first. `score` ranks all chains at once, by
    /// their gauges and the weight of all.
    pub fn scores<S: Fn(&[ProxyChainGauge], usize) -> Vec<i64>>(&self, score: &S) -> (r: Vec<
        ScoredChain,
    >)
        requires
            self.wf(),
            forall|g: &[ProxyChainGauge], w: usize| call_requires(*score, (g, w)),
            forall|g: &[ProxyChainGauge], w: usize, ranks: Vec<i64>| #[trigger]
                call_ensures(*score, (g, w), ranks) ==> ranks@.len() == g@.len(),
        ensures
            self.scores_to(*score, r@),
            self.ranks(r@),
            r@.len() == self.active_chains,
    {
        let mut gauges: Vec<ProxyChainGauge> = Vec::new();
        let mut i: usize = 0;
        while i < self.chains.len()
            invariant
                i <= self.chains@.len(),
                gauges@.len() == i,
                forall|j: int|
                    0 <= j < i ==> (#[trigger] gauges@[j]) == self.chains@[j].spec_gauge(),
            decreases self.chains@.len() - i,
        {
            gauges.push(self.chains[i].gauge());
            i += 1;
        }
        let all: &[ProxyChainGauge] = gauges.as_slice();
        assert(self.gauged_as(all@));
        let ranks: Vec<i64> = score(all, self.cum_weight);
        assert(self.ranks_as(*score, ranks));
        let mut scored: Vec<ScoredChain> = Vec::new();
        let mut k: usize = 0;
        while k < self.chains.len()
            invariant
                k <= self.chains@.len(),
                ranks@.len() == self.chains@.len(),
                scored@.len() == k,
                forall|j: int|
                    0 <= j < k ==> (#[trigger] scored@[j]) == (ScoredChain {
                        index: j as usize,
                        score: ranks@[j],
                        rtt: match self.chains@[j].rtt {
                            Some(rtt) => RttSlot::Measured(rtt),
                            None => RttSlot::Unmeasured,
                        },
                    }),
            decreases self.chains@.len() - k,
        {
            let rtt = match self.chains[k].rtt {
                Some(rtt) => RttSlot::Measured(rtt),
                None => RttSlot::Unmeasured,
            };
            scored.push(ScoredChain { index: k, score: ranks[k], rtt });
            k += 1;
        }
        assert(self.scored_as(ranks@, scored@));
        let best = rank_chains(scored.as_slice(), self.active_chains);
        proof {
            the_best_are_among_the_chains(scored@, self.active_chains as nat);
            assert forall|j: int| 0 <= j < best@.len() implies (#[trigger] best@[j]).index
                < self.chains@.len() by {
                assert(scored@.contains(best@[j]));
            }
        }
        best
    }

    /// Whether the scores are of chains that there are.
    pub open spec fn ranks(self, scores: Seq<ScoredChain>) -> bool {
        forall|i: int| 0 <= i < scores.len() ==> (#[trigger] scores[i]).index < self.chains@.len()
    }

    /// A store for the scores, as long as they are good for.
    pub fn score_store() -> (r: ScoreStore)
        ensures
            r.ttl.nanos == TRACE_INTERVAL_SECS * NANOS_PER_SEC,
            r.made is None,
    {
        ScoreStore::new(Duration::from_secs(TRACE_INTERVAL_SECS))
    }

    /// Ranks the chains anew, unless the scores that are stored are still
    /// good. Tells whether it did.
    pub fn refresh_scores<S: Fn(&[ProxyChainGauge], usize) -> Vec<i64>>(
        &self,
        store: &mut ScoreStore,
        now: Instant,
        score: &S,
    ) -> (renewed: bool)
        requires
            self.wf(),
            forall|g: &[ProxyChainGauge], w: usize| call_requires(*score, (g, w)),
            forall|g: &[ProxyChainGauge], w: usize, ranks: Vec<i64>| #[trigger]
                call_ensures(*score, (g, w), ranks) ==> ranks@.len() == g@.len(),
        ensures
            renewed == (old(store).good_at(now) is None),
            !renewed ==> *final(store) == *old(store),
            renewed ==> {
                &&& final(store).ttl == old(store).ttl
                &&& final(store).made matches Some((at, scores))
                &&& at == now
                &&& self.scores_to(*score, scores@)
                &&& self.ranks(scores@)
                &&& scores@.len() == self.active_chains
            },
    {
        if store.get(now).is_some() {
            return false;
        }
        let scores = self.scores(score);
        store.set(scores, now);
        true
    }

    /// Chooses a chain: the only one, or one at random. Where the scores add
    /// up to nothing every chain of the group is as likely; otherwise it is
    /// the one that a draw lands on. `covers` tells whether the scores up to
    /// and with a position reach the draw.
    pub fn choose_chain<F: Fn(usize) -> bool>(
        &self,
        scores: &[ScoredChain],
        sum_is_zero: bool,
        covers: &F,
    ) -> (r: &WeightedProxyChain<A>)
        requires
            self.wf(),
            self.ranks(scores@),
            scores@.len() > 0,
            forall|i: usize| i < scores@.len() ==> call_requires(*covers, (i,)),
        ensures
            if self.chains@.len() == 1 {
                *r == self.chains@[0].weighted
            } else if sum_is_zero {
                exists|i: int|
                    0 <= i < self.chains@.len() && *r == (#[trigger] self.chains@[i]).weighted
            } else {
                exists|k: int| #[trigger]
                    draw_lands_on(*covers, scores@.len(), k) && *r
                        == self.chains@[scores@[k].index as int].weighted
            },
    {
        if self.chains.len() == 1 {
            return &self.chains[0].weighted;
        }
        if sum_is_zero {
            let i: usize = random_index(self.chains.len());
            return &self.chains[i].weighted;
        }
        let i: usize = pick_weighted(scores, covers);
        &self.chains[i].weighted
    }
}

/// A group as it is configured. `B` is what a chain is configured as.
#[derive(Debug)]
pub struct ProxyGroupBuilder<B> {
    pub chains: Vec<B>,
    pub trace_rtt: bool,
    pub active_chains: Option<usize>,
}

/// Why a group could not be put together. `E` says what is wrong with a chain.
#[derive(Debug)]
pub enum ProxyGroupBuildError<E> {
    ChainConfig(E),
    ProxyGroup(ProxyGroupError),
}

/// Whether a configured chain may be put together.
pub open spec fn chain_builds<B, A, E, F: Fn(B) -> Result<WeightedProxyChain<A>, E>>(
    build_chain: F,
    configured: B,
) -> bool {
    exists|chain: WeightedProxyChain<A>| #[trigger]
        call_ensures(build_chain, (configured,), Ok(chain))
}

/// Whether putting all chains together may end in `r`: all of them, or the
/// error of the first that fails.
pub open spec fn chains_build_to<B, A, E, F: Fn(B) -> Result<WeightedProxyChain<A>, E>>(
    build_chain: F,
    configured: Seq<B>,
    r: Result<Seq<WeightedProxyChain<A>>, E>,
) -> bool {
    match r {
        Ok(chains) => {
            &&& chains.len() == configured.len()
            &&& forall|i: int|
                0 <= i < chains.len() ==> call_ensures(
                    build_chain,
                    (#[trigger] configured[i],),
                    Ok(chains[i]),
                )
        },
        Err(e) => exists|i: int|
            {
                &&& 0 <= i < configured.len()
                &&& call_ensures(build_chain, (#[trigger] configured[i],), Err(e))
                &&& forall|j: int|
                    0 <= j < i ==> chain_builds(build_chain, #[trigger] configured[j])
            },
    }
}

impl<B> ProxyGroupBuilder<B> {
    /// Whether making the group may end in `r`: an error of the chains comes
    /// first, then one of the group.
    pub open spec fn builds_to<A, E, F: Fn(B) -> Result<WeightedProxyChain<A>, E>>(
        self,
        build_chain: F,
        r: Result<ProxyGroup<A>, ProxyGroupBuildError<E>>,
    ) -> bool {
        match r {
            Err(ProxyGroupBuildError::ChainConfig(e)) => chains_build_to(
                build_chain,
                self.chains@,
                Err(e),
            ),
            Err(ProxyGroupBuildError::ProxyGroup(e)) => exists|chains: Seq<WeightedProxyChain<A>>|
                #[trigger] chains_build_to(build_chain, self.chains@, Ok(chains))
                    && ProxyGroup::refusal(chains, self.active_chains) == Some(e),
            Ok(group) => exists|chains: Seq<WeightedProxyChain<A>>| #[trigger]
                chains_build_to(build_chain, self.chains@, Ok(chains)) && ProxyGroup::refusal(
                    chains,
                    self.active_chains,
                ) is None && group.made_of(chains, self.trace_rtt, self.active_chains),
        }
    }

    /// Puts the chains together, in order, and makes the group.
    pub fn build<A, E, F: Fn(B) -> Result<WeightedProxyChain<A>, E>>(self, build_chain: &F) -> (r:
        Result<ProxyGroup<A>, ProxyGroupBuildError<E>>)
        requires
            self.active_chains matches Some(active) ==> active > 0,
            forall|b: B| call_requires(*build_chain, (b,)),
            forall|chains: Seq<WeightedProxyChain<A>>| #[trigger]
                chains_build_to(*build_chain, self.chains@, Ok(chains)) ==> group_weight(chains)
                    <= usize::MAX,
        ensures
            self.builds_to(*build_chain, r),
    {
        let ghost configured = self.chains@;
        let mut rest: Vec<B> = self.chains;
        let mut chains: Vec<WeightedProxyChain<A>> = Vec::new();
        while rest.len() > 0
            invariant
                configured == self.chains@,
                forall|b: B| call_requires(*build_chain, (b,)),
                chains@.len() + rest@.len() == configured.len(),
                rest@ == configured.skip(chains@.len() as int),
                forall|i: int|
                    0 <= i < chains@.len() ==> call_ensures(
                        *build_chain,
                        (#[trigger] configured[i],),
                        Ok(chains@[i]),
                    ),
                forall|i: int|
                    0 <= i < chains@.len() ==> chain_builds(*build_chain, #[trigger] configured[i]),
            decreases rest@.len(),
        {
            let ghost i = chains@.len() as int;
            let builder = rest.remove(0);
            assert(builder == configured[i]);
            assert(rest@ =~= configured.skip(i + 1));
            match build_chain(builder) {
                Ok(chain) => {
                    assert(chain_builds(*build_chain, configured[i]));
                    chains.push(chain);
                },
                Err(e) => {
                    assert(call_ensures(*build_chain, (configured[i],), Err(e)));
                    return Err(ProxyGroupBuildError::ChainConfig(e));
                },
            }
        }
        assert(chains_build_to(*build_chain, self.chains@, Ok(chains@)));
        match ProxyGroup::new(chains, self.trace_rtt, self.active_chains) {
            Ok(group) => Ok(group),
            Err(e) => Err(ProxyGroupBuildError::ProxyGroup(e)),
        }
    }
}

/// A group is refused exactly if none of its chains has weight, or if more are
/// to be active than there are.
pub proof fn a_group_is_refused_for_weight_or_number<A>(
    chains: Seq<WeightedProxyChain<A>>,
    active_chains: Option<usize>,
)
    ensures
        ({
            let weightless = forall|i: int|
                0 <= i < chains.len() ==> (#[trigger] chains[i]).weight == 0;
            match ProxyGroup::<A>::refusal(chains, active_chains) {
                Some(ProxyGroupError::ZeroAccumulatedWeight) => weightless,
                Some(ProxyGroupError::TooManyActiveChains) => !weightless && (
                active_chains matches Some(active) && active > chains.len()),
                None => !weightless && (active_chains matches Some(active) ==> active
                    <= chains.len()),
            }
        }),
{
    let weights = group_weights(chains);
    weights_vanish_together(weights);
    assert forall|i: int| 0 <= i < chains.len() implies (#[trigger] chains[i]).weight
        == weights[i] by {}
    if group_weight(chains) == 0 {
        assert forall|i: int| 0 <= i < chains.len() implies (#[trigger] chains[i]).weight == 0 by {
            assert(weights[i] == 0);
        }
    } else {
        let i = choose|i: int| 0 <= i < weights.len() && #[trigger] weights[i] != 0;
        assert(chains[i].weight != 0);
    }
}

/// A group holds the chains it was made of, in order, with nothing known of
/// them. As many are active as was asked for, or all of them.
pub proof fn a_group_holds_its_chains<A>(
    group: ProxyGroup<A>,
    chains: Seq<WeightedProxyChain<A>>,
    traced: bool,
    active_chains: Option<usize>,
    i: int,
)
    requires
        group.made_of(chains, traced, active_chains),
        0 <= i < chains.len(),
    ensures
        group.chains@.len() == chains.len(),
        group.chains@[i].weighted == chains[i],
        group.chains@[i].rtt is None,
        group.chains@[i].lost is None,
        group.traced == traced,
        group.cum_weight == weight_sum(chains.map_values(|c: WeightedProxyChain<A>| c.weight)),
        active_chains matches Some(active) ==> group.active_chains == active,
        active_chains is None ==> group.active_chains == chains.len(),
{
    assert(group.chains@[i].weighted == chains[i]);
    assert(chains.map_values(|c: WeightedProxyChain<A>| c.weight) =~= group_weights(chains));
}

/// The scores of a group are those of its best chains: all chains are scored at
/// once by their weights, times and losses, those that are kept come from best
/// to worst, and none that is left out scores more.
pub proof fn group_scores_are_of_the_best_chains<
    A,
    S: Fn(&[ProxyChainGauge], usize) -> Vec<i64>,
>(group: ProxyGroup<A>, score: S, scores: Seq<ScoredChain>)
    requires
        group.wf(),
        group.scores_to(score, scores),
    ensures
        scores.len() == group.active_chains,
        forall|j: int, k: int|
            0 <= j <= k < scores.len() ==> (#[trigger] scores[j]).score >= (
            #[trigger] scores[k]).score,
        exists|gauges: &[ProxyChainGauge], all: Vec<i64>|
            {
                &&& #[trigger] call_ensures(score, (gauges, group.cum_weight), all)
                &&& gauges@.len() == group.chains@.len()
                &&& all@.len() == group.chains@.len()
                &&& forall|i: int|
                    0 <= i < gauges@.len() ==> (#[trigger] gauges@[i]).weight
                        == group.chains@[i].weighted.weight && gauges@[i].rtt == group.chains@[i].rtt
                        && gauges@[i].lost == group.chains@[i].lost
                &&& forall|k: int|
                    0 <= k < scores.len() ==> (#[trigger] scores[k]).index < all@.len()
                        && scores[k].score == all@[scores[k].index as int] && scores[k].rtt == (
                    match group.chains@[scores[k].index as int].rtt {
                        Some(rtt) => RttSlot::Measured(rtt),
                        None => RttSlot::Unmeasured,
                    })
                &&& forall|i: int, k: int|
                    0 <= i < all@.len() && 0 <= k < scores.len() && #[trigger] unscored(scores, i)
                        ==> all@[i] <= (#[trigger] scores[k]).score
            },
{
    let (ranks, scored) = choose|ranks: Vec<i64>, scored: Seq<ScoredChain>|
        {
            &&& #[trigger] group.ranks_as(score, ranks)
            &&& #[trigger] group.scored_as(ranks@, scored)
            &&& scores == top(scored, group.active_chains as nat)
        };
    let gauges = choose|gauges: &[ProxyChainGauge]| #[trigger]
        group.gauged_as(gauges@) && call_ensures(score, (gauges, group.cum_weight), ranks);
    let active = group.active_chains as nat;
    assert(group.chains.len() == group.chains@.len());
    the_kept_outscore_the_left_out(scored, active);
    the_best_are_among_the_chains(scored, active);
    assert(call_ensures(score, (gauges, group.cum_weight), ranks));
    assert forall|k: int| 0 <= k < scores.len() implies (#[trigger] scores[k]).index < ranks@.len()
        && scores[k].score == ranks@[scores[k].index as int] && scores[k].rtt == (
    match group.chains@[scores[k].index as int].rtt {
        Some(rtt) => RttSlot::Measured(rtt),
        None => RttSlot::Unmeasured,
    }) by {
        assert(scored.contains(scores[k]));
        let j = choose|j: int| 0 <= j < scored.len() && scored[j] == scores[k];
        assert(scored[j].index == j);
    }
    assert forall|i: int, k: int|
        0 <= i < ranks@.len() && 0 <= k < scores.len() && #[trigger] unscored(
            scores,
            i,
        ) implies ranks@[i] <= (#[trigger] scores[k]).score by {
        let chain = scored[i];
        assert(chain.index == i);
        assert(scored.contains(chain));
        if scores.contains(chain) {
            let t = choose|t: int| 0 <= t < scores.len() && scores[t] == chain;
            assert(scores[t].index != i);
        }
        lemma_left_out_is_not_better(scored, active, chain);
    }
}

/// A group that could be built has a chain for each configured one, in order,
/// as it was put together.
pub proof fn a_built_group_is_as_configured<
    B,
    A,
    E,
    F: Fn(B) -> Result<WeightedProxyChain<A>, E>,
>(builder: ProxyGroupBuilder<B>, build_chain: F, group: ProxyGroup<A>, i: int)
    requires
        builder.builds_to::<A, E, F>(build_chain, Ok(group)),
        0 <= i < builder.chains@.len(),
    ensures
        group.chains@.len() == builder.chains@.len(),
        call_ensures(build_chain, (builder.chains@[i],), Ok(group.chains@[i].weighted)),
        group.traced == builder.trace_rtt,
        builder.active_chains matches Some(active) ==> group.active_chains == active && active
            <= builder.chains@.len(),
        builder.active_chains is None ==> group.active_chains == builder.chains@.len(),
        exists|k: int| 0 <= k < group.chains@.len() && (#[trigger] group.chains@[k]).weighted.weight > 0,
{
    let chains = choose|chains: Seq<WeightedProxyChain<A>>| #[trigger]
        chains_build_to(build_chain, builder.chains@, Ok(chains)) && ProxyGroup::refusal(
            chains,
            builder.active_chains,
        ) is None && group.made_of(chains, builder.trace_rtt, builder.active_chains);
    assert(call_ensures(build_chain, (builder.chains@[i],), Ok(chains[i])));
    assert(group.chains@[i].weighted == chains[i]);
    a_group_is_refused_for_weight_or_number(chains, builder.active_chains);
    let k = choose|k: int| 0 <= k < chains.len() && (#[trigger] chains[k]).weight != 0;
    assert(group.chains@[k].weighted == chains[k]);
}

/// A group that could not be built has a chain that could not be put together,
/// or its chains have no weight, or fewer than are to be active.
pub proof fn a_group_fails_for_a_reason<B, A, E, F: Fn(B) -> Result<WeightedProxyChain<A>, E>>(
    builder: ProxyGroupBuilder<B>,
    build_chain: F,
    e: ProxyGroupBuildError<E>,
)
    requires
        builder.builds_to(build_chain, Err::<ProxyGroup<A>, _>(e)),
    ensures
        match e {
            ProxyGroupBuildError::ChainConfig(error) => exists|i: int|
                0 <= i < builder.chains@.len() && call_ensures(
                    build_chain,
                    (#[trigger] builder.chains@[i],),
                    Err(error),
                ) && forall|j: int|
                    0 <= j < i ==> chain_builds::<B, A, E, F>(
                        build_chain,
                        #[trigger] builder.chains@[j],
                    ),
            ProxyGroupBuildError::ProxyGroup(ProxyGroupError::TooManyActiveChains) =>
                builder.active_chains matches Some(active) && active > builder.chains@.len(),
            ProxyGroupBuildError::ProxyGroup(ProxyGroupError::ZeroAccumulatedWeight) => exists|
                chains: Seq<WeightedProxyChain<A>>,
            |
                {
                    &&& #[trigger] chains.len() == builder.chains@.len()
                    &&& forall|i: int|
                        0 <= i < chains.len() ==> (#[trigger] chains[i]).weight == 0
                            && call_ensures(build_chain, (builder.chains@[i],), Ok(chains[i]))
                },
        },
{
    if let ProxyGroupBuildError::ProxyGroup(refused) = e {
        let chains = choose|chains: Seq<WeightedProxyChain<A>>| #[trigger]
            chains_build_to(build_chain, builder.chains@, Ok(chains)) && ProxyGroup::refusal(
                chains,
                builder.active_chains,
            ) == Some(refused);
        a_group_is_refused_for_weight_or_number(chains, builder.active_chains);
        assert(chains.len() == builder.chains@.len());
        if refused is ZeroAccumulatedWeight {
            assert forall|i: int| 0 <= i < chains.len() implies (#[trigger] chains[i]).weight == 0
                && call_ensures(build_chain, (builder.chains@[i],), Ok(chains[i])) by {
                let configured = builder.chains@[i];
            }
        }
    }
}

/// A chain counts as one that can be put together only if it can.
pub proof fn a_chain_that_only_fails_does_not_build<
    B,
    A,
    E,
    F: Fn(B) -> Result<WeightedProxyChain<A>, E>,
>(build_chain: F, configured: B)
    requires
        forall|out: Result<WeightedProxyChain<A>, E>| #[trigger]
            call_ensures(build_chain, (configured,), out) ==> out is Err,
    ensures
        !chain_builds::<B, A, E, F>(build_chain, configured),
{
}

/// A group has a chain, some weight, and as many active chains as there are at
/// most, but at least one.
pub proof fn a_group_has_something_to_choose<A>(group: ProxyGroup<A>)
    ensures
        group.wf() <==> group.chains@.len() >= 1 && group.cum_weight >= 1 && 1
            <= group.active_chains <= group.chains@.len(),
{
}

} // verus!

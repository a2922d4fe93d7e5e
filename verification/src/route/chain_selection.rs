//! Which chains are worth taking, and in which order.
//!
//! Scores are computed elsewhere. Here a score is an integer that ranks as the
//! score does: the greater the better.

use vstd::prelude::*;
use crate::time::Duration;
use crate::ttl_cell::TtlCell;

verus! {

/// What is known of a chain's round trip time.
#[derive(Debug, Clone, Copy, PartialEq, Eq, Structural)]
pub enum RttSlot {
    /// The chain was measured.
    Measured(Duration),
    /// No sample came yet, or the chain is not probed: nothing speaks against
    /// it.
    Unmeasured,
    /// The probe died by itself, so that what it measured is stale.
    Unreachable,
}

/// A chain and its rank.
#[derive(Debug, Clone, Copy, PartialEq, Eq, Structural)]
pub struct ScoredChain {
    pub index: usize,
    pub score: i64,
    pub rtt: RttSlot,
}

/// Scores that are kept for a while.
pub type ScoreStore = TtlCell<Vec<ScoredChain>>;

/// Whether a chain may stay beside a best one with this cutoff.
pub open spec fn eligible(chain: ScoredChain, cutoff: Duration) -> bool {
    match chain.rtt {
        RttSlot::Measured(rtt) => rtt.nanos <= cutoff.nanos,
        RttSlot::Unmeasured => true,
        RttSlot::Unreachable => false,
    }
}

/// Whether `best` is the shortest time measured of the chains.
pub open spec fn is_best(chains: Seq<ScoredChain>, best: Duration) -> bool {
    &&& exists|i: int| 0 <= i < chains.len() && (#[trigger] chains[i]).rtt == RttSlot::Measured(best)
    &&& forall|i: int|
        0 <= i < chains.len() ==> ((#[trigger] chains[i]).rtt matches RttSlot::Measured(rtt)
            ==> best.nanos <= rtt.nanos)
}

/// Whether no chain was measured.
pub open spec fn none_measured(chains: Seq<ScoredChain>) -> bool {
    forall|i: int| 0 <= i < chains.len() ==> !((#[trigger] chains[i]).rtt is Measured)
}

/// The shortest time measured of the chains.
pub fn best_measured(chains: &[ScoredChain]) -> (r: Option<Duration>)
    ensures
        match r {
            Some(best) => is_best(chains@, best),
            None => none_measured(chains@),
        },
{
    let mut best: Option<Duration> = None;
    let mut i: usize = 0;
    while i < chains.len()
        invariant
            i <= chains@.len(),
            match best {
                Some(best) => is_best(chains@.take(i as int), best),
                None => none_measured(chains@.take(i as int)),
            },
        decreases chains@.len() - i,
    {
        let ghost seen = chains@.take(i as int);
        let ghost next = chains@.take(i + 1);
        assert(next =~= seen.push(chains@[i as int]));
        if let RttSlot::Measured(rtt) = chains[i].rtt {
            best = match best {
                Some(shortest) => {
                    let k: Ghost<int> = Ghost(
                        choose|k: int|
                            0 <= k < seen.len() && (#[trigger] seen[k]).rtt == RttSlot::Measured(
                                shortest,
                            ),
                    );
                    assert(next[k@] == seen[k@]);
                    assert(next[i as int] == chains@[i as int]);
                    if rtt.nanos < shortest.nanos {
                        Some(rtt)
                    } else {
                        Some(shortest)
                    }
                },
                None => {
                    assert(next[i as int] == chains@[i as int]);
                    Some(rtt)
                },
            };
        } else {
            proof {
                if let Some(shortest) = best {
                    let k = choose|k: int|
                        0 <= k < seen.len() && (#[trigger] seen[k]).rtt == RttSlot::Measured(
                            shortest,
                        );
                    assert(next[k] == seen[k]);
                }
            }
        }
        i += 1;
    }
    assert(chains@.take(i as int) =~= chains@);
    best
}

/// The chains that stay, in the order they have.
pub open spec fn kept(chains: Seq<ScoredChain>, cutoff: Duration) -> Seq<ScoredChain>
    decreases chains.len(),
{
    if chains.len() == 0 {
        chains
    } else if eligible(chains.last(), cutoff) {
        kept(chains.drop_last(), cutoff).push(chains.last())
    } else {
        kept(chains.drop_last(), cutoff)
    }
}

/// Keeps the chains that a cutoff leaves.
pub fn retain_within(chains: &mut Vec<ScoredChain>, cutoff: Duration)
    ensures
        final(chains)@ == kept(old(chains)@, cutoff),
{
    let mut out: Vec<ScoredChain> = Vec::new();
    let mut i: usize = 0;
    assert(chains@.take(0) =~= Seq::<ScoredChain>::empty());
    while i < chains.len()
        invariant
            i <= chains@.len(),
            chains@ == old(chains)@,
            out@ == kept(chains@.take(i as int), cutoff),
        decreases chains@.len() - i,
    {
        let chain = chains[i];
        let keep = match chain.rtt {
            RttSlot::Measured(rtt) => rtt.nanos <= cutoff.nanos,
            RttSlot::Unmeasured => true,
            RttSlot::Unreachable => false,
        };
        assert(chains@.take(i + 1).drop_last() =~= chains@.take(i as int));
        if keep {
            out.push(chain);
        }
        i += 1;
    }
    assert(chains@.take(i as int) =~= chains@);
    *chains = out;
}

proof fn lemma_kept_is_no_longer(chains: Seq<ScoredChain>, cutoff: Duration)
    ensures
        kept(chains, cutoff).len() <= chains.len(),
    decreases chains.len(),
{
    if chains.len() > 0 {
        lemma_kept_is_no_longer(chains.drop_last(), cutoff);
    }
}

/// Drops the chains that are much slower than the best, and those whose probe
/// died. `cutoff_of` tells from the best time how slow a chain may be. As long
/// as nothing is measured all chains stay. Tells how many were dropped.
pub fn retain_eligible<C: Fn(Duration) -> Duration>(
    chains: &mut Vec<ScoredChain>,
    cutoff_of: &C,
) -> (dropped: usize)
    requires
        forall|best: Duration| call_requires(*cutoff_of, (best,)),
    ensures
        dropped == old(chains)@.len() - final(chains)@.len(),
        none_measured(old(chains)@) ==> final(chains)@ == old(chains)@,
        !none_measured(old(chains)@) ==> exists|best: Duration, cutoff: Duration| #[trigger]
            call_ensures(*cutoff_of, (best,), cutoff) && is_best(old(chains)@, best)
                && final(chains)@ == kept(old(chains)@, cutoff),
{
    let best = match best_measured(chains.as_slice()) {
        Some(best) => best,
        None => {
            return 0;
        },
    };
    let cutoff = cutoff_of(best);
    let before: usize = chains.len();
    retain_within(chains, cutoff);
    proof {
        lemma_kept_is_no_longer(old(chains)@, cutoff);
    }
    before - chains.len()
}

/// A chain stays exactly if it is eligible.
pub proof fn kept_are_the_eligible(chains: Seq<ScoredChain>, cutoff: Duration, chain: ScoredChain)
    ensures
        kept(chains, cutoff).contains(chain) <==> chains.contains(chain) && eligible(chain, cutoff),
    decreases chains.len(),
{
    if chains.len() > 0 {
        let init = chains.drop_last();
        let last = chains.last();
        kept_are_the_eligible(init, cutoff, chain);
        assert(chains =~= init.push(last));
        lemma_push_contains(init, last, chain);
        lemma_push_contains(kept(init, cutoff), last, chain);
    }
}

proof fn lemma_push_contains<A>(s: Seq<A>, a: A, x: A)
    ensures
        s.push(a).contains(x) <==> s.contains(x) || x == a,
{
    let p = s.push(a);
    if s.contains(x) {
        let i = choose|i: int| 0 <= i < s.len() && s[i] == x;
        assert(p[i] == x);
    }
    if x == a {
        assert(p[s.len() as int] == x);
    }
    if p.contains(x) && x != a {
        let i = choose|i: int| 0 <= i < p.len() && p[i] == x;
        assert(s[i] == x);
    }
}

/// Gating never drops a chain that was not measured, always drops one whose
/// probe died, and never drops the best: as long as the cutoff is not below
/// the best time.
pub proof fn gate_spares_the_unknown_and_the_best(
    chains: Seq<ScoredChain>,
    best: Duration,
    cutoff: Duration,
)
    requires
        is_best(chains, best),
        best.nanos <= cutoff.nanos,
    ensures
        forall|chain: ScoredChain|
            #![trigger kept(chains, cutoff).contains(chain)]
            chains.contains(chain) && chain.rtt is Unmeasured ==> kept(chains, cutoff).contains(
                chain,
            ),
        forall|chain: ScoredChain|
            #![trigger kept(chains, cutoff).contains(chain)]
            chain.rtt is Unreachable ==> !kept(chains, cutoff).contains(chain),
        forall|chain: ScoredChain|
            #![trigger kept(chains, cutoff).contains(chain)]
            chains.contains(chain) && chain.rtt == RttSlot::Measured(best) ==> kept(
                chains,
                cutoff,
            ).contains(chain),
        kept(chains, cutoff).len() > 0,
{
    assert forall|chain: ScoredChain|
        #![trigger kept(chains, cutoff).contains(chain)]
        {
            &&& chains.contains(chain) && chain.rtt is Unmeasured ==> kept(
                chains,
                cutoff,
            ).contains(chain)
            &&& chain.rtt is Unreachable ==> !kept(chains, cutoff).contains(chain)
            &&& chains.contains(chain) && chain.rtt == RttSlot::Measured(best) ==> kept(
                chains,
                cutoff,
            ).contains(chain)
        } by {
        kept_are_the_eligible(chains, cutoff, chain);
    }
    let i = choose|i: int|
        0 <= i < chains.len() && (#[trigger] chains[i]).rtt == RttSlot::Measured(best);
    assert(chains.contains(chains[i]));
    assert(kept(chains, cutoff).contains(chains[i]));
}

/// Where a chain goes among ranked ones: behind all that are not worse.
pub open spec fn rank(ranked: Seq<ScoredChain>, chain: ScoredChain) -> int
    decreases ranked.len(),
{
    if ranked.len() == 0 {
        0
    } else if ranked.last().score < chain.score {
        rank(ranked.drop_last(), chain)
    } else {
        ranked.len() as int
    }
}

/// The chains from best to worst, equal ones in the order they had.
pub open spec fn ranked(chains: Seq<ScoredChain>) -> Seq<ScoredChain>
    decreases chains.len(),
{
    if chains.len() == 0 {
        chains
    } else {
        let rest = ranked(chains.drop_last());
        rest.insert(rank(rest, chains.last()), chains.last())
    }
}

/// The best chains, at most `active` of them, from best to worst.
pub open spec fn top(chains: Seq<ScoredChain>, active: nat) -> Seq<ScoredChain> {
    let all = ranked(chains);
    if all.len() <= active {
        all
    } else {
        all.take(active as int)
    }
}

/// Ranks the chains and keeps the best.
pub fn rank_chains(chains: &[ScoredChain], active: usize) -> (r: Vec<ScoredChain>)
    ensures
        r@ == top(chains@, active as nat),
{
    let mut out: Vec<ScoredChain> = Vec::new();
    let mut i: usize = 0;
    assert(chains@.take(0) =~= Seq::<ScoredChain>::empty());
    while i < chains.len()
        invariant
            i <= chains@.len(),
            out@ == ranked(chains@.take(i as int)),
        decreases chains@.len() - i,
    {
        let chain = chains[i];
        let mut at: usize = out.len();
        assert(out@.take(at as int) =~= out@);
        while at > 0 && out[at - 1].score < chain.score
            invariant
                at <= out@.len(),
                rank(out@.take(at as int), chain) == rank(out@, chain),
            decreases at,
        {
            assert(out@.take(at as int).drop_last() =~= out@.take(at - 1));
            at -= 1;
        }
        assert(rank(out@, chain) == at) by {
            if at > 0 {
                assert(out@.take(at as int).last() == out@[at - 1]);
            }
        }
        out.insert(at, chain);
        assert(chains@.take(i + 1).drop_last() =~= chains@.take(i as int));
        i += 1;
    }
    assert(chains@.take(i as int) =~= chains@);
    out.truncate(active);
    out
}

proof fn lemma_rank_in_range(ranked: Seq<ScoredChain>, chain: ScoredChain)
    ensures
        0 <= rank(ranked, chain) <= ranked.len(),
        forall|i: int|
            rank(ranked, chain) <= i < ranked.len() ==> (#[trigger] ranked[i]).score < chain.score,
        rank(ranked, chain) > 0 ==> ranked[rank(ranked, chain) - 1].score >= chain.score,
    decreases ranked.len(),
{
    if ranked.len() > 0 && ranked.last().score < chain.score {
        let init = ranked.drop_last();
        lemma_rank_in_range(init, chain);
        assert forall|i: int| rank(ranked, chain) <= i < ranked.len() implies (
        #[trigger] ranked[i]).score < chain.score by {
            if i < init.len() {
                assert(init[i] == ranked[i]);
            }
        }
    }
}

/// Ranking keeps all chains and puts no better one behind a worse one.
pub proof fn ranking_is_a_descending_permutation(chains: Seq<ScoredChain>)
    ensures
        ranked(chains).to_multiset() == chains.to_multiset(),
        ranked(chains).len() == chains.len(),
        forall|i: int, j: int|
            0 <= i <= j < ranked(chains).len() ==> (#[trigger] ranked(chains)[i]).score >= (
            #[trigger] ranked(chains)[j]).score,
    decreases chains.len(),
{
    broadcast use vstd::seq_lib::group_to_multiset_ensures;

    if chains.len() > 0 {
        let init = chains.drop_last();
        let last = chains.last();
        let rest = ranked(init);
        ranking_is_a_descending_permutation(init);
        lemma_rank_in_range(rest, last);
        let at = rank(rest, last);
        let out = ranked(chains);
        assert(chains =~= init.push(last));
        vstd::seq_lib::to_multiset_insert(rest, at, last);
        assert forall|i: int, j: int| 0 <= i <= j < out.len() implies (#[trigger] out[i]).score >= (
        #[trigger] out[j]).score by {
            let a = if i < at {
                rest[i]
            } else if i == at {
                last
            } else {
                rest[i - 1]
            };
            let b = if j < at {
                rest[j]
            } else if j == at {
                last
            } else {
                rest[j - 1]
            };
            assert(out[i] == a && out[j] == b);
            if i < at && j == at {
                assert(rest[i].score >= rest[at - 1].score);
            }
        }
    }
}

/// The best chains are some of the chains: as many as are active, or all if
/// there are not as many.
pub proof fn the_best_are_among_the_chains(chains: Seq<ScoredChain>, active: nat)
    ensures
        top(chains, active).len() == (if chains.len() <= active {
            chains.len()
        } else {
            active
        }),
        forall|i: int|
            0 <= i < top(chains, active).len() ==> chains.contains(
                #[trigger] top(chains, active)[i],
            ),
{
    broadcast use vstd::seq_lib::group_to_multiset_ensures;

    ranking_is_a_descending_permutation(chains);
    let all = ranked(chains);
    assert forall|i: int| 0 <= i < top(chains, active).len() implies chains.contains(
        #[trigger] top(chains, active)[i],
    ) by {
        let chain = top(chains, active)[i];
        assert(all[i] == chain);
        assert(all.contains(chain));
        assert(all.to_multiset().count(chain) > 0);
        assert(chains.to_multiset().count(chain) > 0);
    }
}

/// Whether a draw may land on the `k`th of `n` chains: on the first that the
/// draw does not lie beyond, or on the last if it lies beyond all of them.
/// `covers` tells whether the scores up to and with a position reach the draw.
pub open spec fn draw_lands_on<F: Fn(usize) -> bool>(covers: F, n: nat, k: int) -> bool {
    &&& 0 <= k < n
    &&& forall|j: usize| j < k ==> #[trigger] call_ensures(covers, (j,), false)
    &&& {
        ||| call_ensures(covers, (k as usize,), true)
        ||| k == n - 1 && call_ensures(covers, (k as usize,), false)
    }
}

/// The index of the chain that a draw lands on. Sums that were rounded may
/// leave a draw beyond all of them: it lands on the last chain.
pub fn pick_weighted<F: Fn(usize) -> bool>(chains: &[ScoredChain], covers: &F) -> (index: usize)
    requires
        forall|i: usize| i < chains@.len() ==> call_requires(*covers, (i,)),
    ensures
        chains@.len() == 0 ==> index == 0,
        chains@.len() > 0 ==> exists|k: int| #[trigger]
            draw_lands_on(*covers, chains@.len(), k) && index == chains@[k].index,
{
    let mut i: usize = 0;
    while i < chains.len()
        invariant
            i <= chains@.len(),
            forall|i: usize| i < chains@.len() ==> call_requires(*covers, (i,)),
            forall|j: usize| j < i ==> #[trigger] call_ensures(*covers, (j,), false),
        decreases chains@.len() - i,
    {
        if covers(i) {
            assert(draw_lands_on(*covers, chains@.len(), i as int));
            return chains[i].index;
        }
        i += 1;
    }
    if chains.len() == 0 {
        return 0;
    }
    assert(draw_lands_on(*covers, chains@.len(), chains@.len() - 1));
    chains[chains.len() - 1].index
}

/// A draw lands on one chain, whatever it is, if the answer of `covers` is
/// fixed.
pub proof fn a_draw_lands_on_one_chain<F: Fn(usize) -> bool>(covers: F, n: nat, j: int, k: int)
    requires
        n <= usize::MAX,
        forall|i: usize|
            !(#[trigger] call_ensures(covers, (i,), true) && call_ensures(covers, (i,), false)),
        draw_lands_on(covers, n, j),
        draw_lands_on(covers, n, k),
    ensures
        j == k,
{
    if j < k {
        assert(call_ensures(covers, (j as usize,), false));
    }
    if k < j {
        assert(call_ensures(covers, (k as usize,), false));
    }
}

/// The best time is the time of some chain, and no chain that was measured has
/// a shorter one; without a measured chain there is none.
pub proof fn the_best_time_is_measured_and_unbeaten(
    chains: Seq<ScoredChain>,
    best: Duration,
    rtt: Duration,
    i: int,
)
    requires
        is_best(chains, best),
        0 <= i < chains.len(),
        chains[i].rtt == RttSlot::Measured(rtt),
    ensures
        best.nanos <= rtt.nanos,
        exists|k: int| 0 <= k < chains.len() && (#[trigger] chains[k]).rtt == RttSlot::Measured(best),
        !none_measured(chains),
{
}

/// Nothing is measured exactly if every chain is without a time.
pub proof fn nothing_is_measured_if_no_chain_is(chains: Seq<ScoredChain>)
    ensures
        none_measured(chains) <==> forall|i: int|
            0 <= i < chains.len() ==> (#[trigger] chains[i]).rtt is Unmeasured || chains[i].rtt is
                Unreachable,
{
}

/// A cutoff filters the chains: those that were measured within it stay, and
/// those that nothing is known of, in the order they had; those that were
/// measured beyond it go, and those whose probe died.
pub proof fn a_cutoff_filters_the_chains(chains: Seq<ScoredChain>, cutoff: Duration)
    ensures
        kept(chains, cutoff) == chains.filter(
            |chain: ScoredChain|
                chain.rtt is Unmeasured || (chain.rtt matches RttSlot::Measured(rtt) && rtt.nanos
                    <= cutoff.nanos),
        ),
    decreases chains.len(),
{
    reveal(Seq::filter);
    if chains.len() > 0 {
        a_cutoff_filters_the_chains(chains.drop_last(), cutoff);
    }
}

/// Whether no chain stands behind one that is worse, or that is as good and
/// came later.
pub open spec fn in_ranking_order(chains: Seq<ScoredChain>) -> bool {
    forall|i: int, j: int|
        0 <= i < j < chains.len() ==> {
            ||| (#[trigger] chains[i]).score > (#[trigger] chains[j]).score
            ||| chains[i].score == chains[j].score && chains[i].index < chains[j].index
        }
}

proof fn lemma_ranked_in_order(chains: Seq<ScoredChain>)
    requires
        forall|i: int, j: int|
            0 <= i < j < chains.len() ==> (#[trigger] chains[i]).index < (
            #[trigger] chains[j]).index,
    ensures
        in_ranking_order(ranked(chains)),
    decreases chains.len(),
{
    broadcast use vstd::seq_lib::group_to_multiset_ensures;

    if chains.len() > 0 {
        let init = chains.drop_last();
        let last = chains.last();
        let rest = ranked(init);
        lemma_ranked_in_order(init);
        ranking_is_a_descending_permutation(init);
        lemma_rank_in_range(rest, last);
        let at = rank(rest, last);
        let out = ranked(chains);
        assert forall|i: int| 0 <= i < rest.len() implies (#[trigger] rest[i]).index
            < last.index by {
            assert(rest.contains(rest[i]));
            assert(rest.to_multiset().count(rest[i]) > 0);
            assert(init.contains(rest[i]));
            let k = init.index_of(rest[i]);
            assert(chains[k] == rest[i]);
        }
        assert forall|i: int, j: int| 0 <= i < j < out.len() implies {
            ||| (#[trigger] out[i]).score > (#[trigger] out[j]).score
            ||| out[i].score == out[j].score && out[i].index < out[j].index
        } by {
            let a = if i < at {
                rest[i]
            } else if i == at {
                last
            } else {
                rest[i - 1]
            };
            let b = if j < at {
                rest[j]
            } else if j == at {
                last
            } else {
                rest[j - 1]
            };
            assert(out[i] == a && out[j] == b);
            if i < at && j == at {
                assert(rest[i].score >= rest[at - 1].score);
            }
        }
    }
}

/// The best chains are the best: they come in descending order, and no chain
/// that is left out scores more than one that is not. Where two score the same,
/// the one that came first is preferred.
pub proof fn no_better_chain_is_left_out(chains: Seq<ScoredChain>, active: nat)
    requires
        forall|i: int, j: int|
            0 <= i < j < chains.len() ==> (#[trigger] chains[i]).index < (
            #[trigger] chains[j]).index,
    ensures
        exists|left: Seq<ScoredChain>|
            {
                &&& #[trigger] (top(chains, active) + left).to_multiset() == chains.to_multiset()
                &&& forall|i: int, j: int|
                    0 <= i < j < top(chains, active).len() + left.len() ==> {
                        ||| (#[trigger] (top(chains, active) + left)[i]).score > (
                        #[trigger] (top(chains, active) + left)[j]).score
                        ||| (top(chains, active) + left)[i].score == (top(chains, active)
                            + left)[j].score && (top(chains, active) + left)[i].index < (top(
                            chains,
                            active,
                        ) + left)[j].index
                    }
                &&& top(chains, active).len() == active || (left.len() == 0 && chains.len()
                    < active)
            },
{
    ranking_is_a_descending_permutation(chains);
    lemma_ranked_in_order(chains);
    let all = ranked(chains);
    let left = all.skip(top(chains, active).len() as int);
    assert(top(chains, active) + left =~= all);
}

/// Whatever order the chains are in, none that is left out scores more than one
/// that is kept.
pub proof fn the_kept_outscore_the_left_out(chains: Seq<ScoredChain>, active: nat)
    ensures
        exists|left: Seq<ScoredChain>|
            {
                &&& #[trigger] (top(chains, active) + left).to_multiset() == chains.to_multiset()
                &&& forall|i: int, j: int|
                    0 <= i < top(chains, active).len() && 0 <= j < left.len() ==> (
                    #[trigger] top(chains, active)[i]).score >= (#[trigger] left[j]).score
                &&& left.len() > 0 ==> top(chains, active).len() == active
            },
        forall|i: int, j: int|
            0 <= i <= j < top(chains, active).len() ==> (#[trigger] top(chains, active)[i]).score
                >= (#[trigger] top(chains, active)[j]).score,
{
    ranking_is_a_descending_permutation(chains);
    let all = ranked(chains);
    let kept_len = top(chains, active).len() as int;
    let left = all.skip(kept_len);
    assert(top(chains, active) + left =~= all);
    assert forall|i: int, j: int|
        0 <= i < top(chains, active).len() && 0 <= j < left.len() implies (
    #[trigger] top(chains, active)[i]).score >= (#[trigger] left[j]).score by {
        assert(all[i].score >= all[kept_len + j].score);
    }
    assert forall|i: int, j: int| 0 <= i <= j < top(chains, active).len() implies (
    #[trigger] top(chains, active)[i]).score >= (#[trigger] top(chains, active)[j]).score by {
        assert(all[i].score >= all[j].score);
    }
}

/// A draw lands on a chain in proportion to its score: if a position covers the
/// draw where the scores up to and with it sum up to more, the draw lands where
/// the sum goes beyond it, and a draw beyond all sums on the last chain.
pub proof fn a_draw_lands_where_the_sum_goes_beyond_it<F: Fn(usize) -> bool>(
    covers: F,
    sums: Seq<nat>,
    draw: nat,
    k: int,
)
    requires
        sums.len() <= usize::MAX,
        forall|i: usize, covered: bool|
            i < sums.len() && #[trigger] call_ensures(covers, (i,), covered) ==> covered == (draw
                < sums[i as int]),
        draw_lands_on(covers, sums.len(), k),
    ensures
        0 <= k < sums.len(),
        draw < sums[k] || k == sums.len() - 1,
        forall|j: int| 0 <= j < k ==> (#[trigger] sums[j]) <= draw,
{
    assert forall|j: int| 0 <= j < k implies (#[trigger] sums[j]) <= draw by {
        assert(call_ensures(covers, (j as usize,), false));
    }
}

/// Whether the `i`th chain is left out of the scores.
pub open spec fn unscored(scores: Seq<ScoredChain>, i: int) -> bool {
    forall|t: int| 0 <= t < scores.len() ==> (#[trigger] scores[t]).index != i
}

pub(crate) proof fn lemma_left_out_is_not_better(left: Seq<ScoredChain>, active: nat, chain: ScoredChain)
    requires
        left.contains(chain),
        !top(left, active).contains(chain),
    ensures
        forall|k: int|
            0 <= k < top(left, active).len() ==> (#[trigger] top(left, active)[k]).score
                >= chain.score,
        top(left, active).len() == active,
{
    broadcast use vstd::seq_lib::group_to_multiset_ensures;

    the_kept_outscore_the_left_out(left, active);
    let kept_ones = top(left, active);
    let rest = choose|rest: Seq<ScoredChain>|
        {
            &&& #[trigger] (kept_ones + rest).to_multiset() == left.to_multiset()
            &&& forall|i: int, j: int|
                0 <= i < kept_ones.len() && 0 <= j < rest.len() ==> (#[trigger] kept_ones[i]).score
                    >= (#[trigger] rest[j]).score
            &&& rest.len() > 0 ==> kept_ones.len() == active
        };
    let all = kept_ones + rest;
    assert(left.to_multiset().count(chain) > 0);
    assert(all.contains(chain));
    let at = choose|at: int| 0 <= at < all.len() && all[at] == chain;
    if at < kept_ones.len() {
        assert(kept_ones[at] == chain);
    } else {
        assert(rest[at - kept_ones.len()] == chain);
    }
}

} // verus!

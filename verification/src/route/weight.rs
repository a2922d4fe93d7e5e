//! Adding up weights.

use vstd::prelude::*;

verus! {

/// The weights together.
pub open spec fn weight_sum(weights: Seq<usize>) -> int
    decreases weights.len(),
{
    if weights.len() == 0 {
        0
    } else {
        weight_sum(weights.drop_last()) + weights.last()
    }
}

/// The sum up to a weight is the sum before it and the weight, and no more than
/// the sum of all.
pub(crate) proof fn lemma_weight_sum_grows(weights: Seq<usize>, n: int)
    requires
        0 <= n < weights.len(),
    ensures
        weight_sum(weights.take(n + 1)) == weight_sum(weights.take(n)) + weights[n],
        0 <= weight_sum(weights.take(n)),
        weight_sum(weights.take(n + 1)) <= weight_sum(weights),
    decreases weights.len(),
{
    let init = weights.drop_last();
    assert(weights.take(n + 1).drop_last() =~= weights.take(n));
    if n > 0 && n == weights.len() - 1 {
        lemma_weight_sum_grows(init, n - 1);
        assert(init.take(n) =~= weights.take(n));
        assert(init.take(n) =~= init);
    }
    if n < weights.len() - 1 {
        lemma_weight_sum_grows(init, n);
        assert(init.take(n + 1) =~= weights.take(n + 1));
        assert(init.take(n) =~= weights.take(n));
    } else {
        assert(weights.take(n + 1) =~= weights);
    }
}

/// Every weight counts once: one more weight makes the sum as much greater, and
/// without weights there is nothing.
pub proof fn every_weight_counts_once(weights: Seq<usize>, weight: usize)
    ensures
        weight_sum(Seq::<usize>::empty()) == 0,
        weight_sum(weights.push(weight)) == weight_sum(weights) + weight,
{
    assert(weights.push(weight).drop_last() =~= weights);
}

/// The weights add up to nothing exactly if each of them is nothing.
pub proof fn weights_vanish_together(weights: Seq<usize>)
    ensures
        weight_sum(weights) >= 0,
        weight_sum(weights) == 0 <==> forall|i: int|
            0 <= i < weights.len() ==> #[trigger] weights[i] == 0,
    decreases weights.len(),
{
    if weights.len() > 0 {
        let init = weights.drop_last();
        weights_vanish_together(init);
        assert(weights[weights.len() - 1] == weights.last());
        assert forall|i: int| 0 <= i < init.len() implies #[trigger] init[i] == weights[i] by {}
        if weight_sum(weights) == 0 {
            assert forall|i: int| 0 <= i < weights.len() implies #[trigger] weights[i] == 0 by {
                if i < init.len() {
                    assert(init[i] == 0);
                }
            }
        }
    }
}

} // verus!

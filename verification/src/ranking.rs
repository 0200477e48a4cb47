//! Ordering entries by a measure without ever reordering equal ones.
//!
//! The order is the one that insertion from the left produces: each entry in
//! turn is put behind the entries before it and then moves towards the front
//! past every entry that it strictly precedes. An unknown measure precedes
//! nothing and nothing precedes it, so it stops whatever moves towards it and
//! never moves itself.
use crate::measure::Measure;
use vstd::prelude::*;

verus! {

/// The position at which entry `x` comes to rest when it is put behind
/// `order` and moves towards the front.
pub open spec fn landing(order: Seq<int>, keys: Seq<Measure>, x: int) -> int
    decreases order.len(),
{
    if order.len() > 0 && keys[x].precedes(keys[order.last()]) {
        landing(order.drop_last(), keys, x)
    } else {
        order.len() as int
    }
}

/// The first `n` entries of `keys`, as indices into `keys`, in ranking order.
pub open spec fn ranking_of_first(keys: Seq<Measure>, n: nat) -> Seq<int>
    decreases n,
{
    if n == 0 {
        Seq::empty()
    } else {
        let before = ranking_of_first(keys, (n - 1) as nat);
        before.insert(landing(before, keys, n - 1), n - 1)
    }
}

/// All entries of `keys`, as indices into `keys`, in ranking order: smallest
/// measure first, entries that do not precede one another in the order in
/// which `keys` holds them.
pub open spec fn ranking(keys: Seq<Measure>) -> Seq<int> {
    ranking_of_first(keys, keys.len())
}

/// The indices that a vector holds, as integers.
pub open spec fn as_ints(order: Seq<usize>) -> Seq<int> {
    Seq::new(order.len(), |i: int| order[i] as int)
}

/// Whether every one of the first `n` keys is known.
pub open spec fn all_known(keys: Seq<Measure>, n: nat) -> bool {
    forall|i: int| 0 <= i < n ==> keys[i] is Known
}

/// An entry comes to rest inside the order, behind an entry that it does not
/// precede and in front of entries that it precedes.
pub proof fn lemma_landing(order: Seq<int>, keys: Seq<Measure>, x: int)
    ensures
        0 <= landing(order, keys, x) <= order.len(),
        forall|i: int|
            landing(order, keys, x) <= i < order.len() ==> keys[x].precedes(
                #[trigger] keys[order[i]],
            ),
        landing(order, keys, x) > 0 ==> !keys[x].precedes(
            keys[order[landing(order, keys, x) - 1]],
        ),
    decreases order.len(),
{
    if order.len() > 0 && keys[x].precedes(keys[order.last()]) {
        let front = order.drop_last();
        lemma_landing(front, keys, x);
        assert forall|i: int| landing(order, keys, x) <= i < order.len() implies keys[x].precedes(
            #[trigger] keys[order[i]],
        ) by {
            if i < front.len() {
                assert(front[i] == order[i]);
            }
        }
    }
}

/// The ranking of the first `n` entries holds each of their indices once.
pub proof fn lemma_ranking_is_permutation(keys: Seq<Measure>, n: nat)
    ensures
        ranking_of_first(keys, n).len() == n,
        forall|i: int| 0 <= i < n ==> 0 <= #[trigger] ranking_of_first(keys, n)[i] < n,
        forall|i: int, j: int|
            0 <= i < j < n ==> #[trigger] ranking_of_first(keys, n)[i]
                != #[trigger] ranking_of_first(keys, n)[j],
    decreases n,
{
    if n > 0 {
        let before = ranking_of_first(keys, (n - 1) as nat);
        lemma_ranking_is_permutation(keys, (n - 1) as nat);
        lemma_landing(before, keys, n - 1);
    }
}

/// Every index below `n` stands somewhere in the ranking of the first `n`
/// entries.
pub proof fn lemma_ranking_holds(keys: Seq<Measure>, n: nat, v: int) -> (i: int)
    requires
        0 <= v < n,
    ensures
        0 <= i < n,
        ranking_of_first(keys, n)[i] == v,
    decreases n,
{
    let before = ranking_of_first(keys, (n - 1) as nat);
    let k = landing(before, keys, n - 1);
    lemma_ranking_is_permutation(keys, (n - 1) as nat);
    lemma_landing(before, keys, n - 1);
    if v == n - 1 {
        k
    } else {
        let i = lemma_ranking_holds(keys, (n - 1) as nat, v);
        if i < k {
            i
        } else {
            i + 1
        }
    }
}

/// The ranking is stable: two entries stand in another order than `keys`
/// holds them only where the later one strictly precedes the earlier one.
pub proof fn lemma_ranking_is_stable(keys: Seq<Measure>, n: nat)
    ensures
        forall|i: int, j: int|
            0 <= i < j < n && #[trigger] ranking_of_first(keys, n)[i]
                > #[trigger] ranking_of_first(keys, n)[j] ==> keys[ranking_of_first(
                keys,
                n,
            )[i]].precedes(keys[ranking_of_first(keys, n)[j]]),
    decreases n,
{
    if n > 0 {
        let before = ranking_of_first(keys, (n - 1) as nat);
        lemma_ranking_is_stable(keys, (n - 1) as nat);
        lemma_ranking_is_permutation(keys, (n - 1) as nat);
        lemma_landing(before, keys, n - 1);
    }
}

/// No entry of the ranking strictly precedes the entry just in front of it,
/// whatever is unknown.
pub proof fn lemma_ranking_has_no_adjacent_inversion(keys: Seq<Measure>, n: nat)
    ensures
        forall|i: int|
            0 < i < n ==> !keys[#[trigger] ranking_of_first(keys, n)[i]].precedes(
                keys[ranking_of_first(keys, n)[i - 1]],
            ),
    decreases n,
{
    if n > 0 {
        let before = ranking_of_first(keys, (n - 1) as nat);
        lemma_ranking_has_no_adjacent_inversion(keys, (n - 1) as nat);
        lemma_ranking_is_permutation(keys, (n - 1) as nat);
        lemma_landing(before, keys, n - 1);
    }
}

/// Where every key is known, the ranking is sorted: no entry strictly
/// precedes one that stands in front of it.
pub proof fn lemma_ranking_is_sorted(keys: Seq<Measure>, n: nat)
    requires
        all_known(keys, n),
    ensures
        forall|i: int, j: int|
            0 <= i < j < n ==> !keys[#[trigger] ranking_of_first(keys, n)[j]].precedes(
                keys[#[trigger] ranking_of_first(keys, n)[i]],
            ),
    decreases n,
{
    if n > 0 {
        let before = ranking_of_first(keys, (n - 1) as nat);
        lemma_ranking_is_sorted(keys, (n - 1) as nat);
        lemma_ranking_is_permutation(keys, (n - 1) as nat);
        lemma_landing(before, keys, n - 1);
    }
}

/// Whether entry `a` belongs in front of entry `b`: its key is strictly
/// smaller, or neither key is and `a` is the earlier entry.
pub open spec fn comes_before(keys: Seq<Measure>, a: int, b: int) -> bool {
    keys[a].precedes(keys[b]) || (!keys[b].precedes(keys[a]) && a < b)
}

/// Where every key is known, each entry of the ranking belongs in front of
/// all that follow it.
pub proof fn lemma_ranking_is_in_order(keys: Seq<Measure>, n: nat)
    requires
        all_known(keys, n),
    ensures
        forall|i: int, j: int|
            0 <= i < j < n ==> comes_before(
                keys,
                #[trigger] ranking_of_first(keys, n)[i],
                #[trigger] ranking_of_first(keys, n)[j],
            ),
{
    lemma_ranking_is_permutation(keys, n);
    lemma_ranking_is_stable(keys, n);
    lemma_ranking_is_sorted(keys, n);
}

proof fn lemma_orders_agree(keys: Seq<Measure>, order: Seq<int>, i: nat)
    requires
        all_known(keys, keys.len()),
        order.len() == keys.len(),
        i <= keys.len(),
        forall|k: int| 0 <= k < order.len() ==> 0 <= #[trigger] order[k] < keys.len(),
        forall|v: int| 0 <= v < keys.len() ==> #[trigger] order.contains(v),
        forall|a: int, b: int|
            0 <= a < b < order.len() ==> comes_before(
                keys,
                #[trigger] order[a],
                #[trigger] order[b],
            ),
    ensures
        forall|k: int| 0 <= k < i ==> #[trigger] order[k] == ranking(keys)[k],
    decreases i,
{
    if i > 0 {
        lemma_orders_agree(keys, order, (i - 1) as nat);
        let n = keys.len();
        let ranked = ranking(keys);
        let m = i - 1;
        lemma_ranking_is_permutation(keys, n);
        lemma_ranking_is_in_order(keys, n);
        // The entry ranked at `m` stands in `order` at `p`, and the entry
        // that `order` has at `m` is ranked at `s`. Neither can be in front
        // of `m`, where the two orders agree; were both behind it, each of
        // the two entries would belong in front of the other.
        assert(order.contains(ranked[m]));
        let p = choose|p: int| 0 <= p < order.len() && order[p] == ranked[m];
        let s = lemma_ranking_holds(keys, n, order[m]);
        if s < m {
            assert(order[s] == ranked[s]);
        }
    }
}

/// Where every key is known, the ranking is the only order of the entries
/// in which each entry belongs in front of all that follow it: it is the
/// stable ascending order, by whatever means it is reached.
pub proof fn lemma_ranking_is_the_stable_order(keys: Seq<Measure>, order: Seq<int>)
    requires
        all_known(keys, keys.len()),
        order.len() == keys.len(),
        forall|k: int| 0 <= k < order.len() ==> 0 <= #[trigger] order[k] < keys.len(),
        forall|v: int| 0 <= v < keys.len() ==> #[trigger] order.contains(v),
        forall|a: int, b: int|
            0 <= a < b < order.len() ==> comes_before(
                keys,
                #[trigger] order[a],
                #[trigger] order[b],
            ),
    ensures
        order == ranking(keys),
{
    lemma_orders_agree(keys, order, keys.len());
    lemma_ranking_is_permutation(keys, keys.len());
}

/// Ranks the entries of `keys`: their indices, smallest measure first, in the
/// stable order that [`ranking`] defines.
pub fn rank_order(keys: &Vec<Measure>) -> (order: Vec<usize>)
    ensures
        as_ints(order@) == ranking(keys@),
        order.len() == keys.len(),
        forall|i: int| 0 <= i < order.len() ==> #[trigger] order[i] < keys.len(),
{
    let mut order: Vec<usize> = Vec::new();
    let mut x: usize = 0;
    while x < keys.len()
        invariant
            x <= keys.len(),
            order.len() == x,
            as_ints(order@) =~= ranking_of_first(keys@, x as nat),
            forall|i: int| 0 <= i < order.len() ==> #[trigger] order[i] < x,
        decreases keys.len() - x,
    {
        let ghost before = as_ints(order@);
        let mut k: usize = order.len();
        proof {
            assert(before.take(k as int) =~= before);
        }
        while k > 0 && keys[x].is_less_than(&keys[order[k - 1]])
            invariant
                k <= order.len(),
                x < keys.len(),
                before == as_ints(order@),
                forall|i: int| 0 <= i < order.len() ==> #[trigger] order[i] < x,
                landing(before, keys@, x as int) == landing(before.take(k as int), keys@, x as int),
            decreases k,
        {
            proof {
                assert(before.take(k as int).drop_last() =~= before.take(k - 1));
            }
            k -= 1;
        }
        order.insert(k, x);
        x += 1;
    }
    order
}

} // verus!

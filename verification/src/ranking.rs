//! Ranking a sequence of keys from the greatest down.
//!
//! The position with the greatest key gets rank 0, the next one rank 1, and so
//! on. Of two positions with the same key the earlier one gets the smaller
//! rank. That is a choice of this module, made so that the keys decide their
//! ranking; any other way of parting equal keys would shape noise as well.

use vstd::prelude::*;
use vstd::seq_lib::*;

verus! {

/// The keys as mathematical integers.
pub open spec fn key_values(keys: Seq<i128>) -> Seq<int> {
    keys.map_values(|k: i128| k as int)
}

/// The ranks as mathematical integers.
pub open spec fn rank_values(ranks: Seq<usize>) -> Seq<int> {
    ranks.map_values(|r: usize| r as int)
}

/// Position `i` is ranked no later than position `j`: the greater key comes
/// first, and of two equal keys the earlier position.
pub open spec fn ranks_before(keys: Seq<int>, i: int, j: int) -> bool {
    keys[i] > keys[j] || (keys[i] == keys[j] && i <= j)
}

/// Position `i` holds rank `k`.
pub open spec fn holds_rank(ranks: Seq<int>, i: int, k: int) -> bool {
    0 <= i < ranks.len() && ranks[i] == k
}

/// Some position holds rank `k`.
pub open spec fn rank_taken(ranks: Seq<int>, k: int) -> bool {
    exists|i: int| holds_rank(ranks, i, k)
}

/// `ranks` ranks `keys` from the greatest down: every rank lies below the number
/// of keys, every such rank is taken, and a position that is ranked before
/// another one has the smaller rank.
pub open spec fn is_ranking(keys: Seq<int>, ranks: Seq<int>) -> bool {
    &&& ranks.len() == keys.len()
    &&& forall|i: int| 0 <= i < keys.len() ==> 0 <= #[trigger] ranks[i] < keys.len()
    &&& forall|k: int| 0 <= k < keys.len() ==> #[trigger] rank_taken(ranks, k)
    &&& forall|i: int, j: int|
        0 <= i < keys.len() && 0 <= j < keys.len() && i != j && ranks_before(keys, i, j)
            ==> #[trigger] ranks[i] < #[trigger] ranks[j]
}

/// The ranks `0, 1, .., n - 1` in this order.
pub open spec fn all_ranks(n: nat) -> Seq<int> {
    Seq::new(n, |k: int| k)
}

/// A ranking turns the order of the keys round: of two positions, the one with
/// the strictly greater key has the strictly smaller rank.
pub proof fn lemma_ranking_reverses_order(keys: Seq<int>, ranks: Seq<int>, i: int, j: int)
    requires
        is_ranking(keys, ranks),
        0 <= i < keys.len(),
        0 <= j < keys.len(),
        keys[i] > keys[j],
    ensures
        ranks[i] < ranks[j],
{
    assert(ranks_before(keys, i, j));
}

/// In a ranking no two positions hold the same rank.
pub proof fn lemma_ranking_has_no_duplicates(keys: Seq<int>, ranks: Seq<int>)
    requires
        is_ranking(keys, ranks),
    ensures
        ranks.no_duplicates(),
{
    assert forall|i: int, j: int|
        0 <= i < ranks.len() && 0 <= j < ranks.len() && i != j implies ranks[i] != ranks[j] by {
        if ranks_before(keys, i, j) {
            assert(ranks[i] < ranks[j]);
        } else {
            assert(ranks_before(keys, j, i));
            assert(ranks[j] < ranks[i]);
        }
    }
}

/// A ranking of `n` keys holds each of the ranks `0, 1, .., n - 1` exactly once:
/// as a multiset it is that list, with nothing twice and nothing left out.
pub proof fn lemma_ranking_is_uniform(keys: Seq<int>, ranks: Seq<int>)
    requires
        is_ranking(keys, ranks),
    ensures
        ranks.to_multiset() =~= all_ranks(keys.len()).to_multiset(),
{
    broadcast use group_to_multiset_ensures;

    let n = keys.len();
    let full = all_ranks(n);
    lemma_ranking_has_no_duplicates(keys, ranks);
    ranks.lemma_multiset_has_no_duplicates();
    assert(full.no_duplicates());
    full.lemma_multiset_has_no_duplicates();
    assert forall|v: int| ranks.to_multiset().count(v) == full.to_multiset().count(v) by {
        if 0 <= v < n {
            assert(rank_taken(ranks, v));
            let i = choose|i: int| holds_rank(ranks, i, v);
            assert(ranks[i] == v);
            assert(ranks.contains(v));
            assert(full[v] == v);
            assert(full.contains(v));
            assert(ranks.to_multiset().count(v) > 0);
            assert(full.to_multiset().count(v) > 0);
        } else {
            if ranks.contains(v) {
                let i = choose|i: int| 0 <= i < ranks.len() && ranks[i] == v;
                assert(0 <= ranks[i] < n);
            }
            if full.contains(v) {
                let k = choose|k: int| 0 <= k < full.len() && full[k] == v;
                assert(full[k] == k);
            }
            assert(!(ranks.to_multiset().count(v) > 0));
            assert(!(full.to_multiset().count(v) > 0));
        }
    }
}

/// Two rankings of the same keys give the position that holds rank `k` in the
/// one the same rank in the other.
proof fn lemma_rank_holder_agrees(keys: Seq<int>, first: Seq<int>, second: Seq<int>, k: int)
    requires
        is_ranking(keys, first),
        is_ranking(keys, second),
        0 <= k < keys.len(),
    ensures
        forall|i: int| 0 <= i < keys.len() && first[i] == k ==> #[trigger] second[i] == k,
    decreases k,
{
    lemma_ranking_has_no_duplicates(keys, second);
    assert forall|i: int| 0 <= i < keys.len() && first[i] == k implies #[trigger] second[i]
        == k by {
        assert(rank_taken(second, k));
        let j = choose|j: int| holds_rank(second, j, k);
        if i != j {
            if ranks_before(keys, i, j) {
                assert(second[i] < second[j]);
                let lower = second[i];
                assert(rank_taken(first, lower));
                let m = choose|m: int| holds_rank(first, m, lower);
                lemma_rank_holder_agrees(keys, first, second, lower);
                assert(second[m] == lower);
                assert(m == i);
                assert(false);
            } else {
                assert(ranks_before(keys, j, i));
                assert(first[j] < first[i]);
                lemma_rank_holder_agrees(keys, first, second, first[j]);
                assert(second[j] == first[j]);
                assert(false);
            }
        }
    }
}

/// The keys decide their ranking: two rankings of the same keys are equal.
pub proof fn lemma_ranking_is_unique(keys: Seq<int>, first: Seq<int>, second: Seq<int>)
    requires
        is_ranking(keys, first),
        is_ranking(keys, second),
    ensures
        first == second,
{
    assert forall|i: int| 0 <= i < keys.len() implies first[i] == second[i] by {
        lemma_rank_holder_agrees(keys, first, second, first[i]);
    }
    assert(first =~= second);
}


/// Every item is a position below `n`.
spec fn all_positions(items: Seq<usize>, n: int) -> bool {
    forall|a: int| 0 <= a < items.len() ==> #[trigger] items[a] < n
}

/// The positions are listed so that each is ranked no later than those after it.
spec fn in_rank_order(keys: Seq<int>, items: Seq<usize>) -> bool {
    forall|a: int, b: int|
        0 <= a < b < items.len() ==> ranks_before(
            keys,
            #[trigger] items[a] as int,
            #[trigger] items[b] as int,
        )
}

/// The positions `0, 1, .., n - 1` in this order.
spec fn first_positions(n: int) -> Seq<usize> {
    Seq::new(n as nat, |p: int| p as usize)
}

/// Merges two lists of positions, each in rank order, into one.
fn merge(keys: &Vec<i128>, left: &Vec<usize>, right: &Vec<usize>) -> (merged: Vec<usize>)
    requires
        all_positions(left@, keys.len() as int),
        all_positions(right@, keys.len() as int),
        in_rank_order(key_values(keys@), left@),
        in_rank_order(key_values(keys@), right@),
    ensures
        merged@.to_multiset() == left@.to_multiset().add(right@.to_multiset()),
        all_positions(merged@, keys.len() as int),
        in_rank_order(key_values(keys@), merged@),
{
    broadcast use group_to_multiset_ensures;

    let ghost kv = key_values(keys@);
    let mut merged: Vec<usize> = Vec::new();
    let mut i: usize = 0;
    let mut j: usize = 0;
    proof {
        assert(left@.subrange(0, 0) =~= Seq::<usize>::empty());
        assert(right@.subrange(0, 0) =~= Seq::<usize>::empty());
    }
    while i < left.len() || j < right.len()
        invariant
            kv == key_values(keys@),
            i <= left.len(),
            j <= right.len(),
            all_positions(left@, keys.len() as int),
            all_positions(right@, keys.len() as int),
            in_rank_order(kv, left@),
            in_rank_order(kv, right@),
            merged@.to_multiset() == left@.subrange(0, i as int).to_multiset().add(
                right@.subrange(0, j as int).to_multiset(),
            ),
            all_positions(merged@, keys.len() as int),
            in_rank_order(kv, merged@),
            forall|a: int, b: int|
                0 <= a < merged.len() && i <= b < left.len() ==> ranks_before(
                    kv,
                    #[trigger] merged[a] as int,
                    #[trigger] left[b] as int,
                ),
            forall|a: int, b: int|
                0 <= a < merged.len() && j <= b < right.len() ==> ranks_before(
                    kv,
                    #[trigger] merged[a] as int,
                    #[trigger] right[b] as int,
                ),
        decreases left.len() - i + (right.len() - j),
    {
        let take_left: bool = if i == left.len() {
            false
        } else if j == right.len() {
            true
        } else {
            let p: usize = left[i];
            let q: usize = right[j];
            keys[p] > keys[q] || (keys[p] == keys[q] && p <= q)
        };
        let ghost before = merged@;
        let ghost taken_left = left@.subrange(0, i as int);
        let ghost taken_right = right@.subrange(0, j as int);
        if take_left {
            merged.push(left[i]);
            i += 1;
            proof {
                let x = left[i - 1];
                assert(left@.subrange(0, i as int) =~= taken_left.push(x));
                assert(merged@ =~= before.push(x));
                to_multiset_build(before, x);
                to_multiset_build(taken_left, x);
                assert(taken_left.to_multiset().insert(x).add(taken_right.to_multiset())
                    =~= taken_left.to_multiset().add(taken_right.to_multiset()).insert(x));
            }
        } else {
            merged.push(right[j]);
            j += 1;
            proof {
                let x = right[j - 1];
                assert(right@.subrange(0, j as int) =~= taken_right.push(x));
                assert(merged@ =~= before.push(x));
                to_multiset_build(before, x);
                to_multiset_build(taken_right, x);
                assert(taken_left.to_multiset().add(taken_right.to_multiset().insert(x))
                    =~= taken_left.to_multiset().add(taken_right.to_multiset()).insert(x));
            }
        }
    }
    proof {
        assert(left@.subrange(0, i as int) =~= left@);
        assert(right@.subrange(0, j as int) =~= right@);
    }
    merged
}

/// Sorts a list of positions into rank order.
fn sort_positions(keys: &Vec<i128>, items: Vec<usize>) -> (sorted: Vec<usize>)
    requires
        all_positions(items@, keys.len() as int),
    ensures
        sorted@.to_multiset() == items@.to_multiset(),
        all_positions(sorted@, keys.len() as int),
        in_rank_order(key_values(keys@), sorted@),
    decreases items.len(),
{
    if items.len() <= 1 {
        return items;
    }
    let mid: usize = items.len() / 2;
    let mut left: Vec<usize> = Vec::new();
    let mut right: Vec<usize> = Vec::new();
    let mut p: usize = 0;
    while p < items.len()
        invariant
            p <= items.len(),
            mid == items.len() / 2,
            left@ == items@.subrange(0, if p < mid { p as int } else { mid as int }),
            right@ == items@.subrange(mid as int, if p < mid { mid as int } else { p as int }),
        decreases items.len() - p,
    {
        if p < mid {
            left.push(items[p]);
        } else {
            right.push(items[p]);
        }
        p += 1;
    }
    proof {
        assert(items@ =~= left@ + right@);
        lemma_multiset_commutative(left@, right@);
    }
    let left_sorted = sort_positions(keys, left);
    let right_sorted = sort_positions(keys, right);
    merge(keys, &left_sorted, &right_sorted)
}

/// In a rearrangement of the first `n` positions every position occurs, and
/// none twice.
proof fn lemma_rearranged_positions(order: Seq<usize>, n: int)
    requires
        0 <= n <= usize::MAX,
        order.to_multiset() == first_positions(n).to_multiset(),
    ensures
        order.len() == n,
        order.no_duplicates(),
        forall|p: usize| p < n ==> #[trigger] order.contains(p),
{
    broadcast use group_to_multiset_ensures;

    let base = first_positions(n);
    assert(order.len() == order.to_multiset().len());
    assert(base.len() == base.to_multiset().len());
    assert(base.no_duplicates());
    base.lemma_multiset_has_no_duplicates();
    order.lemma_multiset_has_no_duplicates_conv();
    assert forall|p: usize| p < n implies #[trigger] order.contains(p) by {
        assert(base[p as int] == p);
        assert(base.contains(p));
        assert(base.to_multiset().count(p) > 0);
        assert(order.to_multiset().count(p) > 0);
    }
}

/// Ranks the keys from the greatest down. The result holds, for each position,
/// its rank: 0 for the greatest key, `keys.len() - 1` for the least. Equal keys
/// are ranked in the order of their positions.
pub fn rank_descending(keys: &Vec<i128>) -> (ranks: Vec<usize>)
    ensures
        is_ranking(key_values(keys@), rank_values(ranks@)),
{
    let n: usize = keys.len();
    let ghost kv = key_values(keys@);
    let mut items: Vec<usize> = Vec::new();
    let mut ranks: Vec<usize> = Vec::new();
    let mut p: usize = 0;
    while p < n
        invariant
            p <= n,
            items@ == first_positions(p as int),
            ranks@.len() == p,
        decreases n - p,
    {
        items.push(p);
        ranks.push(0);
        p += 1;
    }
    let order = sort_positions(keys, items);
    proof {
        lemma_rearranged_positions(order@, n as int);
    }
    let mut k: usize = 0;
    while k < n
        invariant
            k <= n,
            n == keys.len(),
            order@.len() == n,
            ranks@.len() == n,
            order@.no_duplicates(),
            all_positions(order@, n as int),
            forall|a: int| 0 <= a < k ==> ranks@[#[trigger] order@[a] as int] == a,
        decreases n - k,
    {
        let at: usize = order[k];
        ranks.set(at, k);
        k += 1;
    }
    proof {
        let rv = rank_values(ranks@);
        assert forall|i: int| 0 <= i < n implies 0 <= #[trigger] rv[i] < n by {
            assert(order@.contains(i as usize));
            let a = choose|a: int| 0 <= a < order@.len() && order@[a] == i as usize;
            assert(ranks@[order@[a] as int] == a);
        }
        assert forall|r: int| 0 <= r < n implies #[trigger] rank_taken(rv, r) by {
            assert(ranks@[order@[r] as int] == r);
            assert(holds_rank(rv, order@[r] as int, r));
        }
        assert forall|i: int, j: int|
            0 <= i < n && 0 <= j < n && i != j && ranks_before(kv, i, j) implies #[trigger] rv[i]
            < #[trigger] rv[j] by {
            assert(order@.contains(i as usize));
            assert(order@.contains(j as usize));
            let a = choose|a: int| 0 <= a < order@.len() && order@[a] == i as usize;
            let b = choose|b: int| 0 <= b < order@.len() && order@[b] == j as usize;
            assert(ranks@[order@[a] as int] == a);
            assert(ranks@[order@[b] as int] == b);
            if b < a {
                assert(ranks_before(kv, order@[b] as int, order@[a] as int));
            }
        }
    }
    ranks
}

} // verus!

//! Ranking positions by a key, largest key first. Positions with equal keys
//! keep their order, so a ranking is the order that a stable sort gives.

use vstd::prelude::*;

verus! {

/// Position `a` comes before position `b` in the ranking: its key is larger,
/// or the keys are equal and `a` is the earlier position.
pub open spec fn ranks_before(keys: Seq<u32>, a: int, b: int) -> bool {
    keys[a] > keys[b] || (keys[a] == keys[b] && a < b)
}

/// `order` ranks the first `n` positions of `keys` and holds the first `limit`
/// of them: its entries are positions below `n`, each comes before the next,
/// and every position below `n` that it leaves out comes after all of them.
pub open spec fn ranks_first(keys: Seq<u32>, n: int, order: Seq<usize>, limit: nat) -> bool {
    &&& order.len() == if n <= limit { n } else { limit as int }
    &&& forall|i: int| 0 <= i < order.len() ==> order[i] < n
    &&& forall|i: int, j: int|
        0 <= i < j < order.len() ==> ranks_before(keys, order[i] as int, order[j] as int)
    &&& forall|i: int, k: usize|
        #![trigger order[i], order.contains(k)]
        0 <= i < order.len() && k < n && !order.contains(k) ==> ranks_before(
            keys,
            order[i] as int,
            k as int,
        )
}

/// `order` is the ranking of all positions of `keys`, cut after `limit`
/// entries.
pub open spec fn is_top_ranking(keys: Seq<u32>, order: Seq<usize>, limit: nat) -> bool {
    ranks_first(keys, keys.len() as int, order, limit)
}

/// While fewer than `limit` positions were seen, the ranking leaves none out.
spec fn complete(n: int, order: Seq<usize>, limit: nat) -> bool {
    forall|k: usize| k < n && !#[trigger] order.contains(k) ==> order.len() == limit
}

proof fn lemma_insert(keys: Seq<u32>, n: int, order: Seq<usize>, limit: nat, p: int)
    requires
        0 <= n < keys.len(),
        n <= usize::MAX,
        ranks_first(keys, n, order, limit),
        complete(n, order, limit),
        0 <= p <= order.len(),
        p < limit,
        forall|i: int| 0 <= i < p ==> keys[order[i] as int] >= keys[n],
        p < order.len() ==> keys[order[p] as int] < keys[n],
    ensures
        order.len() < limit ==> ranks_first(keys, n + 1, order.insert(p, n as usize), limit)
            && complete(n + 1, order.insert(p, n as usize), limit),
        order.len() >= limit ==> ranks_first(
            keys,
            n + 1,
            order.insert(p, n as usize).drop_last(),
            limit,
        ) && complete(n + 1, order.insert(p, n as usize).drop_last(), limit),
{
    let grown = order.insert(p, n as usize);
    assert(grown.len() == order.len() + 1);
    assert forall|i: int| 0 <= i < p implies grown[i] == order[i] by {}
    assert(grown[p] == n as usize);
    assert forall|i: int| p < i < grown.len() implies grown[i] == order[i - 1] by {}
    assert forall|i: int| p <= i < order.len() implies keys[order[i] as int] < keys[n] by {
        if i > p {
            assert(ranks_before(keys, order[p] as int, order[i] as int));
        }
    }
    assert forall|i: int, j: int| 0 <= i < j < grown.len() implies ranks_before(
        keys,
        grown[i] as int,
        grown[j] as int,
    ) by {
        if i < p && j > p {
            assert(ranks_before(keys, order[i] as int, order[j - 1] as int));
        } else if i > p {
            assert(ranks_before(keys, order[i - 1] as int, order[j - 1] as int));
        }
    }
    assert forall|k: usize| k < n && order.contains(k) implies grown.contains(k) by {
        let i = choose|i: int| 0 <= i < order.len() && order[i] == k;
        if i < p {
            assert(grown[i] == k);
        } else {
            assert(grown[i + 1] == k);
        }
    }
    if order.len() < limit {
        assert forall|k: usize| k < n + 1 implies grown.contains(k) by {
            if k == n {
                assert(grown[p] == k);
            }
        }
    } else {
        let kept = grown.drop_last();
        let dropped = grown.last();
        assert(kept.len() == limit);
        assert forall|i: int| 0 <= i < kept.len() implies kept[i] == grown[i] by {}
        assert(kept[p] == n as usize);
        assert forall|i: int, k: usize|
            #![trigger kept[i], kept.contains(k)]
            0 <= i < kept.len() && k < n + 1 && !kept.contains(k) implies ranks_before(
            keys,
            kept[i] as int,
            k as int,
        ) by {
            assert(k != n);
            if order.contains(k) {
                let j = choose|j: int| 0 <= j < grown.len() && grown[j] == k;
                if j < kept.len() {
                    assert(kept[j] == k);
                }
                assert(j == grown.len() - 1);
                assert(ranks_before(keys, grown[i] as int, grown[j] as int));
            } else {
                assert(ranks_before(keys, order[p] as int, k as int));
                if i < p {
                    assert(ranks_before(keys, order[i] as int, k as int));
                } else if i > p {
                    assert(ranks_before(keys, order[i - 1] as int, k as int));
                }
            }
        }
    }
}

proof fn lemma_leave_out(keys: Seq<u32>, n: int, order: Seq<usize>, limit: nat)
    requires
        0 <= n < keys.len(),
        ranks_first(keys, n, order, limit),
        complete(n, order, limit),
        order.len() == limit,
        forall|i: int| 0 <= i < order.len() ==> keys[order[i] as int] >= keys[n],
    ensures
        ranks_first(keys, n + 1, order, limit),
        complete(n + 1, order, limit),
{
}

/// Ranks the positions of `keys` and returns the first `limit` of the ranking.
pub fn top_ranking(keys: &Vec<u32>, limit: usize) -> (order: Vec<usize>)
    ensures
        is_top_ranking(keys@, order@, limit as nat),
{
    let mut order: Vec<usize> = Vec::new();
    let mut n: usize = 0;
    while n < keys.len()
        invariant
            n <= keys.len(),
            ranks_first(keys@, n as int, order@, limit as nat),
            complete(n as int, order@, limit as nat),
        decreases keys.len() - n,
    {
        let mut p: usize = 0;
        while p < order.len() && keys[order[p]] >= keys[n]
            invariant
                n < keys.len(),
                p <= order.len(),
                forall|i: int| 0 <= i < order.len() ==> order@[i] < n,
                forall|i: int| 0 <= i < p ==> keys@[order@[i] as int] >= keys@[n as int],
            decreases order.len() - p,
        {
            p += 1;
        }
        if p < limit {
            proof {
                lemma_insert(keys@, n as int, order@, limit as nat, p as int);
            }
            let full = order.len() >= limit;
            order.insert(p, n);
            if full {
                order.pop();
            }
        } else {
            proof {
                lemma_leave_out(keys@, n as int, order@, limit as nat);
            }
        }
        n += 1;
    }
    order
}

proof fn lemma_next_entry(keys: Seq<u32>, a: Seq<usize>, b: Seq<usize>, limit: nat, i: int)
    requires
        is_top_ranking(keys, a, limit),
        is_top_ranking(keys, b, limit),
        0 <= i < a.len(),
        forall|j: int| 0 <= j < i ==> a[j] == b[j],
    ensures
        a[i] == b[i] || ranks_before(keys, b[i] as int, a[i] as int),
{
    if b.contains(a[i]) {
        let j = choose|j: int| 0 <= j < b.len() && b[j] == a[i];
        if j < i {
            assert(ranks_before(keys, a[j] as int, a[i] as int));
        } else if j > i {
            assert(ranks_before(keys, b[i] as int, b[j] as int));
        }
    } else {
        assert(ranks_before(keys, b[i] as int, a[i] as int));
    }
}

proof fn lemma_prefixes_agree(keys: Seq<u32>, a: Seq<usize>, b: Seq<usize>, limit: nat, m: int)
    requires
        is_top_ranking(keys, a, limit),
        is_top_ranking(keys, b, limit),
        0 <= m <= a.len(),
    ensures
        forall|j: int| 0 <= j < m ==> a[j] == b[j],
    decreases m,
{
    if m > 0 {
        lemma_prefixes_agree(keys, a, b, limit, m - 1);
        lemma_next_entry(keys, a, b, limit, m - 1);
        lemma_next_entry(keys, b, a, limit, m - 1);
    }
}

/// There is one ranking only: two sequences that both are the ranking of
/// `keys` cut after `limit` entries are equal.
pub proof fn lemma_top_ranking_unique(keys: Seq<u32>, a: Seq<usize>, b: Seq<usize>, limit: nat)
    requires
        is_top_ranking(keys, a, limit),
        is_top_ranking(keys, b, limit),
    ensures
        a == b,
{
    lemma_prefixes_agree(keys, a, b, limit, a.len() as int);
    assert(a =~= b);
}

/// Along a ranking the keys never rise, and it holds no more than `limit`
/// entries.
pub proof fn lemma_top_ranking_descends(keys: Seq<u32>, order: Seq<usize>, limit: nat)
    requires
        is_top_ranking(keys, order, limit),
    ensures
        order.len() <= limit,
        order.len() <= keys.len(),
        forall|i: int, j: int|
            0 <= i < j < order.len() ==> keys[order[i] as int] >= keys[order[j] as int],
{
    assert forall|i: int, j: int| 0 <= i < j < order.len() implies keys[order[i] as int]
        >= keys[order[j] as int] by {
        assert(ranks_before(keys, order[i] as int, order[j] as int));
    }
}

} // verus!

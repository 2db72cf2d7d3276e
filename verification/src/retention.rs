//! Which session directories a retention sweep deletes.

use vstd::prelude::*;

verus! {

/// Session `i` counts as newer than session `j`: it was modified later or, at
/// the same moment, it was listed later.
pub open spec fn newer(mtimes: Seq<i128>, i: int, j: int) -> bool {
    mtimes[i] > mtimes[j] || (mtimes[i] == mtimes[j] && i > j)
}

/// `order` lists every session once, the newest first.
pub open spec fn is_newest_first(mtimes: Seq<i128>, order: Seq<usize>) -> bool {
    &&& order.len() == mtimes.len()
    &&& forall|a: int| 0 <= a < order.len() ==> 0 <= #[trigger] order[a] < mtimes.len()
    &&& forall|i: int| 0 <= i < mtimes.len() ==> #[trigger] listed(order, i)
    &&& forall|a: int, b: int|
        0 <= a < b < order.len() ==> newer(mtimes, #[trigger] order[a] as int, #[trigger] order[b]
            as int)
}

/// Session `i` occurs in `order`.
pub open spec fn listed(order: Seq<usize>, i: int) -> bool {
    exists|a: int| 0 <= a < order.len() && #[trigger] order[a] == i
}

/// The sessions whose modification times are given, the newest first.
pub fn newest_first(mtimes: &Vec<i128>) -> (order: Vec<usize>)
    ensures
        is_newest_first(mtimes@, order@),
{
    let mut order: Vec<usize> = Vec::new();
    let mut i: usize = 0;
    assert(mtimes@.take(0).len() == 0);
    while i < mtimes.len()
        invariant
            i <= mtimes.len(),
            is_newest_first(mtimes@.take(i as int), order@),
        decreases mtimes.len() - i,
    {
        let ghost before = order@;
        let ghost seen = mtimes@.take(i as int);
        let mut p: usize = 0;
        while p < order.len() && mtimes[order[p]] > mtimes[i]
            invariant
                i < mtimes.len(),
                seen == mtimes@.take(i as int),
                order@ == before,
                is_newest_first(seen, before),
                p <= order.len(),
                forall|a: int| 0 <= a < p ==> mtimes@[#[trigger] before[a] as int] > mtimes@[i as int],
            decreases order.len() - p,
        {
            assert(seen[order@[p as int] as int] == mtimes@[order@[p as int] as int]);
            p = p + 1;
        }
        assert(p < order.len() ==> mtimes@[before[p as int] as int] <= mtimes@[i as int]);
        order.insert(p, i);
        proof {
            let now = mtimes@.take(i + 1);
            assert(order@ =~= before.insert(p as int, i));
            assert forall|a: int, b: int| 0 <= a < b < order@.len() implies newer(
                now,
                #[trigger] order@[a] as int,
                #[trigger] order@[b] as int,
            ) by {
                if b < p {
                    assert(newer(seen, before[a] as int, before[b] as int));
                } else if b == p {
                    assert(order@[a] == before[a]);
                } else if a < p {
                    assert(newer(seen, before[a] as int, before[b - 1] as int));
                } else if a == p {
                    assert(order@[b] == before[b - 1]);
                    if b - 1 > p {
                        assert(newer(seen, before[p as int] as int, before[b - 1] as int));
                    }
                } else {
                    assert(newer(seen, before[a - 1] as int, before[b - 1] as int));
                }
            }
            assert forall|k: int| 0 <= k < now.len() implies #[trigger] listed(order@, k) by {
                if k == i {
                    assert(order@[p as int] == k);
                } else {
                    assert(listed(before, k));
                    let a = choose|a: int| 0 <= a < before.len() && #[trigger] before[a] == k;
                    if a < p {
                        assert(order@[a] == k);
                    } else {
                        assert(order@[a + 1] == k);
                    }
                }
            }
        }
        i = i + 1;
    }
    assert(mtimes@.take(i as int) =~= mtimes@);
    order
}

/// The sessions that a sweep which keeps `keep` of them deletes, in the order in
/// which it deletes them: all but the newest `keep`, the newest of these first.
pub fn retention_victims(mtimes: &Vec<i128>, keep: usize) -> (victims: Vec<usize>)
    ensures
        exists|order: Seq<usize>| #[trigger]
            is_newest_first(mtimes@, order) && victims@ == order.skip(
                if keep <= order.len() {
                    keep as int
                } else {
                    order.len() as int
                },
            ),
{
    let order = newest_first(mtimes);
    let mut victims: Vec<usize> = Vec::new();
    let mut k: usize = if keep <= order.len() {
        keep
    } else {
        order.len()
    };
    let ghost from: int = k as int;
    while k < order.len()
        invariant
            0 <= from <= k <= order.len(),
            victims@ == order@.subrange(from, k as int),
        decreases order.len() - k,
    {
        victims.push(order[k]);
        k = k + 1;
    }
    assert(victims@ =~= order@.skip(from));
    victims
}

// ── laws ────────────────────────────────────────────────────────────────────

proof fn lemma_distinct(mtimes: Seq<i128>, order: Seq<usize>, a: int, b: int)
    requires
        is_newest_first(mtimes, order),
        0 <= a < order.len(),
        0 <= b < order.len(),
        order[a] == order[b],
    ensures
        a == b,
{
}

proof fn lemma_orders_agree(mtimes: Seq<i128>, s: Seq<usize>, t: Seq<usize>, k: int)
    requires
        is_newest_first(mtimes, s),
        is_newest_first(mtimes, t),
        0 <= k < s.len(),
    ensures
        s[k] == t[k],
    decreases k,
{
    assert forall|j: int| 0 <= j < k implies s[j] == t[j] by {
        lemma_orders_agree(mtimes, s, t, j);
    }
    let x = s[k] as int;
    let y = t[k] as int;
    assert(listed(t, x));
    let p = choose|a: int| 0 <= a < t.len() && #[trigger] t[a] == x;
    assert(listed(s, y));
    let q = choose|a: int| 0 <= a < s.len() && #[trigger] s[a] == y;
    if p < k {
        assert(s[p] == s[k]);
        lemma_distinct(mtimes, s, p, k);
    }
    if q < k {
        assert(t[q] == t[k]);
        lemma_distinct(mtimes, t, q, k);
    }
    if p > k && q > k {
        assert(newer(mtimes, t[k] as int, t[p] as int));
        assert(newer(mtimes, s[k] as int, s[q] as int));
    }
}

/// There is only one order from newest to oldest, so a sweep has no choice.
pub proof fn law_one_order(mtimes: Seq<i128>, s: Seq<usize>, t: Seq<usize>)
    requires
        is_newest_first(mtimes, s),
        is_newest_first(mtimes, t),
    ensures
        s == t,
{
    assert forall|k: int| 0 <= k < s.len() implies s[k] == t[k] by {
        lemma_orders_agree(mtimes, s, t, k);
    }
    assert(s =~= t);
}

/// A sweep keeps at most `keep` sessions, and exactly `keep` where there are
/// that many; no session it keeps is older than one it deletes.
pub proof fn law_sweep_keeps_the_newest(mtimes: Seq<i128>, order: Seq<usize>, keep: nat)
    requires
        is_newest_first(mtimes, order),
        keep <= order.len(),
    ensures
        order.take(keep as int).len() == keep,
        order.skip(keep as int).len() == mtimes.len() - keep,
        forall|a: int, b: int|
            0 <= a < keep && 0 <= b < order.skip(keep as int).len()
                ==> mtimes[#[trigger] order.take(keep as int)[a] as int] >= mtimes[#[trigger] order.skip(
                keep as int,
            )[b] as int],
{
    assert forall|a: int, b: int|
        0 <= a < keep && 0 <= b < order.skip(
            keep as int,
        ).len() implies mtimes[#[trigger] order.take(keep as int)[a] as int]
        >= mtimes[#[trigger] order.skip(keep as int)[b] as int] by {
        assert(newer(mtimes, order[a] as int, order[keep + b] as int));
    }
}

/// Of two sessions one is the newer: the one that was modified later, and of two that
/// were modified at one moment the one that was listed later.
pub proof fn law_one_of_two_is_newer(mtimes: Seq<i128>, i: int, j: int)
    ensures
        mtimes[i] > mtimes[j] ==> newer(mtimes, i, j) && !newer(mtimes, j, i),
        mtimes[i] == mtimes[j] && i > j ==> newer(mtimes, i, j) && !newer(mtimes, j, i),
        !newer(mtimes, i, i),
{
}

} // verus!

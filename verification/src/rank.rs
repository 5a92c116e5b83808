//! Ranking by level: the greatest first, equals in the order they came.

use crate::level::Level;
use vstd::prelude::*;

verus! {

/// Whether no level of a list is not a number.
pub open spec fn all_numbers(levels: Seq<Level>) -> bool {
    forall|i: int| 0 <= i < levels.len() ==> !(#[trigger] levels[i]).nan()
}

/// Whether the item at `a` comes before the item at `b`: it is greater, or equal and earlier.
pub open spec fn before(levels: Seq<Level>, a: int, b: int) -> bool {
    levels[a].rank() > levels[b].rank() || (levels[a].rank() == levels[b].rank() && a < b)
}

/// Whether `order` lists the first `n` positions of a list, each of them once, ranked.
pub open spec fn ranks_first(levels: Seq<Level>, order: Seq<usize>, n: nat) -> bool {
    &&& order.len() == n
    &&& n <= levels.len()
    &&& forall|i: int| 0 <= i < order.len() ==> (#[trigger] order[i]) < n
    &&& forall|i: int, j: int|
        0 <= i < j < order.len() ==> before(levels, #[trigger] order[i] as int, #[trigger] order[j] as int)
    &&& forall|k: int| 0 <= k < n ==> #[trigger] ranked_at(order, k)
}

/// Whether a position is listed.
pub open spec fn ranked_at(order: Seq<usize>, k: int) -> bool {
    exists|i: int| 0 <= i < order.len() && #[trigger] order[i] == k
}

/// Whether `order` lists the positions of a list, each of them once, ranked.
pub open spec fn ranking(levels: Seq<Level>, order: Seq<usize>) -> bool {
    ranks_first(levels, order, levels.len())
}

/// The items of a list in the given order, as many as the limit allows.
pub open spec fn picked<T>(items: Seq<T>, order: Seq<usize>, limit: nat) -> Seq<T> {
    Seq::new(
        if order.len() < limit {
            order.len()
        } else {
            limit
        },
        |i: int| items[order[i] as int],
    )
}

/// The ranking of a list of levels.
pub fn order_desc(levels: &Vec<Level>) -> (order: Vec<usize>)
    requires
        all_numbers(levels@),
    ensures
        ranking(levels@, order@),
{
    let mut order: Vec<usize> = Vec::new();
    for i in 0..levels.len()
        invariant
            all_numbers(levels@),
            ranks_first(levels@, order@, i as nat),
    {
        let mut p: usize = order.len();
        while p > 0 && levels[i].gt(levels[order[p - 1]])
            invariant
                i < levels.len(),
                all_numbers(levels@),
                p <= order.len(),
                ranks_first(levels@, order@, i as nat),
                forall|k: int|
                    p <= k < order.len() ==> before(levels@, i as int, #[trigger] order@[k] as int),
            decreases p,
        {
            p = p - 1;
        }
        let ghost old_order = order@;
        proof {
            assert forall|k: int| 0 <= k < p implies before(
                levels@,
                #[trigger] old_order[k] as int,
                i as int,
            ) by {
                if k < p - 1 {
                    assert(before(levels@, old_order[k] as int, old_order[p - 1] as int));
                }
                assert(!levels@[i as int].nan() && !levels@[old_order[p - 1] as int].nan());
            }
        }
        order.insert(p, i);
        proof {
            let now = order@;
            assert forall|a: int, b: int| 0 <= a < b < now.len() implies before(
                levels@,
                #[trigger] now[a] as int,
                #[trigger] now[b] as int,
            ) by {
                let x = if a < p {
                    a
                } else {
                    a - 1
                };
                let y = if b < p {
                    b
                } else {
                    b - 1
                };
                if a != p {
                    assert(now[a] == old_order[x]);
                }
                if b != p {
                    assert(now[b] == old_order[y]);
                }
            }
            assert forall|k: int| 0 <= k < i + 1 implies #[trigger] ranked_at(now, k) by {
                if k == i {
                    assert(now[p as int] == k);
                } else {
                    assert(ranked_at(old_order, k));
                    let w = choose|w: int| 0 <= w < old_order.len() && #[trigger] old_order[w] == k;
                    if w < p {
                        assert(now[w] == k);
                    } else {
                        assert(now[w + 1] == k);
                    }
                }
            }
        }
    }
    order
}

/// A list has one ranking.
pub proof fn law_ranking_is_unique(levels: Seq<Level>, a: Seq<usize>, b: Seq<usize>)
    requires
        ranking(levels, a),
        ranking(levels, b),
    ensures
        a == b,
{
    assert forall|i: int| 0 <= i < a.len() implies a[i] == b[i] by {
        lemma_same_place(levels, a, b, i);
    }
    assert(a =~= b);
}

/// Two rankings that agree up to a place agree at that place.
proof fn lemma_same_place(levels: Seq<Level>, a: Seq<usize>, b: Seq<usize>, i: int)
    requires
        ranking(levels, a),
        ranking(levels, b),
        0 <= i < a.len(),
    ensures
        a[i] == b[i],
    decreases i,
{
    assert forall|k: int| 0 <= k < i implies a[k] == b[k] by {
        lemma_same_place(levels, a, b, k);
    }
    if a[i] != b[i] {
        assert(ranked_at(b, a[i] as int));
        let p = choose|p: int| 0 <= p < b.len() && #[trigger] b[p] == a[i];
        assert(ranked_at(a, b[i] as int));
        let q = choose|q: int| 0 <= q < a.len() && #[trigger] a[q] == b[i];
        if p < i {
            assert(a[p] == a[i]);
            assert(before(levels, a[p] as int, a[i] as int));
        }
        if q < i {
            assert(b[q] == b[i]);
            assert(before(levels, b[q] as int, b[i] as int));
        }
        assert(before(levels, b[i] as int, b[p] as int));
        assert(before(levels, a[i] as int, a[q] as int));
    }
}

} // verus!

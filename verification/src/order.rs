//! Stable sorting of positions.
//!
//! Records are sorted by sorting the positions at which they stand: the result
//! lists the positions in order, and records that compare equal keep the order
//! in which they stood.

use vstd::prelude::*;

verus! {

/// Whether `before` is a strict weak order on the positions below `n`.
pub open spec fn strict_weak_order(n: nat, before: spec_fn(int, int) -> bool) -> bool {
    &&& forall|i: int| 0 <= i < n ==> !#[trigger] before(i, i)
    &&& forall|i: int, j: int, k: int|
        0 <= i < n && 0 <= j < n && 0 <= k < n && #[trigger] before(i, j) && #[trigger] before(j, k)
            ==> before(i, k)
    &&& forall|i: int, j: int, k: int|
        0 <= i < n && 0 <= j < n && 0 <= k < n && #[trigger] before(i, k) ==> #[trigger] before(i, j)
            || before(j, k)
}

/// Whether position `i` precedes position `j`: by `before`, and among equals by
/// standing first.
pub open spec fn precedes(before: spec_fn(int, int) -> bool, i: int, j: int) -> bool {
    before(i, j) || (!before(j, i) && i < j)
}

/// Whether `order` lists `positions`, each once, each one preceding all later ones.
pub open spec fn lists_in_order(
    order: Seq<usize>,
    positions: spec_fn(int) -> bool,
    before: spec_fn(int, int) -> bool,
) -> bool {
    &&& forall|a: int| 0 <= a < order.len() ==> positions(#[trigger] order[a] as int)
    &&& forall|i: int| #[trigger] positions(i) ==> exists|a: int|
        0 <= a < order.len() && order[a] as int == i
    &&& forall|a: int, b: int|
        0 <= a < b < order.len() ==> precedes(
            before,
            #[trigger] order[a] as int,
            #[trigger] order[b] as int,
        )
}

/// Whether `order` lists every position below `n` in stable order by `before`.
pub open spec fn stable_order(
    order: Seq<usize>,
    n: nat,
    before: spec_fn(int, int) -> bool,
) -> bool {
    &&& order.len() == n
    &&& lists_in_order(order, |i: int| 0 <= i < n, before)
}

/// Insert position `next` behind everything it does not stand before.
fn insert_position<F: Fn(usize, usize) -> bool>(
    order: &mut Vec<usize>,
    next: usize,
    less: &F,
    Ghost(n): Ghost<nat>,
    Ghost(before): Ghost<spec_fn(int, int) -> bool>,
)
    requires
        next < n,
        stable_order(old(order)@, next as nat, before),
        strict_weak_order(n, before),
        forall|i: usize, j: usize| i < n && j < n ==> call_requires(*less, (i, j)),
        forall|i: usize, j: usize, r: bool|
            i < n && j < n && call_ensures(*less, (i, j), r) ==> r == before(i as int, j as int),
    ensures
        stable_order(final(order)@, next as nat + 1, before),
{
    let mut at: usize = 0;
    let ghost placed = order@;
    while at < order.len() && !less(next, order[at])
        invariant
            at <= order.len(),
            order@ == placed,
            next < n,
            stable_order(placed, next as nat, before),
            forall|i: usize, j: usize| i < n && j < n ==> call_requires(*less, (i, j)),
            forall|i: usize, j: usize, r: bool|
                i < n && j < n && call_ensures(*less, (i, j), r) ==> r == before(i as int, j as int),
            forall|a: int| 0 <= a < at ==> !before(next as int, #[trigger] placed[a] as int),
        decreases order.len() - at,
    {
        at += 1;
    }
    assert(at < placed.len() ==> before(next as int, placed[at as int] as int));
    order.insert(at, next);
    proof {
        let after = order@;
        assert(after =~= placed.insert(at as int, next));
        let below = |i: int| 0 <= i < next;
        let upto = |i: int| 0 <= i < next as nat + 1;
        assert forall|a: int| 0 <= a < after.len() implies upto(#[trigger] after[a] as int) by {
            if a != at {
                let b = if a < at { a } else { a - 1 };
                assert(after[a] == placed[b]);
                assert(below(placed[b] as int));
            }
        }
        assert forall|i: int| #[trigger] upto(i) implies exists|a: int|
            0 <= a < after.len() && after[a] as int == i by {
            if i == next {
                assert(after[at as int] as int == i);
            } else {
                assert(below(i));
                let b = choose|b: int| 0 <= b < placed.len() && placed[b] as int == i;
                let a = if b < at { b } else { b + 1 };
                assert(after[a] as int == i);
            }
        }
        assert forall|a: int, b: int| 0 <= a < b < after.len() implies precedes(
            before,
            #[trigger] after[a] as int,
            #[trigger] after[b] as int,
        ) by {
            let pa = if a < at { a } else { a - 1 };
            let pb = if b < at { b } else { b - 1 };
            if a == at {
                assert(after[b] == placed[pb]);
                let first = placed[at as int] as int;
                let other = placed[pb] as int;
                assert(below(first) && below(other));
                if pb > at {
                    assert(precedes(before, first, other));
                    if before(other, first) && before(first, other) {
                        assert(before(first, first));
                    }
                    assert(!before(other, first));
                    assert(before(next as int, first));
                    assert(before(next as int, other) || before(other, first));
                }
                assert(before(next as int, other));
            } else if b == at {
                assert(after[a] == placed[pa]);
                assert(below(placed[pa] as int));
                assert(!before(next as int, placed[pa] as int));
            } else {
                assert(after[a] == placed[pa] && after[b] == placed[pb]);
            }
        }
        assert(lists_in_order(after, upto, before));
    }
}

/// Sort the positions below `n` by `less`, keeping equals in place.
pub(crate) fn sort_positions<F: Fn(usize, usize) -> bool>(
    n: usize,
    less: F,
    Ghost(before): Ghost<spec_fn(int, int) -> bool>,
) -> (order: Vec<usize>)
    requires
        strict_weak_order(n as nat, before),
        forall|i: usize, j: usize| i < n && j < n ==> call_requires(less, (i, j)),
        forall|i: usize, j: usize, r: bool|
            i < n && j < n && call_ensures(less, (i, j), r) ==> r == before(i as int, j as int),
    ensures
        stable_order(order@, n as nat, before),
{
    let mut order: Vec<usize> = Vec::new();
    let mut next: usize = 0;
    while next < n
        invariant
            next <= n,
            stable_order(order@, next as nat, before),
            strict_weak_order(n as nat, before),
            forall|i: usize, j: usize| i < n && j < n ==> call_requires(less, (i, j)),
            forall|i: usize, j: usize, r: bool|
                i < n && j < n && call_ensures(less, (i, j), r) ==> r == before(i as int, j as int),
        decreases n - next,
    {
        insert_position(&mut order, next, &less, Ghost(n as nat), Ghost(before));
        next += 1;
    }
    order
}

/// `positions` without `gone`.
spec fn all_but(positions: spec_fn(int) -> bool, gone: int) -> spec_fn(int) -> bool {
    |i: int| positions(i) && i != gone
}

/// A list of positions in order is determined by the positions and the order.
proof fn lemma_listing_unique(
    a: Seq<usize>,
    b: Seq<usize>,
    positions: spec_fn(int) -> bool,
    before: spec_fn(int, int) -> bool,
)
    requires
        lists_in_order(a, positions, before),
        lists_in_order(b, positions, before),
        forall|i: int, j: int| positions(i) && positions(j) && #[trigger] before(i, j) ==> !before(j, i),
    ensures
        a == b,
    decreases a.len(),
{
    if a.len() == 0 {
        if b.len() > 0 {
            assert(positions(b[0] as int));
        }
        assert(a =~= b);
    } else {
        let la = a.last();
        assert(positions(a[a.len() - 1] as int));
        let ib = choose|k: int| 0 <= k < b.len() && b[k] as int == la as int;
        assert(b.len() > 0);
        let lb = b.last();
        assert(positions(b[b.len() - 1] as int));
        let ia = choose|k: int| 0 <= k < a.len() && a[k] as int == lb as int;
        if la != lb {
            assert(precedes(before, b[ib] as int, b[b.len() - 1] as int));
            assert(precedes(before, a[ia] as int, a[a.len() - 1] as int));
        }
        assert(la == lb);
        let rest = all_but(positions, la as int);
        let ra = a.drop_last();
        let rb = b.drop_last();
        lemma_drop_last_lists(a, positions, before);
        lemma_drop_last_lists(b, positions, before);
        assert forall|i: int, j: int| rest(i) && rest(j) && #[trigger] before(i, j) implies !before(
            j,
            i,
        ) by {
            assert(positions(i) && positions(j));
        }
        lemma_listing_unique(ra, rb, rest, before);
        assert(a =~= ra.push(la));
        assert(b =~= rb.push(lb));
    }
}

/// An order of the positions determines their stable listing.
pub proof fn law_stable_order_is_unique(
    a: Seq<usize>,
    b: Seq<usize>,
    n: nat,
    before: spec_fn(int, int) -> bool,
)
    requires
        strict_weak_order(n, before),
        stable_order(a, n, before),
        stable_order(b, n, before),
    ensures
        a == b,
{
    assert forall|i: int, j: int| 0 <= i < n && 0 <= j < n && #[trigger] before(i, j) implies !before(
        j,
        i,
    ) by {
        if before(j, i) {
            assert(before(i, i));
        }
    }
    lemma_listing_unique(a, b, |i: int| 0 <= i < n, before);
}

/// Without its last entry a listing lists the other positions.
proof fn lemma_drop_last_lists(
    a: Seq<usize>,
    positions: spec_fn(int) -> bool,
    before: spec_fn(int, int) -> bool,
)
    requires
        a.len() > 0,
        lists_in_order(a, positions, before),
        forall|i: int, j: int| positions(i) && positions(j) && #[trigger] before(i, j) ==> !before(j, i),
    ensures
        lists_in_order(a.drop_last(), all_but(positions, a.last() as int), before),
{
    let r = a.drop_last();
    let rest = all_but(positions, a.last() as int);
    assert forall|k: int| 0 <= k < r.len() implies rest(#[trigger] r[k] as int) by {
        assert(r[k] == a[k]);
        assert(precedes(before, a[k] as int, a[a.len() - 1] as int));
        assert(positions(a[k] as int));
    }
    assert forall|i: int| #[trigger] rest(i) implies exists|k: int|
        0 <= k < r.len() && r[k] as int == i by {
        let k = choose|k: int| 0 <= k < a.len() && a[k] as int == i;
        assert(r[k] as int == i);
    }
    assert forall|k: int, m: int| 0 <= k < m < r.len() implies precedes(
        before,
        #[trigger] r[k] as int,
        #[trigger] r[m] as int,
    ) by {
        assert(r[k] == a[k] && r[m] == a[m]);
    }
}

/// Picking the positions of a sequence in any order keeps its items.
pub proof fn lemma_picked_multiset(items: Seq<int>, order: Seq<usize>)
    requires
        order.len() == items.len(),
        forall|a: int| 0 <= a < order.len() ==> (#[trigger] order[a]) < items.len(),
        forall|a: int, b: int| 0 <= a < b < order.len() ==> #[trigger] order[a] != #[trigger] order[b],
    ensures
        order.map_values(|at: usize| items[at as int]).to_multiset() == items.to_multiset(),
    decreases items.len(),
{
    let picked = order.map_values(|at: usize| items[at as int]);
    let n = items.len() as int;
    if n == 0 {
        assert(picked =~= items);
    } else {
        lemma_permutation_hits(order, n, n - 1);
        let p = choose|p: int| 0 <= p < order.len() && order[p] == n - 1;
        let rest_order = order.remove(p);
        let rest_items = items.drop_last();
        assert forall|a: int| 0 <= a < rest_order.len() implies (#[trigger] rest_order[a])
            < rest_items.len() by {
            let b = if a < p { a } else { a + 1 };
            assert(rest_order[a] == order[b]);
            assert(order[b] != order[p]);
        }
        assert forall|a: int, b: int| 0 <= a < b < rest_order.len() implies #[trigger] rest_order[a]
            != #[trigger] rest_order[b] by {
            let a2 = if a < p { a } else { a + 1 };
            let b2 = if b < p { b } else { b + 1 };
            assert(rest_order[a] == order[a2] && rest_order[b] == order[b2]);
        }
        lemma_picked_multiset(rest_items, rest_order);
        let rest_picked = rest_order.map_values(|at: usize| rest_items[at as int]);
        assert(rest_picked =~= picked.remove(p)) by {
            assert forall|a: int| 0 <= a < rest_picked.len() implies rest_picked[a]
                == picked.remove(p)[a] by {
                assert(rest_order[a] < rest_items.len());
            }
        }
        assert(picked[p] == items[n - 1]);
        assert(items =~= rest_items.push(items[n - 1]));
        broadcast use vstd::seq_lib::group_to_multiset_ensures;
        picked.to_multiset_ensures();
        rest_items.to_multiset_ensures();
        assert(picked =~= picked.remove(p).insert(p, items[n - 1]));
        assert(items.to_multiset() =~= rest_items.to_multiset().insert(items[n - 1]));
        assert(picked.remove(p).to_multiset() =~= picked.to_multiset().remove(picked[p]));
        assert(picked.to_multiset().contains(picked[p]));
        assert(picked.to_multiset() =~= picked.to_multiset().remove(picked[p]).insert(picked[p]));
    }
}

/// Distinct positions below `n`, `n` of them, hit every position.
pub proof fn lemma_permutation_hits(order: Seq<usize>, n: int, target: int)
    requires
        order.len() == n,
        0 <= target < n,
        forall|a: int| 0 <= a < order.len() ==> (#[trigger] order[a]) < n,
        forall|a: int, b: int| 0 <= a < b < order.len() ==> #[trigger] order[a] != #[trigger] order[b],
    ensures
        exists|p: int| 0 <= p < order.len() && order[p] == target,
{
    let values = order.map_values(|at: usize| at as int);
    let all = vstd::set_lib::set_int_range(0, n);
    vstd::set_lib::lemma_int_range(0, n);
    assert(values.no_duplicates());
    values.unique_seq_to_set();
    assert(values.to_set().subset_of(all)) by {
        assert forall|v: int| values.to_set().contains(v) implies all.contains(v) by {
            let k = choose|k: int| 0 <= k < values.len() && values[k] == v;
            assert(order[k] < n);
        }
    }
    vstd::set_lib::lemma_subset_equality(values.to_set(), all);
    assert(all.contains(target));
    assert(values.contains(target));
    let p = choose|p: int| 0 <= p < values.len() && values[p] == target;
    assert(order[p] == target);
}

/// A stable order lists every position exactly once, puts nothing behind what
/// it stands before, and keeps positions that stand before neither way as they
/// were.
pub proof fn law_stable_order_is_a_sorted_listing(
    order: Seq<usize>,
    n: nat,
    before: spec_fn(int, int) -> bool,
    a: int,
    b: int,
    p: int,
)
    requires
        stable_order(order, n, before),
        strict_weak_order(n, before),
    ensures
        order.len() == n,
        0 <= p < n ==> exists|k: int| 0 <= k < order.len() && #[trigger] order[k] == p,
        0 <= a < order.len() ==> order[a] < n,
        0 <= a < b < order.len() ==> {
            &&& order[a] != order[b]
            &&& !before(order[b] as int, order[a] as int)
            &&& !before(order[a] as int, order[b] as int) ==> order[a] < order[b]
        },
{
    let below = |i: int| 0 <= i < n;
    if 0 <= p < n {
        assert(below(p));
        let k = choose|k: int| 0 <= k < order.len() && order[k] as int == p;
        assert(order[k] == p);
    }
    if 0 <= a < order.len() {
        assert(below(order[a] as int));
    }
    if 0 <= a < b < order.len() {
        assert(below(order[a] as int) && below(order[b] as int));
        let x = order[a] as int;
        let y = order[b] as int;
        assert(precedes(before, x, y));
        assert(!before(x, x));
        if before(x, y) && before(y, x) {
            assert(before(x, x));
        }
    }
}

} // verus!

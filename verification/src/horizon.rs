//! When the number of fresh replicas would fall.

use crate::arith::{
    at_least_zero, at_least_zero_i64, clamp_i64, i64_from_usize, saturating_sub_i64,
};
use crate::order::{lemma_picked_multiset, sort_positions, strict_weak_order};
use vstd::prelude::*;

verus! {

/// ReplicaHorizonPoint is one threshold of the fresh replica count.
#[derive(Clone, Copy, Debug, PartialEq, Eq, Structural)]
pub struct ReplicaHorizonPoint {
    /// remaining_fresh_replicas is the count from the threshold on.
    pub remaining_fresh_replicas: i64,
    /// seconds_until_threshold is how long the threshold is away.
    pub seconds_until_threshold: i64,
    /// never reports that the threshold is never reached.
    pub never: bool,
}

/// The finite expiries, none before now, in the order in which they are given.
pub open spec fn finite_expiries(expiry_seconds: Seq<Option<i64>>) -> Seq<int>
    decreases expiry_seconds.len(),
{
    if expiry_seconds.len() == 0 {
        Seq::<int>::empty()
    } else {
        let rest = finite_expiries(expiry_seconds.drop_last());
        match expiry_seconds.last() {
            Some(seconds) => rest.push(at_least_zero(seconds as int)),
            None => rest,
        }
    }
}

/// Whether `sorted` holds the same numbers as `items`, in ascending order.
pub open spec fn sorts(sorted: Seq<int>, items: Seq<int>) -> bool {
    &&& sorted.to_multiset() == items.to_multiset()
    &&& forall|i: int, j: int| 0 <= i < j < sorted.len() ==> #[trigger] sorted[i] <= #[trigger] sorted[j]
}

/// The number of replicas that never expire.
pub open spec fn never_count(expiry_seconds: Seq<Option<i64>>) -> nat
    decreases expiry_seconds.len(),
{
    if expiry_seconds.len() == 0 {
        0
    } else {
        never_count(expiry_seconds.drop_last()) + if expiry_seconds.last() is None {
            1nat
        } else {
            0nat
        }
    }
}

/// The thresholds at the finite expiries `sorted` of `total` replicas: each
/// expiry leaves one replica fewer.
pub open spec fn finite_points(sorted: Seq<int>, total: int) -> Seq<ReplicaHorizonPoint> {
    Seq::new(
        sorted.len(),
        |i: int|
            ReplicaHorizonPoint {
                remaining_fresh_replicas: clamp_i64(clamp_i64(total) - 1 - i) as i64,
                seconds_until_threshold: sorted[i] as i64,
                never: false,
            },
    )
}

/// The thresholds that `nevers` replicas that never expire keep from being reached.
pub open spec fn never_points(nevers: int) -> Seq<ReplicaHorizonPoint> {
    Seq::new(
        clamp_i64(nevers) as nat,
        |i: int|
            ReplicaHorizonPoint {
                remaining_fresh_replicas: (clamp_i64(nevers) - 1 - i) as i64,
                seconds_until_threshold: 0,
                never: true,
            },
    )
}

/// Collect the finite expiries.
fn collect_finite(expiry_seconds: &[Option<i64>]) -> (finite: Vec<i64>)
    ensures
        finite@.map_values(|s: i64| s as int) == finite_expiries(expiry_seconds@),
        finite@.len() + never_count(expiry_seconds@) == expiry_seconds@.len(),
{
    let mut finite: Vec<i64> = Vec::new();
    let mut i: usize = 0;
    assert(finite@.map_values(|s: i64| s as int) =~= finite_expiries(expiry_seconds@.take(0)));
    while i < expiry_seconds.len()
        invariant
            i <= expiry_seconds.len(),
            finite@.map_values(|s: i64| s as int) == finite_expiries(expiry_seconds@.take(i as int)),
            finite@.len() + never_count(expiry_seconds@.take(i as int)) == i,
        decreases expiry_seconds.len() - i,
    {
        let ghost before = finite@;
        assert(expiry_seconds@.take(i + 1).drop_last() =~= expiry_seconds@.take(i as int));
        if let Some(seconds) = expiry_seconds[i] {
            let seconds = at_least_zero_i64(seconds);
            finite.push(seconds);
            assert(finite@.map_values(|s: i64| s as int) =~= before.map_values(
                |s: i64| s as int,
            ).push(seconds as int));
        }
        i += 1;
    }
    assert(expiry_seconds@.take(i as int) =~= expiry_seconds@);
    finite
}

/// Sort numbers in ascending order.
fn sort_ascending(items: &Vec<i64>) -> (sorted: Vec<i64>)
    ensures
        sorts(
            sorted@.map_values(|s: i64| s as int),
            items@.map_values(|s: i64| s as int),
        ),
        sorted@.len() == items@.len(),
        forall|i: int| 0 <= i < sorted@.len() ==> items@.contains(#[trigger] sorted@[i]),
{
    let ghost before = |i: int, j: int| items@[i] < items@[j];
    assert(strict_weak_order(items@.len(), before));
    let less = |i: usize, j: usize| -> (r: bool)
        requires
            i < items@.len(),
            j < items@.len(),
        ensures
            r == (items@[i as int] < items@[j as int]),
        { items[i] < items[j] };
    let order = sort_positions(items.len(), less, Ghost(before));
    let mut sorted: Vec<i64> = Vec::new();
    let mut next: usize = 0;
    proof {
        assert forall|a: int| 0 <= a < order@.len() implies (#[trigger] order@[a]) < items@.len() by {
            let below = |i: int| 0 <= i < items@.len();
            assert(below(order@[a] as int));
        }
    }
    while next < order.len()
        invariant
            next <= order.len(),
            order@.len() == items@.len(),
            forall|a: int| 0 <= a < order@.len() ==> (#[trigger] order@[a]) < items@.len(),
            sorted@.len() == next,
            forall|a: int| 0 <= a < next ==> #[trigger] sorted@[a] == items@[order@[a] as int],
        decreases order.len() - next,
    {
        sorted.push(items[order[next]]);
        next += 1;
    }
    proof {
        let values = items@.map_values(|s: i64| s as int);
        let result = sorted@.map_values(|s: i64| s as int);
        assert forall|a: int, b: int| 0 <= a < b < order@.len() implies #[trigger] order@[a]
            != #[trigger] order@[b] by {
            assert(crate::order::precedes(before, order@[a] as int, order@[b] as int));
        }
        lemma_picked_multiset(values, order@);
        assert(result =~= order@.map_values(|at: usize| values[at as int]));
        assert forall|i: int, j: int| 0 <= i < j < result.len() implies #[trigger] result[i]
            <= #[trigger] result[j] by {
            assert(crate::order::precedes(before, order@[i] as int, order@[j] as int));
        }
    }
    sorted
}

/// Build threshold points for when fresh checked replica count would decay.
pub fn replica_horizon_points(expiry_seconds: &[Option<i64>]) -> (points: Vec<ReplicaHorizonPoint>)
    ensures
        exists|sorted: Seq<int>| #[trigger]
            sorts(sorted, finite_expiries(expiry_seconds@)) && points@ == finite_points(
                sorted,
                expiry_seconds@.len() as int,
            ) + never_points(never_count(expiry_seconds@) as int),
{
    let finite = collect_finite(expiry_seconds);
    let sorted = sort_ascending(&finite);
    let ghost values = sorted@.map_values(|s: i64| s as int);
    let ghost total = expiry_seconds@.len() as int;
    let nevers = i64_from_usize(expiry_seconds.len() - sorted.len());
    let mut remaining = i64_from_usize(expiry_seconds.len());
    let mut points: Vec<ReplicaHorizonPoint> = Vec::new();
    let mut i: usize = 0;
    while i < sorted.len()
        invariant
            i <= sorted.len(),
            remaining == clamp_i64(clamp_i64(total) - i),
            values == sorted@.map_values(|s: i64| s as int),
            points@ =~= finite_points(values, total).take(i as int),
        decreases sorted.len() - i,
    {
        remaining = saturating_sub_i64(remaining, 1);
        points.push(
            ReplicaHorizonPoint {
                remaining_fresh_replicas: remaining,
                seconds_until_threshold: sorted[i],
                never: false,
            },
        );
        i += 1;
    }
    let ghost first = finite_points(values, total);
    assert(points@ =~= first);
    let mut left: i64 = nevers;
    assert(points@ =~= first + never_points(nevers as int).take(0));
    while left > 0
        invariant
            0 <= left <= nevers,
            points@ =~= first + never_points(nevers as int).take(nevers - left),
        decreases left,
    {
        left = left - 1;
        points.push(
            ReplicaHorizonPoint {
                remaining_fresh_replicas: left,
                seconds_until_threshold: 0,
                never: true,
            },
        );
    }
    proof {
        let never = never_points(never_count(expiry_seconds@) as int);
        assert(never_points(nevers as int) =~= never);
        assert(points@ =~= first + never);
        assert(sorts(values, finite_expiries(expiry_seconds@)));
    }
    points
}

/// There is one point for each replica, and every point leaves one replica
/// fewer than the point before it, down to none; the replicas that never
/// expire come last.
pub proof fn law_horizon_counts_down(expiry_seconds: Seq<Option<i64>>, sorted: Seq<int>, i: int)
    requires
        sorts(sorted, finite_expiries(expiry_seconds)),
        expiry_seconds.len() <= i64::MAX,
        0 <= i < expiry_seconds.len(),
    ensures
        ({
            let points = finite_points(sorted, expiry_seconds.len() as int) + never_points(
                never_count(expiry_seconds) as int,
            );
            &&& points.len() == expiry_seconds.len()
            &&& points[i].remaining_fresh_replicas == expiry_seconds.len() - 1 - i
            &&& points[i].never <==> i >= finite_expiries(expiry_seconds).len()
        }),
{
    broadcast use vstd::seq_lib::group_to_multiset_ensures;
    sorted.to_multiset_ensures();
    finite_expiries(expiry_seconds).to_multiset_ensures();
    lemma_expiry_counts(expiry_seconds);
}

/// Every replica expires or never does.
pub proof fn lemma_expiry_counts(expiry_seconds: Seq<Option<i64>>)
    ensures
        finite_expiries(expiry_seconds).len() + never_count(expiry_seconds) == expiry_seconds.len(),
    decreases expiry_seconds.len(),
{
    if expiry_seconds.len() > 0 {
        lemma_expiry_counts(expiry_seconds.drop_last());
    }
}

/// Whether `points` tells when replicas that expire as given would be gone: one
/// point for each replica, counting down to none; first the finite expiries in
/// ascending order, none of them before now, then those that never expire.
pub open spec fn tells_expiries(
    points: Seq<ReplicaHorizonPoint>,
    expiries: Seq<Option<i64>>,
) -> bool {
    let finite = expiries.filter(|expiry: Option<i64>| expiry is Some).map_values(
        |expiry: Option<i64>|
            if expiry->0 < 0 {
                0int
            } else {
                expiry->0 as int
            },
    );
    &&& points.len() == expiries.len()
    &&& forall|i: int|
        0 <= i < points.len() ==> (#[trigger] points[i]).remaining_fresh_replicas == points.len() - 1
            - i
    &&& forall|i: int| 0 <= i < points.len() ==> ((#[trigger] points[i]).never <==> i >= finite.len())
    &&& forall|i: int|
        finite.len() <= i < points.len() ==> (#[trigger] points[i]).seconds_until_threshold == 0
    &&& forall|i: int, j: int|
        0 <= i < j < finite.len() ==> (#[trigger] points[i]).seconds_until_threshold <= (
        #[trigger] points[j]).seconds_until_threshold
    &&& finite.len() <= points.len()
    &&& points.take(finite.len() as int).map_values(
        |point: ReplicaHorizonPoint| point.seconds_until_threshold as int,
    ).to_multiset() == finite.to_multiset()
}

/// The finite expiries are those that are given, none before now.
proof fn lemma_finite_expiries(expiries: Seq<Option<i64>>)
    ensures
        finite_expiries(expiries) == expiries.filter(
            |expiry: Option<i64>| expiry is Some,
        ).map_values(
            |expiry: Option<i64>|
                if expiry->0 < 0 {
                    0int
                } else {
                    expiry->0 as int
                },
        ),
        forall|i: int|
            0 <= i < finite_expiries(expiries).len() ==> 0 <= #[trigger] finite_expiries(expiries)[i]
                <= i64::MAX,
    decreases expiries.len(),
{
    reveal(Seq::filter);
    if expiries.len() > 0 {
        lemma_finite_expiries(expiries.drop_last());
    }
    assert(finite_expiries(expiries) =~= expiries.filter(
        |expiry: Option<i64>| expiry is Some,
    ).map_values(
        |expiry: Option<i64>|
            if expiry->0 < 0 {
                0int
            } else {
                expiry->0 as int
            },
    ));
}

/// The points at sorted expiries, followed by those that never come, tell the expiries.
pub proof fn lemma_tells_expiries(
    points: Seq<ReplicaHorizonPoint>,
    expiries: Seq<Option<i64>>,
    sorted: Seq<int>,
)
    requires
        expiries.len() <= i64::MAX,
        sorts(sorted, finite_expiries(expiries)),
        points == finite_points(sorted, expiries.len() as int) + never_points(
            never_count(expiries) as int,
        ),
    ensures
        tells_expiries(points, expiries),
{
    broadcast use vstd::seq_lib::group_to_multiset_ensures;
    let finite = finite_expiries(expiries);
    lemma_finite_expiries(expiries);
    lemma_expiry_counts(expiries);
    sorted.to_multiset_ensures();
    finite.to_multiset_ensures();
    assert forall|i: int| 0 <= i < sorted.len() implies 0 <= #[trigger] sorted[i] <= i64::MAX by {
        assert(sorted.to_multiset().contains(sorted[i]));
        assert(finite.contains(sorted[i]));
        let k = choose|k: int| 0 <= k < finite.len() && finite[k] == sorted[i];
    }
    assert(points.take(finite.len() as int).map_values(
        |point: ReplicaHorizonPoint| point.seconds_until_threshold as int,
    ) =~= sorted);
}

/// The points tell of every given expiry, and of nothing else.
pub proof fn law_horizon_tells_every_expiry(
    expiry_seconds: &[Option<i64>],
    points: Vec<ReplicaHorizonPoint>,
)
    requires
        expiry_seconds@.len() <= i64::MAX,
        call_ensures(replica_horizon_points, (expiry_seconds,), points),
    ensures
        tells_expiries(points@, expiry_seconds@),
{
    let sorted = choose|sorted: Seq<int>| #[trigger]
        sorts(sorted, finite_expiries(expiry_seconds@)) && points@ == finite_points(
            sorted,
            expiry_seconds@.len() as int,
        ) + never_points(never_count(expiry_seconds@) as int);
    lemma_tells_expiries(points@, expiry_seconds@, sorted);
}

} // verus!

//! Choosing peers to publish to when replicas are missing.

use crate::arith::{at_least_zero, at_least_zero_i64, clamp_i64, min_int, saturating_sub_i64};
use crate::collections::{contains_text, texts};
use crate::outside::Draws;
use vstd::prelude::*;

verus! {

/// PEER_SELECTION_BASE_WEIGHT is the baseline chance every eligible peer keeps.
pub const PEER_SELECTION_BASE_WEIGHT: u64 = 1;

/// PEER_SELECTION_PINNED_BY_US_BONUS strongly boosts peers pinned locally.
pub const PEER_SELECTION_PINNED_BY_US_BONUS: u64 = 48;

/// PEER_SELECTION_PINS_US_BONUS strongly boosts peers that most recently pinned us.
pub const PEER_SELECTION_PINS_US_BONUS: u64 = 32;

/// PEER_SELECTION_AVAILABILITY_BONUS_SCALE converts the smoothed success ratio into weight.
pub const PEER_SELECTION_AVAILABILITY_BONUS_SCALE: u64 = 40;

/// PEER_SELECTION_AGE_STEP_SECS grants one age bonus per observed day.
pub const PEER_SELECTION_AGE_STEP_SECS: i64 = 86_400;

/// PEER_SELECTION_MAX_AGE_BONUS caps the age contribution to keep it moderate.
pub const PEER_SELECTION_MAX_AGE_BONUS: u64 = 30;

/// PublicationCandidate is one eligible peer considered for replica refill.
#[derive(Debug, PartialEq, Eq)]
pub struct PublicationCandidate {
    /// peer_onion is the peer onion hostname.
    pub peer_onion: String,
    /// pinned_by_us reports whether we pin this peer locally.
    pub pinned_by_us: bool,
    /// pins_us reports whether this peer most recently told us that it pins us.
    pub pins_us: bool,
    /// first_seen_at is when we first admitted this peer locally.
    pub first_seen_at: (i64, i64),
    /// successful_calls counts successful observed outbound interactions.
    pub successful_calls: i64,
    /// failed_calls counts failed observed outbound interactions.
    pub failed_calls: i64,
    /// stores_peer_data reports whether we currently cache this peer's bytes.
    pub stores_peer_data: bool,
}

/// PublicationCandidateView is the mathematical content of a `PublicationCandidate`.
pub struct PublicationCandidateView {
    /// peer_onion is the peer onion hostname.
    pub peer_onion: Seq<char>,
    /// pinned_by_us reports whether we pin this peer locally.
    pub pinned_by_us: bool,
    /// pins_us reports whether this peer most recently told us that it pins us.
    pub pins_us: bool,
    /// first_seen_at is when we first admitted this peer locally.
    pub first_seen_at: (i64, i64),
    /// successful_calls counts successful observed outbound interactions.
    pub successful_calls: i64,
    /// failed_calls counts failed observed outbound interactions.
    pub failed_calls: i64,
    /// stores_peer_data reports whether we currently cache this peer's bytes.
    pub stores_peer_data: bool,
}

impl View for PublicationCandidate {
    type V = PublicationCandidateView;

    open spec fn view(&self) -> PublicationCandidateView {
        PublicationCandidateView {
            peer_onion: self.peer_onion@,
            pinned_by_us: self.pinned_by_us,
            pins_us: self.pins_us,
            first_seen_at: self.first_seen_at,
            successful_calls: self.successful_calls,
            failed_calls: self.failed_calls,
            stores_peer_data: self.stores_peer_data,
        }
    }
}

impl Clone for PublicationCandidate {
    fn clone(&self) -> (copy: Self)
        ensures
            copy@ == self@,
    {
        PublicationCandidate {
            peer_onion: self.peer_onion.clone(),
            pinned_by_us: self.pinned_by_us,
            pins_us: self.pins_us,
            first_seen_at: self.first_seen_at,
            successful_calls: self.successful_calls,
            failed_calls: self.failed_calls,
            stores_peer_data: self.stores_peer_data,
        }
    }
}

/// The contents of a list of candidates.
pub open spec fn pool_views(candidates: Seq<PublicationCandidate>) -> Seq<PublicationCandidateView> {
    candidates.map_values(|c: PublicationCandidate| c@)
}

/// One point for every whole day that the peer has been known, up to a cap.
pub open spec fn age_bonus(first_seen: int, now: int) -> int {
    min_int(
        PEER_SELECTION_MAX_AGE_BONUS as int,
        at_least_zero(clamp_i64(now - first_seen)) / (PEER_SELECTION_AGE_STEP_SECS as int),
    )
}

/// The smoothed share of successful calls, scaled.
pub open spec fn availability_bonus(successful: int, failed: int) -> int {
    min_int(
        u64::MAX as int,
        (at_least_zero(successful) + 1) * PEER_SELECTION_AVAILABILITY_BONUS_SCALE,
    ) / min_int(u64::MAX as int, at_least_zero(successful) + at_least_zero(failed) + 2)
}

/// The weight of a candidate in a random selection.
pub open spec fn weight_of(candidate: PublicationCandidateView, now: int) -> int {
    PEER_SELECTION_BASE_WEIGHT + (if candidate.pinned_by_us {
        PEER_SELECTION_PINNED_BY_US_BONUS as int
    } else {
        0
    }) + (if candidate.pins_us {
        PEER_SELECTION_PINS_US_BONUS as int
    } else {
        0
    }) + age_bonus(candidate.first_seen_at.0 as int, now) + availability_bonus(
        candidate.successful_calls as int,
        candidate.failed_calls as int,
    )
}

/// The share of successful calls earns between nothing and the whole scale.
proof fn lemma_availability_bounds(successful: int, failed: int)
    ensures
        0 <= availability_bonus(successful, failed) <= PEER_SELECTION_AVAILABILITY_BONUS_SCALE,
{
    let s = at_least_zero(successful);
    let f = at_least_zero(failed);
    let a = min_int(u64::MAX as int, (s + 1) * PEER_SELECTION_AVAILABILITY_BONUS_SCALE);
    let d = min_int(u64::MAX as int, s + f + 2);
    assert(0 <= a <= 40 * d);
    assert(0 <= a / d <= 40) by (nonlinear_arith)
        requires
            0 <= a <= 40 * d,
            d > 0,
    ;
}

/// Every candidate has some chance, and none more than the sum of all bonuses.
pub proof fn law_weight_bounds(candidate: PublicationCandidateView, now: int)
    ensures
        1 <= weight_of(candidate, now) <= 151,
{
    lemma_availability_bounds(candidate.successful_calls as int, candidate.failed_calls as int);
    let age = at_least_zero(clamp_i64(now - candidate.first_seen_at.0));
    assert(age / 86_400 >= 0);
}

/// Compute one weighted-random selection score for a publication candidate.
pub fn publication_candidate_weight(candidate: &PublicationCandidate, now_secs: i64) -> (weight: u64)
    ensures
        weight == weight_of(candidate@, now_secs as int),
{
    proof {
        law_weight_bounds(candidate@, now_secs as int);
        lemma_availability_bounds(candidate.successful_calls as int, candidate.failed_calls as int);
    }
    let mut weight = PEER_SELECTION_BASE_WEIGHT;
    if candidate.pinned_by_us {
        weight = weight + PEER_SELECTION_PINNED_BY_US_BONUS;
    }
    if candidate.pins_us {
        weight = weight + PEER_SELECTION_PINS_US_BONUS;
    }
    let age = at_least_zero_i64(saturating_sub_i64(now_secs, candidate.first_seen_at.0));
    let days = (age / PEER_SELECTION_AGE_STEP_SECS) as u64;
    let age_bonus = if days <= PEER_SELECTION_MAX_AGE_BONUS {
        days
    } else {
        PEER_SELECTION_MAX_AGE_BONUS
    };
    weight = weight + age_bonus;
    let successes = at_least_zero_i64(candidate.successful_calls) as u64;
    let failures = at_least_zero_i64(candidate.failed_calls) as u64;
    let scaled = match (successes + 1).checked_mul(PEER_SELECTION_AVAILABILITY_BONUS_SCALE) {
        Some(product) => product,
        None => u64::MAX,
    };
    let calls = match (successes + failures).checked_add(2) {
        Some(sum) => sum,
        None => u64::MAX,
    };
    let availability_bonus = scaled / calls;
    weight + availability_bonus
}

/// The sum of the weights of a pool.
pub open spec fn total_weight(pool: Seq<PublicationCandidateView>, now: int) -> int
    decreases pool.len(),
{
    if pool.len() == 0 {
        0
    } else {
        total_weight(pool.drop_last(), now) + weight_of(pool.last(), now)
    }
}

/// Whether the draw `draw` lands on candidate `i`: the weights of those before
/// it sum to no more than the draw, and with its own weight to more. A draw
/// beyond all weights lands on the last candidate.
pub open spec fn lands_on(
    pool: Seq<PublicationCandidateView>,
    now: int,
    draw: int,
    i: int,
) -> bool {
    &&& 0 <= i < pool.len()
    &&& total_weight(pool.take(i), now) <= draw
    &&& draw < total_weight(pool.take(i + 1), now) || i == pool.len() - 1
}

/// The bound below which draws are made: the sum of all weights, saturating.
pub open spec fn draw_bound(pool: Seq<PublicationCandidateView>, now: int) -> int {
    min_int(u64::MAX as int, total_weight(pool, now))
}

/// A pool weighs at least as much as it has candidates.
proof fn lemma_total_weight_bounds(pool: Seq<PublicationCandidateView>, now: int)
    ensures
        total_weight(pool, now) >= pool.len(),
    decreases pool.len(),
{
    if pool.len() > 0 {
        law_weight_bounds(pool.last(), now);
        lemma_total_weight_bounds(pool.drop_last(), now);
    }
}

/// Find the candidate that a draw lands on.
pub fn candidate_at_draw(candidates: &[PublicationCandidate], now_secs: i64, draw: u64) -> (index:
    Option<usize>)
    ensures
        match index {
            None => candidates@.len() == 0,
            Some(i) => lands_on(pool_views(candidates@), now_secs as int, draw as int, i as int),
        },
{
    let ghost views = pool_views(candidates@);
    if candidates.len() == 0 {
        return None;
    }
    let mut left: u64 = draw;
    let mut i: usize = 0;
    while i < candidates.len() - 1
        invariant
            0 < candidates.len(),
            i <= candidates.len() - 1,
            views == pool_views(candidates@),
            draw == total_weight(views.take(i as int), now_secs as int) + left,
        decreases candidates.len() - i,
    {
        proof {
            assert(views[i as int] == candidates@[i as int]@);
            assert(views.take(i + 1).drop_last() =~= views.take(i as int));
        }
        let weight = publication_candidate_weight(&candidates[i], now_secs);
        if left < weight {
            return Some(i);
        }
        left = left - weight;
        i += 1;
    }
    Some(i)
}

/// Sum the weights of a pool, saturating.
fn weigh(candidates: &[PublicationCandidate], now_secs: i64) -> (bound: u64)
    ensures
        bound == draw_bound(pool_views(candidates@), now_secs as int),
{
    let ghost views = pool_views(candidates@);
    let mut bound: u64 = 0;
    let mut i: usize = 0;
    while i < candidates.len()
        invariant
            i <= candidates.len(),
            views == pool_views(candidates@),
            bound == draw_bound(views.take(i as int), now_secs as int),
        decreases candidates.len() - i,
    {
        proof {
            assert(views[i as int] == candidates@[i as int]@);
            assert(views.take(i + 1).drop_last() =~= views.take(i as int));
            law_weight_bounds(views[i as int], now_secs as int);
        }
        bound = bound.saturating_add(publication_candidate_weight(&candidates[i], now_secs));
        i += 1;
    }
    assert(views.take(i as int) =~= views);
    bound
}

/// Sample one weighted publication candidate index.
pub fn sample_weighted_publication_candidate<R: Draws>(
    candidates: &[PublicationCandidate],
    now_secs: i64,
    rng: &mut R,
) -> (index: Option<usize>)
    ensures
        match index {
            None => candidates@.len() == 0,
            Some(i) => exists|draw: u64|
                draw < draw_bound(pool_views(candidates@), now_secs as int) && #[trigger] lands_on(
                    pool_views(candidates@),
                    now_secs as int,
                    draw as int,
                    i as int,
                ),
        },
        candidates@.len() == 0 ==> *final(rng) == *old(rng),
{
    proof {
        lemma_total_weight_bounds(pool_views(candidates@), now_secs as int);
    }
    let bound = weigh(candidates, now_secs);
    if bound == 0 {
        return None;
    }
    let draw = rng.draw_below(bound);
    candidate_at_draw(candidates, now_secs, draw)
}

/// PublicationPool is a stage of the selection.
#[derive(Clone, Copy, Debug, PartialEq, Eq, Structural)]
pub enum PublicationPool {
    /// Reciprocal peers are those whose bytes we cache.
    Reciprocal,
    /// Pinned peers are those that we pin or that pin us.
    Pinned,
    /// Anyone is every remaining peer.
    Anyone,
}

/// Whether a candidate belongs to a stage, given who has been selected.
pub open spec fn belongs(
    candidate: PublicationCandidateView,
    stage: PublicationPool,
    selected: Seq<Seq<char>>,
) -> bool {
    match stage {
        PublicationPool::Reciprocal => candidate.stores_peer_data,
        PublicationPool::Pinned => !selected.contains(candidate.peer_onion) && (
        candidate.pinned_by_us || candidate.pins_us),
        PublicationPool::Anyone => !selected.contains(candidate.peer_onion),
    }
}

/// The candidates of a stage, in order.
pub open spec fn pool_of(
    candidates: Seq<PublicationCandidateView>,
    stage: PublicationPool,
    selected: Seq<Seq<char>>,
) -> Seq<PublicationCandidateView>
    decreases candidates.len(),
{
    if candidates.len() == 0 {
        Seq::<PublicationCandidateView>::empty()
    } else {
        let rest = pool_of(candidates.drop_last(), stage, selected);
        if belongs(candidates.last(), stage, selected) {
            rest.push(candidates.last())
        } else {
            rest
        }
    }
}

/// Whether `names` can be drawn from `pool`: at most `wanted` of them, each by
/// a draw below the bound of what is left, without replacement, until enough
/// are drawn or none is left.
pub open spec fn drawn_from(
    pool: Seq<PublicationCandidateView>,
    wanted: nat,
    now: int,
    names: Seq<Seq<char>>,
) -> bool
    decreases names.len(),
{
    if wanted == 0 || pool.len() == 0 {
        names.len() == 0
    } else {
        names.len() > 0 && exists|i: int, draw: u64|
            draw < draw_bound(pool, now) && #[trigger] lands_on(pool, now, draw as int, i) && names[0]
                == pool[i].peer_onion && drawn_from(
                pool.remove(i),
                (wanted - 1) as nat,
                now,
                names.drop_first(),
            )
    }
}

/// Whether `names` can be selected from `candidates`: first from reciprocal
/// peers, then from pinned ones, then from anyone.
pub open spec fn selected_from(
    candidates: Seq<PublicationCandidateView>,
    wanted: nat,
    now: int,
    names: Seq<Seq<char>>,
) -> bool {
    exists|a: int, b: int|
        0 <= a <= b <= names.len() && names.len() <= wanted && #[trigger] drawn_from(
            pool_of(candidates, PublicationPool::Reciprocal, Seq::<Seq<char>>::empty()),
            wanted,
            now,
            names.take(a),
        ) && #[trigger] drawn_from(
            pool_of(candidates, PublicationPool::Pinned, names.take(a)),
            (wanted - a) as nat,
            now,
            names.subrange(a, b),
        ) && drawn_from(
            pool_of(candidates, PublicationPool::Anyone, names.take(b)),
            (wanted - b) as nat,
            now,
            names.skip(b),
        )
}

/// Collect the candidates of a stage.
fn collect_pool(
    candidates: &[PublicationCandidate],
    stage: PublicationPool,
    selected: &Vec<String>,
) -> (pool: Vec<PublicationCandidate>)
    ensures
        pool_views(pool@) == pool_of(pool_views(candidates@), stage, texts(selected@)),
{
    let ghost views = pool_views(candidates@);
    let mut pool: Vec<PublicationCandidate> = Vec::new();
    let mut i: usize = 0;
    assert(pool_views(pool@) =~= pool_of(views.take(0), stage, texts(selected@)));
    while i < candidates.len()
        invariant
            i <= candidates.len(),
            views == pool_views(candidates@),
            pool_views(pool@) == pool_of(views.take(i as int), stage, texts(selected@)),
        decreases candidates.len() - i,
    {
        let candidate = &candidates[i];
        let ghost before = pool@;
        proof {
            assert(views[i as int] == candidate@);
            assert(views.take(i + 1).drop_last() =~= views.take(i as int));
        }
        let keep = match stage {
            PublicationPool::Reciprocal => candidate.stores_peer_data,
            PublicationPool::Pinned => (candidate.pinned_by_us || candidate.pins_us)
                && !contains_text(selected, candidate.peer_onion.as_str()),
            PublicationPool::Anyone => !contains_text(selected, candidate.peer_onion.as_str()),
        };
        if keep {
            pool.push(candidate.clone());
            assert(pool_views(pool@) =~= pool_views(before).push(candidate@));
        }
        i += 1;
    }
    assert(views.take(i as int) =~= views);
    pool
}

/// Draw up to `wanted` candidates from a pool without replacement.
fn draw_from_pool<R: Draws>(
    pool: &mut Vec<PublicationCandidate>,
    selected: &mut Vec<String>,
    wanted: usize,
    now_secs: i64,
    rng: &mut R,
) -> (left: usize)
    ensures
        texts(old(selected)@).is_prefix_of(texts(final(selected)@)),
        final(selected)@.len() - old(selected)@.len() == wanted - left,
        left <= wanted,
        drawn_from(
            pool_views(old(pool)@),
            wanted as nat,
            now_secs as int,
            texts(final(selected)@).skip(old(selected)@.len() as int),
        ),
        wanted == 0 || old(pool)@.len() == 0 ==> *final(rng) == *old(rng),
    decreases wanted,
{
    let ghost start = selected@;
    if wanted == 0 || pool.len() == 0 {
        assert(texts(selected@).skip(start.len() as int) =~= Seq::<Seq<char>>::empty());
        return wanted;
    }
    let ghost before = pool_views(pool@);
    match sample_weighted_publication_candidate(pool.as_slice(), now_secs, rng) {
        None => {
            assert(false);
            wanted
        },
        Some(index) => {
            let candidate = pool.remove(index);
            let ghost name = candidate.peer_onion@;
            selected.push(candidate.peer_onion);
            let ghost middle = selected@;
            proof {
                assert(pool_views(pool@) =~= before.remove(index as int));
                assert(texts(middle) =~= texts(start).push(name));
            }
            let left = draw_from_pool(pool, selected, wanted - 1, now_secs, rng);
            proof {
                let names = texts(selected@).skip(start.len() as int);
                let rest = texts(selected@).skip(middle.len() as int);
                assert(names.drop_first() =~= rest);
                assert(texts(selected@)[start.len() as int] == texts(middle)[start.len() as int]);
                assert(names[0] == name);
                assert(before[index as int].peer_onion == name);
                let draw = choose|draw: u64|
                    draw < draw_bound(before, now_secs as int) && #[trigger] lands_on(
                        before,
                        now_secs as int,
                        draw as int,
                        index as int,
                    );
                assert(lands_on(before, now_secs as int, draw as int, index as int));
                assert(drawn_from(before, wanted as nat, now_secs as int, names));
            }
            left
        },
    }
}

/// Select publication candidates without replacement under the weighting policy.
pub fn choose_publication_candidates<R: Draws>(
    candidates: &[PublicationCandidate],
    missing_replicas: usize,
    now_secs: i64,
    rng: &mut R,
) -> (selected: Vec<String>)
    ensures
        selected_from(
            pool_views(candidates@),
            missing_replicas as nat,
            now_secs as int,
            texts(selected@),
        ),
        missing_replicas == 0 || candidates@.len() == 0 ==> *final(rng) == *old(rng),
{
    let ghost views = pool_views(candidates@);
    let ghost wanted = missing_replicas as nat;
    let ghost now = now_secs as int;
    let mut selected: Vec<String> = Vec::new();
    assert(texts(selected@) =~= Seq::<Seq<char>>::empty());
    let mut reciprocal = collect_pool(candidates, PublicationPool::Reciprocal, &selected);
    let left = draw_from_pool(&mut reciprocal, &mut selected, missing_replicas, now_secs, rng);
    let ghost first = texts(selected@);
    assert(first.skip(0) =~= first);
    let mut pinned = collect_pool(candidates, PublicationPool::Pinned, &selected);
    let left = draw_from_pool(&mut pinned, &mut selected, left, now_secs, rng);
    let ghost second = texts(selected@);
    let mut others = collect_pool(candidates, PublicationPool::Anyone, &selected);
    let left = draw_from_pool(&mut others, &mut selected, left, now_secs, rng);
    proof {
        let names = texts(selected@);
        let a = first.len() as int;
        let b = second.len() as int;
        assert(names.take(a) =~= first);
        assert(names.take(b) =~= second);
        assert(names.subrange(a, b) =~= second.skip(a));
        assert(drawn_from(
            pool_of(views, PublicationPool::Reciprocal, Seq::<Seq<char>>::empty()),
            wanted,
            now,
            names.take(a),
        ));
        assert(drawn_from(
            pool_of(views, PublicationPool::Pinned, names.take(a)),
            (wanted - a) as nat,
            now,
            names.subrange(a, b),
        ));
        assert(drawn_from(
            pool_of(views, PublicationPool::Anyone, names.take(b)),
            (wanted - b) as nat,
            now,
            names.skip(b),
        ));
    }
    selected
}

/// What is drawn from a pool comes from it, and is as much as is wanted or as
/// there is.
proof fn lemma_drawn_from(
    pool: Seq<PublicationCandidateView>,
    wanted: nat,
    now: int,
    names: Seq<Seq<char>>,
)
    requires
        drawn_from(pool, wanted, now, names),
    ensures
        names.len() == min_int(wanted as int, pool.len() as int),
        forall|k: int|
            0 <= k < names.len() ==> exists|i: int|
                0 <= i < pool.len() && (#[trigger] pool[i]).peer_onion == #[trigger] names[k],
    decreases names.len(),
{
    if wanted > 0 && pool.len() > 0 {
        let (i, draw) = choose|i: int, draw: u64|
            draw < draw_bound(pool, now) && #[trigger] lands_on(pool, now, draw as int, i) && names[0]
                == pool[i].peer_onion && drawn_from(
                pool.remove(i),
                (wanted - 1) as nat,
                now,
                names.drop_first(),
            );
        let smaller = pool.remove(i);
        let rest = names.drop_first();
        lemma_drawn_from(smaller, (wanted - 1) as nat, now, rest);
        assert forall|k: int| 0 <= k < names.len() implies exists|j: int|
            0 <= j < pool.len() && (#[trigger] pool[j]).peer_onion == #[trigger] names[k] by {
            if k > 0 {
                assert(rest[k - 1] == names[k]);
                let j = choose|j: int|
                    0 <= j < smaller.len() && (#[trigger] smaller[j]).peer_onion == rest[k - 1];
                let original = if j < i { j } else { j + 1 };
                assert(pool[original] == smaller[j]);
            } else {
                assert(pool[i].peer_onion == names[0]);
            }
        }
    }
}

/// A stage holds only candidates that belong to it.
proof fn lemma_pool_members(
    candidates: Seq<PublicationCandidateView>,
    stage: PublicationPool,
    selected: Seq<Seq<char>>,
    i: int,
)
    requires
        0 <= i < pool_of(candidates, stage, selected).len(),
    ensures
        belongs(pool_of(candidates, stage, selected)[i], stage, selected),
        candidates.contains(pool_of(candidates, stage, selected)[i]),
    decreases candidates.len(),
{
    let rest = pool_of(candidates.drop_last(), stage, selected);
    if i < rest.len() {
        lemma_pool_members(candidates.drop_last(), stage, selected, i);
        let k = choose|k: int| 0 <= k < candidates.len() - 1 && candidates.drop_last()[k] == rest[i];
        assert(candidates[k] == rest[i]);
    } else {
        assert(candidates[candidates.len() - 1] == pool_of(candidates, stage, selected)[i]);
    }
}

/// Whether some candidate is named `name`.
pub open spec fn names_candidate(candidates: Seq<PublicationCandidateView>, name: Seq<char>) -> bool {
    exists|i: int| 0 <= i < candidates.len() && (#[trigger] candidates[i]).peer_onion == name
}

/// Whether some candidate whose bytes we cache is named `name`.
pub open spec fn names_reciprocal(candidates: Seq<PublicationCandidateView>, name: Seq<char>) -> bool {
    exists|i: int|
        0 <= i < candidates.len() && (#[trigger] candidates[i]).peer_onion == name
            && candidates[i].stores_peer_data
}

/// A selection names only candidates, no more than wanted, and peers whose
/// bytes we cache come first: as many of them as there are and are wanted.
pub proof fn law_selection_prefers_reciprocal_peers(
    candidates: Seq<PublicationCandidateView>,
    wanted: nat,
    now: int,
    names: Seq<Seq<char>>,
    k: int,
)
    requires
        selected_from(candidates, wanted, now, names),
        0 <= k < names.len(),
    ensures
        names.len() <= wanted,
        names_candidate(candidates, names[k]),
        k < pool_of(
            candidates,
            PublicationPool::Reciprocal,
            Seq::<Seq<char>>::empty(),
        ).len() ==> names_reciprocal(candidates, names[k]),
{
    let none = Seq::<Seq<char>>::empty();
    let (a, b) = choose|a: int, b: int|
        0 <= a <= b <= names.len() && names.len() <= wanted && #[trigger] drawn_from(
            pool_of(candidates, PublicationPool::Reciprocal, none),
            wanted,
            now,
            names.take(a),
        ) && #[trigger] drawn_from(
            pool_of(candidates, PublicationPool::Pinned, names.take(a)),
            (wanted - a) as nat,
            now,
            names.subrange(a, b),
        ) && drawn_from(
            pool_of(candidates, PublicationPool::Anyone, names.take(b)),
            (wanted - b) as nat,
            now,
            names.skip(b),
        );
    let p1 = pool_of(candidates, PublicationPool::Reciprocal, none);
    let p2 = pool_of(candidates, PublicationPool::Pinned, names.take(a));
    let p3 = pool_of(candidates, PublicationPool::Anyone, names.take(b));
    lemma_drawn_from(p1, wanted, now, names.take(a));
    lemma_drawn_from(p2, (wanted - a) as nat, now, names.subrange(a, b));
    lemma_drawn_from(p3, (wanted - b) as nat, now, names.skip(b));
    if k < a {
        assert(names.take(a)[k] == names[k]);
        let i = choose|i: int| 0 <= i < p1.len() && (#[trigger] p1[i]).peer_onion == names.take(a)[k];
        lemma_pool_members(candidates, PublicationPool::Reciprocal, none, i);
        let j = choose|j: int| 0 <= j < candidates.len() && candidates[j] == p1[i];
        assert(candidates[j].peer_onion == names[k]);
    } else if k < b {
        assert(names.subrange(a, b)[k - a] == names[k]);
        let i = choose|i: int|
            0 <= i < p2.len() && (#[trigger] p2[i]).peer_onion == names.subrange(a, b)[k - a];
        lemma_pool_members(candidates, PublicationPool::Pinned, names.take(a), i);
        let j = choose|j: int| 0 <= j < candidates.len() && candidates[j] == p2[i];
        assert(candidates[j].peer_onion == names[k]);
    } else {
        assert(names.skip(b)[k - b] == names[k]);
        let i = choose|i: int|
            0 <= i < p3.len() && (#[trigger] p3[i]).peer_onion == names.skip(b)[k - b];
        lemma_pool_members(candidates, PublicationPool::Anyone, names.take(b), i);
        let j = choose|j: int| 0 <= j < candidates.len() && candidates[j] == p3[i];
        assert(candidates[j].peer_onion == names[k]);
    }
}

/// The hostnames of a pool, in order.
pub open spec fn pool_names(pool: Seq<PublicationCandidateView>) -> Seq<Seq<char>> {
    pool.map_values(|candidate: PublicationCandidateView| candidate.peer_onion)
}

/// Drawing from a pool without equal hostnames gives no hostname twice.
proof fn lemma_drawn_without_replacement(
    pool: Seq<PublicationCandidateView>,
    wanted: nat,
    now: int,
    names: Seq<Seq<char>>,
)
    requires
        pool_names(pool).no_duplicates(),
        drawn_from(pool, wanted, now, names),
    ensures
        names.no_duplicates(),
    decreases names.len(),
{
    if wanted > 0 && pool.len() > 0 {
        let (i, draw) = choose|i: int, draw: u64|
            draw < draw_bound(pool, now) && #[trigger] lands_on(pool, now, draw as int, i) && names[0]
                == pool[i].peer_onion && drawn_from(
                pool.remove(i),
                (wanted - 1) as nat,
                now,
                names.drop_first(),
            );
        let smaller = pool.remove(i);
        let rest = names.drop_first();
        let all = pool_names(pool);
        let fewer = pool_names(smaller);
        assert(fewer =~= all.remove(i));
        lemma_drawn_without_replacement(smaller, (wanted - 1) as nat, now, rest);
        lemma_drawn_from(smaller, (wanted - 1) as nat, now, rest);
        assert forall|k: int| 0 <= k < rest.len() implies #[trigger] rest[k] != names[0] by {
            let j = choose|j: int|
                0 <= j < smaller.len() && (#[trigger] smaller[j]).peer_onion == rest[k];
            let before = if j < i { j } else { j + 1 };
            assert(pool[before] == smaller[j]);
            assert(all[before] != all[i]);
        }
        assert forall|x: int, y: int|
            0 <= x < names.len() && 0 <= y < names.len() && x != y implies names[x] != names[y] by {
            if x > 0 {
                assert(rest[x - 1] == names[x]);
            }
            if y > 0 {
                assert(rest[y - 1] == names[y]);
            }
        }
    }
}

/// A stage holds every candidate that belongs to it.
proof fn lemma_pool_complete(
    candidates: Seq<PublicationCandidateView>,
    stage: PublicationPool,
    selected: Seq<Seq<char>>,
    k: int,
)
    requires
        0 <= k < candidates.len(),
        belongs(candidates[k], stage, selected),
    ensures
        pool_of(candidates, stage, selected).contains(candidates[k]),
    decreases candidates.len(),
{
    let rest = pool_of(candidates.drop_last(), stage, selected);
    let pool = pool_of(candidates, stage, selected);
    if k < candidates.len() - 1 {
        lemma_pool_complete(candidates.drop_last(), stage, selected, k);
        let i = choose|i: int| 0 <= i < rest.len() && rest[i] == candidates[k];
        assert(pool[i] == candidates[k]);
    } else {
        assert(pool[rest.len() as int] == candidates[k]);
    }
}

/// A stage of candidates without equal hostnames has no equal hostnames.
proof fn lemma_pool_distinct(
    candidates: Seq<PublicationCandidateView>,
    stage: PublicationPool,
    selected: Seq<Seq<char>>,
)
    requires
        pool_names(candidates).no_duplicates(),
    ensures
        pool_names(pool_of(candidates, stage, selected)).no_duplicates(),
    decreases candidates.len(),
{
    if candidates.len() > 0 {
        let fewer = candidates.drop_last();
        let names = pool_names(candidates);
        assert(pool_names(fewer) =~= names.drop_last());
        lemma_pool_distinct(fewer, stage, selected);
        let rest = pool_of(fewer, stage, selected);
        let pool = pool_of(candidates, stage, selected);
        let listed = pool_names(pool);
        assert forall|x: int, y: int|
            0 <= x < listed.len() && 0 <= y < listed.len() && x < y implies listed[x] != listed[y] by {
            assert(pool_names(rest)[x] == listed[x]);
            if y < rest.len() {
                assert(pool_names(rest)[y] == listed[y]);
            } else {
                lemma_pool_members(fewer, stage, selected, x);
                let k = choose|k: int| 0 <= k < fewer.len() && fewer[k] == rest[x];
                assert(names[k] != names[candidates.len() - 1]);
            }
        }
    }
}

/// After distinct candidates were selected, all others are left for the last stage.
proof fn lemma_left_for_anyone(candidates: Seq<PublicationCandidateView>, selected: Seq<Seq<char>>)
    requires
        pool_names(candidates).no_duplicates(),
        selected.no_duplicates(),
        forall|k: int|
            0 <= k < selected.len() ==> names_candidate(candidates, #[trigger] selected[k]),
    ensures
        pool_of(candidates, PublicationPool::Anyone, selected).len() == candidates.len()
            - selected.len(),
{
    let pool = pool_of(candidates, PublicationPool::Anyone, selected);
    let left = pool_names(pool).to_set();
    let taken = selected.to_set();
    let all = pool_names(candidates).to_set();
    lemma_pool_distinct(candidates, PublicationPool::Anyone, selected);
    pool_names(pool).unique_seq_to_set();
    selected.unique_seq_to_set();
    pool_names(candidates).unique_seq_to_set();
    vstd::seq_lib::seq_to_set_is_finite(pool_names(pool));
    vstd::seq_lib::seq_to_set_is_finite(selected);
    assert forall|name: Seq<char>| left.union(taken).contains(name) <==> all.contains(name) by {
        if left.contains(name) {
            let i = choose|i: int| 0 <= i < pool.len() && pool_names(pool)[i] == name;
            lemma_pool_members(candidates, PublicationPool::Anyone, selected, i);
            let k = choose|k: int| 0 <= k < candidates.len() && candidates[k] == pool[i];
            assert(pool_names(candidates)[k] == name);
        }
        if taken.contains(name) {
            let k = choose|k: int| 0 <= k < selected.len() && selected[k] == name;
            assert(names_candidate(candidates, selected[k]));
            let i = choose|i: int|
                0 <= i < candidates.len() && (#[trigger] candidates[i]).peer_onion == name;
            assert(pool_names(candidates)[i] == name);
        }
        if all.contains(name) && !taken.contains(name) {
            let k = choose|k: int| 0 <= k < candidates.len() && pool_names(candidates)[k] == name;
            lemma_pool_complete(candidates, PublicationPool::Anyone, selected, k);
            let i = choose|i: int| 0 <= i < pool.len() && pool[i] == candidates[k];
            assert(pool_names(pool)[i] == name);
        }
    }
    assert(left.union(taken) =~= all);
    assert forall|name: Seq<char>| left.contains(name) implies !taken.contains(name) by {
        let i = choose|i: int| 0 <= i < pool.len() && pool_names(pool)[i] == name;
        lemma_pool_members(candidates, PublicationPool::Anyone, selected, i);
    }
    vstd::set_lib::lemma_set_disjoint_lens(left, taken);
}

/// A selection among candidates without equal hostnames names no candidate
/// twice, and names as many as are wanted or as there are.
pub proof fn law_selection_without_replacement(
    candidates: Seq<PublicationCandidateView>,
    wanted: nat,
    now: int,
    names: Seq<Seq<char>>,
)
    requires
        pool_names(candidates).no_duplicates(),
        selected_from(candidates, wanted, now, names),
    ensures
        names.no_duplicates(),
        names.len() == min_int(wanted as int, candidates.len() as int),
        forall|k: int| 0 <= k < names.len() ==> names_candidate(candidates, #[trigger] names[k]),
{
    let none = Seq::<Seq<char>>::empty();
    let (a, b) = choose|a: int, b: int|
        0 <= a <= b <= names.len() && names.len() <= wanted && #[trigger] drawn_from(
            pool_of(candidates, PublicationPool::Reciprocal, none),
            wanted,
            now,
            names.take(a),
        ) && #[trigger] drawn_from(
            pool_of(candidates, PublicationPool::Pinned, names.take(a)),
            (wanted - a) as nat,
            now,
            names.subrange(a, b),
        ) && drawn_from(
            pool_of(candidates, PublicationPool::Anyone, names.take(b)),
            (wanted - b) as nat,
            now,
            names.skip(b),
        );
    let p1 = pool_of(candidates, PublicationPool::Reciprocal, none);
    let p2 = pool_of(candidates, PublicationPool::Pinned, names.take(a));
    let p3 = pool_of(candidates, PublicationPool::Anyone, names.take(b));
    lemma_pool_distinct(candidates, PublicationPool::Reciprocal, none);
    lemma_pool_distinct(candidates, PublicationPool::Pinned, names.take(a));
    lemma_pool_distinct(candidates, PublicationPool::Anyone, names.take(b));
    lemma_drawn_without_replacement(p1, wanted, now, names.take(a));
    lemma_drawn_without_replacement(p2, (wanted - a) as nat, now, names.subrange(a, b));
    lemma_drawn_without_replacement(p3, (wanted - b) as nat, now, names.skip(b));
    lemma_drawn_from(p2, (wanted - a) as nat, now, names.subrange(a, b));
    lemma_drawn_from(p3, (wanted - b) as nat, now, names.skip(b));
    assert forall|k: int| 0 <= k < names.len() implies names_candidate(
        candidates,
        #[trigger] names[k],
    ) by {
        law_selection_prefers_reciprocal_peers(candidates, wanted, now, names, k);
    }
    assert forall|x: int, y: int| 0 <= x < y < names.len() implies names[x] != names[y] by {
        if y < a {
            assert(names.take(a)[x] != names.take(a)[y]);
        } else if y < b {
            let stage = names.subrange(a, b);
            assert(stage[y - a] == names[y]);
            if x < a {
                let i = choose|i: int|
                    0 <= i < p2.len() && (#[trigger] p2[i]).peer_onion == stage[y - a];
                lemma_pool_members(candidates, PublicationPool::Pinned, names.take(a), i);
                assert(names.take(a)[x] == names[x]);
            } else {
                assert(stage[x - a] == names[x]);
            }
        } else {
            let stage = names.skip(b);
            assert(stage[y - b] == names[y]);
            if x < b {
                let i = choose|i: int|
                    0 <= i < p3.len() && (#[trigger] p3[i]).peer_onion == stage[y - b];
                lemma_pool_members(candidates, PublicationPool::Anyone, names.take(b), i);
                assert(names.take(b)[x] == names[x]);
            } else {
                assert(stage[x - b] == names[x]);
            }
        }
    }
    assert forall|k: int| 0 <= k < names.take(b).len() implies names_candidate(
        candidates,
        #[trigger] names.take(b)[k],
    ) by {
        assert(names.take(b)[k] == names[k]);
        assert(names_candidate(candidates, names[k]));
    }
    assert(names.take(b).no_duplicates());
    lemma_left_for_anyone(candidates, names.take(b));
}

/// Whether two candidates have been called with the same success.
pub open spec fn same_calls(a: PublicationCandidate, b: PublicationCandidate) -> bool {
    a.successful_calls == b.successful_calls && a.failed_calls == b.failed_calls
}

/// A pin by us is worth the same to every candidate, and so is a pin by the
/// peer, and either is worth more than any age.
pub proof fn law_pins_add_a_fixed_weight(
    a: &PublicationCandidate,
    b: &PublicationCandidate,
    now: i64,
    weight_a: u64,
    weight_b: u64,
)
    requires
        call_ensures(publication_candidate_weight, (a, now), weight_a),
        call_ensures(publication_candidate_weight, (b, now), weight_b),
        same_calls(*a, *b),
        a.first_seen_at.0 == b.first_seen_at.0,
    ensures
        a.pinned_by_us && !b.pinned_by_us && a.pins_us == b.pins_us ==> weight_a == weight_b + 48,
        a.pins_us && !b.pins_us && a.pinned_by_us == b.pinned_by_us ==> weight_a == weight_b + 32,
        a.pinned_by_us == b.pinned_by_us && a.pins_us == b.pins_us ==> weight_a == weight_b,
{
}

/// Each whole day that a candidate has been known for longer adds one to its
/// weight, up to thirty days; less than a day, or a day to come, adds nothing.
pub proof fn law_each_day_adds_one(
    older: &PublicationCandidate,
    newer: &PublicationCandidate,
    now: i64,
    weight_older: u64,
    weight_newer: u64,
    days: int,
)
    requires
        call_ensures(publication_candidate_weight, (older, now), weight_older),
        call_ensures(publication_candidate_weight, (newer, now), weight_newer),
        same_calls(*older, *newer),
        older.pinned_by_us == newer.pinned_by_us,
        older.pins_us == newer.pins_us,
        now - newer.first_seen_at.0 < 86_400,
        0 <= days,
        days * 86_400 <= now - older.first_seen_at.0 < (days + 1) * 86_400,
        now - older.first_seen_at.0 <= i64::MAX,
    ensures
        days <= 30 ==> weight_older == weight_newer + days,
        days >= 30 ==> weight_older == weight_newer + 30,
{
    let age = now - older.first_seen_at.0;
    assert(age / 86_400 == days);
    assert(at_least_zero(clamp_i64(now - newer.first_seen_at.0)) / 86_400 == 0);
}

/// Without pins and age a candidate weighs one and its share of successful
/// calls out of forty, where one success and one failure count as known from
/// the start and parts are cut off.
pub proof fn law_success_earns_a_share_of_forty(
    candidate: &PublicationCandidate,
    now: i64,
    weight: u64,
)
    requires
        call_ensures(publication_candidate_weight, (candidate, now), weight),
        !candidate.pinned_by_us,
        !candidate.pins_us,
        now - candidate.first_seen_at.0 < 86_400,
        0 <= candidate.successful_calls < 400_000_000_000_000_000,
        0 <= candidate.failed_calls,
    ensures
        (weight - 1) * (candidate.successful_calls + candidate.failed_calls + 2) <= 40 * (
        candidate.successful_calls + 1),
        40 * (candidate.successful_calls + 1) < weight * (candidate.successful_calls
            + candidate.failed_calls + 2),
{
    let s = candidate.successful_calls as int;
    let f = candidate.failed_calls as int;
    assert(at_least_zero(clamp_i64(now - candidate.first_seen_at.0)) / 86_400 == 0);
    let share = (s + 1) * 40 / (s + f + 2);
    assert(weight == 1 + share);
    assert(share * (s + f + 2) <= (s + 1) * 40 < (share + 1) * (s + f + 2)) by (nonlinear_arith)
        requires
            share == (s + 1) * 40 / (s + f + 2),
            s + f + 2 > 0,
    ;
}

/// More failures never make a candidate heavier, and more successes never make
/// it lighter; counts below zero count as none.
pub proof fn law_success_makes_no_candidate_lighter(
    better: &PublicationCandidate,
    worse: &PublicationCandidate,
    now: i64,
    weight_better: u64,
    weight_worse: u64,
)
    requires
        call_ensures(publication_candidate_weight, (better, now), weight_better),
        call_ensures(publication_candidate_weight, (worse, now), weight_worse),
        better.pinned_by_us == worse.pinned_by_us,
        better.pins_us == worse.pins_us,
        better.first_seen_at.0 == worse.first_seen_at.0,
        better.successful_calls >= worse.successful_calls,
        better.failed_calls <= worse.failed_calls,
        better.successful_calls < 400_000_000_000_000_000,
    ensures
        weight_better >= weight_worse,
        better.successful_calls <= 0 && better.failed_calls <= 0 && worse.failed_calls <= 0
            ==> weight_better == weight_worse,
{
    let s = at_least_zero(better.successful_calls as int);
    let f = at_least_zero(better.failed_calls as int);
    let t = at_least_zero(worse.successful_calls as int);
    let g = at_least_zero(worse.failed_calls as int);
    assert((s + 1) * 40 / (s + f + 2) >= (t + 1) * 40 / (t + g + 2)) by (nonlinear_arith)
        requires
            s >= t >= 0,
            0 <= f <= g,
    {
        let x = (t + 1) * 40 / (t + g + 2);
        assert(x * (t + g + 2) <= (t + 1) * 40);
        assert(x <= 40);
        assert(x * (s + f + 2) <= x * (t + g + 2) + x * (s - t));
        assert(x * (s - t) <= 40 * (s - t));
        assert(x * (s + f + 2) <= (s + 1) * 40);
        vstd::arithmetic::div_mod::lemma_div_is_ordered(
            x * (s + f + 2),
            (s + 1) * 40,
            s + f + 2,
        );
        vstd::arithmetic::div_mod::lemma_div_by_multiple(x, s + f + 2);
    }
}

/// A draw below the first weight lands on the first candidate, and any other
/// draw lands where what is left of it lands among the others. A draw beyond
/// everything lands on the last candidate.
pub proof fn law_draw_moves_along_the_weights(
    candidates: &[PublicationCandidate],
    now: i64,
    draw: u64,
    index: Option<usize>,
    first: u64,
    others: &[PublicationCandidate],
    rest: Option<usize>,
)
    requires
        candidates@.len() > 0,
        others@ == candidates@.drop_first(),
        call_ensures(candidate_at_draw, (candidates, now, draw), index),
        call_ensures(publication_candidate_weight, (&candidates@[0], now), first),
        draw >= first ==> call_ensures(
            candidate_at_draw,
            (others, now, (draw - first) as u64),
            rest,
        ),
    ensures
        index is Some,
        draw < first || candidates@.len() == 1 ==> index == Some(0usize),
        draw >= first && candidates@.len() > 1 ==> index is Some && rest is Some && index->0
            == rest->0 + 1,
{
    let pool = pool_views(candidates@);
    let fewer = pool_views(others@);
    let i = index->0 as int;
    assert(pool[0] == candidates@[0]@);
    assert(fewer =~= pool.drop_first());
    lemma_first_weight(pool, now as int, 0);
    if draw < first || candidates@.len() == 1 {
        if i > 0 {
            lemma_weights_grow(pool, now as int, 1, i);
            lemma_take_one(pool, now as int);
        }
    } else {
        let j = rest->0 as int;
        assert(lands_on(fewer, now as int, draw - first, j));
        lemma_first_weight(pool, now as int, j);
        lemma_first_weight(pool, now as int, j + 1);
        assert(lands_on(pool, now as int, draw as int, j + 1));
        lemma_lands_once(pool, now as int, draw as int, i, j + 1);
    }
}

/// Taking one candidate weighs its weight.
proof fn lemma_take_one(pool: Seq<PublicationCandidateView>, now: int)
    requires
        pool.len() > 0,
    ensures
        total_weight(pool.take(1), now) == weight_of(pool[0], now),
{
    assert(pool.take(1).drop_last() =~= Seq::<PublicationCandidateView>::empty());
    assert(total_weight(pool.take(1).drop_last(), now) == 0);
    assert(pool.take(1).last() == pool[0]);
}

/// The first weight can be taken off the sum of the first candidates.
proof fn lemma_first_weight(pool: Seq<PublicationCandidateView>, now: int, n: int)
    requires
        pool.len() > 0,
        0 <= n < pool.len(),
    ensures
        total_weight(pool.take(n + 1), now) == weight_of(pool[0], now) + total_weight(
            pool.drop_first().take(n),
            now,
        ),
    decreases n,
{
    if n == 0 {
        lemma_take_one(pool, now);
        assert(pool.drop_first().take(0) =~= Seq::<PublicationCandidateView>::empty());
    } else {
        lemma_first_weight(pool, now, n - 1);
        assert(pool.take(n + 1).drop_last() =~= pool.take(n));
        assert(pool.take(n + 1).last() == pool[n]);
        assert(pool.drop_first().take(n).drop_last() =~= pool.drop_first().take(n - 1));
        assert(pool.drop_first().take(n).last() == pool[n]);
    }
}

/// More candidates weigh more.
proof fn lemma_weights_grow(pool: Seq<PublicationCandidateView>, now: int, m: int, n: int)
    requires
        0 <= m <= n <= pool.len(),
    ensures
        total_weight(pool.take(m), now) + (n - m) <= total_weight(pool.take(n), now),
    decreases n - m,
{
    if m < n {
        lemma_weights_grow(pool, now, m, n - 1);
        assert(pool.take(n).drop_last() =~= pool.take(n - 1));
        law_weight_bounds(pool[n - 1], now);
        assert(pool.take(n).last() == pool[n - 1]);
    }
}

/// A draw lands on one candidate only.
proof fn lemma_lands_once(pool: Seq<PublicationCandidateView>, now: int, draw: int, i: int, j: int)
    requires
        lands_on(pool, now, draw, i),
        lands_on(pool, now, draw, j),
    ensures
        i == j,
{
    if i < j {
        lemma_weights_grow(pool, now, i + 1, j);
    } else if j < i {
        lemma_weights_grow(pool, now, j + 1, i);
    }
}

/// Where a pool is not too heavy every candidate of it can be drawn, and by
/// exactly as many of the draws below the bound as it weighs: those from where
/// the ones before it end. A draw lands on one candidate only.
pub proof fn law_chance_is_the_weight(
    candidates: Seq<PublicationCandidate>,
    now: i64,
    i: int,
    weight: u64,
    draw: int,
    other: int,
)
    requires
        0 <= i < candidates.len(),
        candidates.len() < 1_000_000_000,
        call_ensures(publication_candidate_weight, (&candidates[i], now), weight),
        0 <= draw < draw_bound(pool_views(candidates), now as int),
    ensures
        ({
            let pool = pool_views(candidates);
            let start = total_weight(pool.take(i), now as int);
            &&& 0 <= start
            &&& start + weight <= draw_bound(pool, now as int)
            &&& lands_on(pool, now as int, draw, i) <==> start <= draw < start + weight
            &&& lands_on(pool, now as int, draw, i) && lands_on(pool, now as int, draw, other) ==> i
                == other
        }),
{
    let pool = pool_views(candidates);
    assert(pool[i] == candidates[i]@);
    assert(pool.take(i + 1).drop_last() =~= pool.take(i));
    assert(pool.take(i + 1).last() == pool[i]);
    assert(pool.take(pool.len() as int) =~= pool);
    lemma_weights_grow(pool, now as int, i + 1, pool.len() as int);
    lemma_weights_grow(pool, now as int, 0, i);
    assert(total_weight(pool.take(0), now as int) == 0);
    lemma_heavy(pool, now as int);
    if lands_on(pool, now as int, draw, i) && lands_on(pool, now as int, draw, other) {
        lemma_lands_once(pool, now as int, draw, i, other);
    }
}

/// A pool weighs no more than so many of the heaviest candidates.
proof fn lemma_heavy(pool: Seq<PublicationCandidateView>, now: int)
    ensures
        total_weight(pool, now) <= 151 * pool.len(),
    decreases pool.len(),
{
    if pool.len() > 0 {
        lemma_heavy(pool.drop_last(), now);
        law_weight_bounds(pool.last(), now);
    }
}

/// Whether `name` stands among the first `k` of `names`.
pub open spec fn named_before(names: Seq<Seq<char>>, k: int, name: Seq<char>) -> bool {
    exists|j: int| 0 <= j < k && #[trigger] names[j] == name
}

/// Nobody is selected whose bytes we do not cache before everybody whose bytes
/// we cache, and nobody without a pin on either side before everybody with one.
pub proof fn law_selection_goes_by_stages(
    candidates: Seq<PublicationCandidate>,
    wanted: nat,
    now: int,
    names: Seq<Seq<char>>,
    k: int,
    c: int,
    d: int,
)
    requires
        selected_from(pool_views(candidates), wanted, now, names),
        forall|i: int, j: int|
            0 <= i < j < candidates.len() ==> (#[trigger] candidates[i]).peer_onion@ != (
            #[trigger] candidates[j]).peer_onion@,
        0 <= k < names.len(),
        0 <= c < candidates.len(),
        0 <= d < candidates.len(),
        candidates[c].peer_onion@ == names[k],
    ensures
        !candidates[c].stores_peer_data && candidates[d].stores_peer_data ==> named_before(
            names,
            k,
            candidates[d].peer_onion@,
        ),
        !candidates[c].stores_peer_data && !candidates[c].pinned_by_us && !candidates[c].pins_us && (
        candidates[d].pinned_by_us || candidates[d].pins_us) ==> named_before(
            names,
            k,
            candidates[d].peer_onion@,
        ),
{
    let views = pool_views(candidates);
    let listed = pool_names(views);
    assert forall|i: int, j: int|
        0 <= i < listed.len() && 0 <= j < listed.len() && i != j implies listed[i] != listed[j] by {
        if i < j {
            assert(candidates[i].peer_onion@ != candidates[j].peer_onion@);
        } else {
            assert(candidates[j].peer_onion@ != candidates[i].peer_onion@);
        }
    }
    assert(views[c] == candidates[c]@ && views[d] == candidates[d]@);
    lemma_selection_stages(views, wanted, now, names, k, c, d);
}

/// Selections go by stages.
pub proof fn lemma_selection_stages(
    views: Seq<PublicationCandidateView>,
    wanted: nat,
    now: int,
    names: Seq<Seq<char>>,
    k: int,
    c: int,
    d: int,
)
    requires
        selected_from(views, wanted, now, names),
        pool_names(views).no_duplicates(),
        0 <= k < names.len(),
        0 <= c < views.len(),
        0 <= d < views.len(),
        views[c].peer_onion == names[k],
    ensures
        !views[c].stores_peer_data && views[d].stores_peer_data ==> named_before(
            names,
            k,
            views[d].peer_onion,
        ),
        !views[c].stores_peer_data && !views[c].pinned_by_us && !views[c].pins_us && (
        views[d].pinned_by_us || views[d].pins_us) ==> named_before(
            names,
            k,
            views[d].peer_onion,
        ),
{
    let none = Seq::<Seq<char>>::empty();
    let (a, b) = choose|a: int, b: int|
        0 <= a <= b <= names.len() && names.len() <= wanted && #[trigger] drawn_from(
            pool_of(views, PublicationPool::Reciprocal, none),
            wanted,
            now,
            names.take(a),
        ) && #[trigger] drawn_from(
            pool_of(views, PublicationPool::Pinned, names.take(a)),
            (wanted - a) as nat,
            now,
            names.subrange(a, b),
        ) && drawn_from(
            pool_of(views, PublicationPool::Anyone, names.take(b)),
            (wanted - b) as nat,
            now,
            names.skip(b),
        );
    let p1 = pool_of(views, PublicationPool::Reciprocal, none);
    let p2 = pool_of(views, PublicationPool::Pinned, names.take(a));
    let listed = pool_names(views);
    lemma_drawn_from(p1, wanted, now, names.take(a));
    lemma_drawn_from(p2, (wanted - a) as nat, now, names.subrange(a, b));
    if !views[c].stores_peer_data {
        assert(k >= a) by {
            if k < a {
                assert(names.take(a)[k] == names[k]);
                let i = choose|i: int|
                    0 <= i < p1.len() && (#[trigger] p1[i]).peer_onion == names.take(a)[k];
                lemma_pool_members(views, PublicationPool::Reciprocal, none, i);
                let j = choose|j: int| 0 <= j < views.len() && views[j] == p1[i];
                assert(listed[j] == listed[c]);
            }
        }
        assert(a < wanted);
        if views[d].stores_peer_data {
            lemma_pool_complete(views, PublicationPool::Reciprocal, none, d);
            lemma_pool_distinct(views, PublicationPool::Reciprocal, none);
            let i = choose|i: int| 0 <= i < p1.len() && p1[i] == views[d];
            lemma_all_drawn(p1, wanted, now, names.take(a), i);
            let j = choose|j: int|
                0 <= j < names.take(a).len() && #[trigger] names.take(a)[j] == p1[i].peer_onion;
            assert(names[j] == views[d].peer_onion);
        }
        if !views[c].pinned_by_us && !views[c].pins_us && (views[d].pinned_by_us
            || views[d].pins_us) {
            assert(k >= b) by {
                if k < b {
                    let stage = names.subrange(a, b);
                    assert(stage[k - a] == names[k]);
                    let i = choose|i: int|
                        0 <= i < p2.len() && (#[trigger] p2[i]).peer_onion == stage[k - a];
                    lemma_pool_members(views, PublicationPool::Pinned, names.take(a), i);
                    let j = choose|j: int| 0 <= j < views.len() && views[j] == p2[i];
                    assert(listed[j] == listed[c]);
                }
            }
            if names.take(a).contains(views[d].peer_onion) {
                let j = choose|j: int|
                    0 <= j < names.take(a).len() && names.take(a)[j] == views[d].peer_onion;
                assert(names[j] == views[d].peer_onion);
            } else {
                lemma_pool_complete(views, PublicationPool::Pinned, names.take(a), d);
                let i = choose|i: int| 0 <= i < p2.len() && p2[i] == views[d];
                let stage = names.subrange(a, b);
                lemma_all_drawn(p2, (wanted - a) as nat, now, stage, i);
                let j = choose|j: int| 0 <= j < stage.len() && #[trigger] stage[j] == p2[i].peer_onion;
                assert(names[a + j] == views[d].peer_onion);
            }
        }
    }
}

/// Where more is wanted than was drawn, everybody of the pool was drawn.
proof fn lemma_all_drawn(
    pool: Seq<PublicationCandidateView>,
    wanted: nat,
    now: int,
    names: Seq<Seq<char>>,
    i: int,
)
    requires
        drawn_from(pool, wanted, now, names),
        names.len() < wanted,
        0 <= i < pool.len(),
    ensures
        exists|j: int| 0 <= j < names.len() && #[trigger] names[j] == pool[i].peer_onion,
    decreases names.len(),
{
    let (at, draw) = choose|at: int, draw: u64|
        draw < draw_bound(pool, now) && #[trigger] lands_on(pool, now, draw as int, at) && names[0]
            == pool[at].peer_onion && drawn_from(
            pool.remove(at),
            (wanted - 1) as nat,
            now,
            names.drop_first(),
        );
    if at == i {
        assert(names[0] == pool[i].peer_onion);
    } else {
        let smaller = pool.remove(at);
        let moved = if i < at { i } else { i - 1 };
        assert(smaller[moved] == pool[i]);
        lemma_all_drawn(smaller, (wanted - 1) as nat, now, names.drop_first(), moved);
        let rest = names.drop_first();
        let j = choose|j: int| 0 <= j < rest.len() && #[trigger] rest[j] == smaller[moved].peer_onion;
        assert(names[j + 1] == pool[i].peer_onion);
    }
}

} // verus!

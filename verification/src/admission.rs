//! Which peers are tracked when there is room for only so many.

use crate::model::{peer_views, FirstContactDirection, Peer, PeerOrigin, PeerView};
use crate::order::{precedes, sort_positions, stable_order, strict_weak_order};
use crate::outside::{is_public_key, public_key_is_valid};
use crate::status::{invalid_argument, Status, StatusView};
use crate::text::{
    bytes_before, bytes_copy, bytes_eq, bytes_less, join_text, lemma_bytes_before_asymmetric,
    lemma_bytes_before_irreflexive, lemma_bytes_before_total, lemma_bytes_before_transitive,
};
use vstd::prelude::*;

verus! {

/// MAX_TRACKED_PEERS is the maximum number of peers kept in metadata.
pub const MAX_TRACKED_PEERS: usize = 1024;

/// The effective priority of a peer: pinned peers first, then manual peers,
/// peers with a positive score, built-in peers, peers we contacted, peers that
/// contacted us, and all others.
pub open spec fn priority(
    pinned_by_us: bool,
    origin: PeerOrigin,
    score_seconds: int,
    first_contact_direction: FirstContactDirection,
) -> u8 {
    if pinned_by_us {
        6
    } else if origin == PeerOrigin::Manual {
        5
    } else if score_seconds > 0 {
        4
    } else if origin == PeerOrigin::BuiltIn {
        3
    } else if first_contact_direction == FirstContactDirection::Outbound {
        2
    } else if first_contact_direction == FirstContactDirection::Inbound {
        1
    } else {
        0
    }
}

/// The effective priority of a peer on record.
pub open spec fn priority_of(peer: PeerView) -> u8 {
    priority(
        peer.pinned_by_us,
        peer.origin,
        peer.score_seconds as int,
        peer.first_contact_direction,
    )
}

/// Return the effective peer priority from persisted origin, score, and direction.
pub fn peer_priority(
    pinned_by_us: bool,
    origin: PeerOrigin,
    score_seconds: i64,
    first_contact_direction: FirstContactDirection,
) -> (level: u8)
    ensures
        level == priority(pinned_by_us, origin, score_seconds as int, first_contact_direction),
{
    if pinned_by_us {
        6
    } else if origin == PeerOrigin::Manual {
        5
    } else if score_seconds > 0 {
        4
    } else if origin == PeerOrigin::BuiltIn {
        3
    } else if first_contact_direction == FirstContactDirection::Outbound {
        2
    } else if first_contact_direction == FirstContactDirection::Inbound {
        1
    } else {
        0
    }
}

/// Whether peer `a` is evicted before peer `b`: by priority, then by score,
/// then by when the score was measured, then by public key.
pub open spec fn evicted_before(a: PeerView, b: PeerView) -> bool {
    if priority_of(a) != priority_of(b) {
        priority_of(a) < priority_of(b)
    } else if a.score_seconds != b.score_seconds {
        a.score_seconds < b.score_seconds
    } else if a.score_measured_at != b.score_measured_at {
        a.score_measured_at < b.score_measured_at
    } else {
        bytes_before(a.onion_pubkey, b.onion_pubkey)
    }
}

/// Report whether peer `a` is evicted before peer `b`.
pub fn peer_evicted_before(a: &Peer, b: &Peer) -> (first: bool)
    ensures
        first == evicted_before(a@, b@),
{
    let pa = peer_priority(a.pinned_by_us, a.origin, a.score_seconds, a.first_contact_direction);
    let pb = peer_priority(b.pinned_by_us, b.origin, b.score_seconds, b.first_contact_direction);
    if pa != pb {
        pa < pb
    } else if a.score_seconds != b.score_seconds {
        a.score_seconds < b.score_seconds
    } else if a.score_measured_at != b.score_measured_at {
        a.score_measured_at < b.score_measured_at
    } else {
        bytes_less(a.onion_pubkey.as_slice(), b.onion_pubkey.as_slice())
    }
}

/// The eviction order is a strict order, total on peers with different keys.
pub proof fn lemma_eviction_order(a: PeerView, b: PeerView, c: PeerView)
    ensures
        !evicted_before(a, a),
        evicted_before(a, b) ==> !evicted_before(b, a),
        evicted_before(a, b) && evicted_before(b, c) ==> evicted_before(a, c),
        evicted_before(a, c) ==> evicted_before(a, b) || evicted_before(b, c),
        a.onion_pubkey != b.onion_pubkey ==> evicted_before(a, b) || evicted_before(b, a),
{
    lemma_bytes_before_irreflexive(a.onion_pubkey);
    if bytes_before(a.onion_pubkey, b.onion_pubkey) {
        lemma_bytes_before_asymmetric(a.onion_pubkey, b.onion_pubkey);
        if bytes_before(b.onion_pubkey, c.onion_pubkey) {
            lemma_bytes_before_transitive(a.onion_pubkey, b.onion_pubkey, c.onion_pubkey);
        }
    }
    lemma_bytes_before_total(a.onion_pubkey, b.onion_pubkey);
    lemma_bytes_before_total(b.onion_pubkey, c.onion_pubkey);
    if bytes_before(a.onion_pubkey, c.onion_pubkey) && bytes_before(b.onion_pubkey, a.onion_pubkey)
    {
        lemma_bytes_before_transitive(b.onion_pubkey, a.onion_pubkey, c.onion_pubkey);
    }
}

/// Whether `worst` is the first of the peers that nothing is evicted before.
pub open spec fn first_to_evict(peers: Seq<PeerView>, worst: int) -> bool {
    &&& 0 <= worst < peers.len()
    &&& forall|i: int| 0 <= i < peers.len() ==> !evicted_before(#[trigger] peers[i], peers[worst])
    &&& forall|i: int| 0 <= i < worst ==> evicted_before(peers[worst], #[trigger] peers[i])
}

/// Whether some peer has public key `key`.
pub open spec fn has_key(peers: Seq<PeerView>, key: Seq<u8>) -> bool {
    exists|i: int| 0 <= i < peers.len() && (#[trigger] peers[i]).onion_pubkey == key
}

/// PeerAdmissionPlan describes how peer-capacity enforcement handles a peer.
#[derive(Debug, PartialEq, Eq)]
pub enum PeerAdmissionPlan {
    /// Admit keeps the candidate peer and optionally evicts one existing peer.
    Admit {
        /// evicted_public_key names the peer that has to leave, if any.
        evicted_public_key: Option<Vec<u8>>,
    },
    /// Reject leaves the current peer set unchanged.
    Reject,
}

/// Whether `plan` admits and evicts nobody.
pub open spec fn admits_freely(plan: PeerAdmissionPlan) -> bool {
    plan matches PeerAdmissionPlan::Admit { evicted_public_key } && evicted_public_key is None
}

/// Whether `plan` admits and evicts exactly the peer with `key`.
pub open spec fn admits_evicting(plan: PeerAdmissionPlan, key: Seq<u8>) -> bool {
    plan matches PeerAdmissionPlan::Admit { evicted_public_key }
        && evicted_public_key matches Some(evicted) && evicted@ == key
}

/// Whether `plan` is how a set of `peers` with room for `capacity` treats a
/// candidate with `candidate_key` and `candidate_priority`.
pub open spec fn admission_rule(
    peers: Seq<PeerView>,
    candidate_key: Seq<u8>,
    candidate_priority: u8,
    capacity: nat,
    plan: PeerAdmissionPlan,
) -> bool {
    if has_key(peers, candidate_key) || peers.len() < capacity {
        admits_freely(plan)
    } else if peers.len() == 0 {
        plan is Reject
    } else {
        exists|worst: int| #[trigger]
            first_to_evict(peers, worst) && if candidate_priority <= priority_of(peers[worst]) {
                plan is Reject
            } else {
                admits_evicting(plan, peers[worst].onion_pubkey)
            }
    }
}

/// Find the position of the first peer that nothing is evicted before.
fn worst_position(peers: &[Peer]) -> (worst: usize)
    requires
        peers.len() > 0,
    ensures
        first_to_evict(peer_views(peers@), worst as int),
{
    let ghost views = peer_views(peers@);
    let mut worst: usize = 0;
    let mut i: usize = 1;
    proof {
        lemma_eviction_order(views[0], views[0], views[0]);
    }
    while i < peers.len()
        invariant
            1 <= i <= peers.len(),
            views == peer_views(peers@),
            worst < i,
            first_to_evict(views.take(i as int), worst as int),
        decreases peers.len() - i,
    {
        let ghost seen = views.take(i as int);
        let ghost next = views.take(i + 1);
        let swap = peer_evicted_before(&peers[i], &peers[worst]);
        proof {
            assert(next =~= seen.push(views[i as int]));
            assert(views[i as int] == peers@[i as int]@);
            assert(views[worst as int] == peers@[worst as int]@);
            assert forall|k: int| 0 <= k < next.len() implies if swap {
                !evicted_before(#[trigger] next[k], views[i as int]) && (k < i ==> evicted_before(
                    views[i as int],
                    next[k],
                ))
            } else {
                !evicted_before(next[k], views[worst as int])
            } by {
                if k < i {
                    assert(!evicted_before(seen[k], seen[worst as int]));
                    lemma_eviction_order(views[i as int], views[worst as int], seen[k]);
                    lemma_eviction_order(views[i as int], seen[k], views[worst as int]);
                    lemma_eviction_order(seen[k], views[i as int], views[worst as int]);
                } else {
                    lemma_eviction_order(views[i as int], views[i as int], views[i as int]);
                }
            }
            if !swap {
                assert forall|k: int| 0 <= k < worst implies evicted_before(
                    next[worst as int],
                    #[trigger] next[k],
                ) by {
                    assert(seen[k] == next[k]);
                }
            }
        }
        if swap {
            worst = i;
        }
        i += 1;
        assert(first_to_evict(views.take(i as int), worst as int));
    }
    assert(views.take(i as int) =~= views);
    worst
}

/// Report whether some peer has public key `key`.
pub fn contains_key(peers: &[Peer], key: &[u8]) -> (found: bool)
    ensures
        found == has_key(peer_views(peers@), key@),
{
    let ghost views = peer_views(peers@);
    let mut i: usize = 0;
    while i < peers.len()
        invariant
            i <= peers.len(),
            views == peer_views(peers@),
            forall|j: int| 0 <= j < i ==> (#[trigger] views[j]).onion_pubkey != key@,
        decreases peers.len() - i,
    {
        assert(views[i as int] == peers@[i as int]@);
        if bytes_eq(peers[i].onion_pubkey.as_slice(), key) {
            return true;
        }
        i += 1;
    }
    false
}

/// Plan whether one candidate peer may join the tracked peer set.
pub fn plan_peer_admission(
    existing_peers: &[Peer],
    candidate_public_key: &[u8],
    candidate_pinned_by_us: bool,
    candidate_origin: PeerOrigin,
    candidate_score_seconds: i64,
    candidate_first_contact_direction: FirstContactDirection,
    capacity: usize,
) -> (plan: PeerAdmissionPlan)
    ensures
        admission_rule(
            peer_views(existing_peers@),
            candidate_public_key@,
            priority(
                candidate_pinned_by_us,
                candidate_origin,
                candidate_score_seconds as int,
                candidate_first_contact_direction,
            ),
            capacity as nat,
            plan,
        ),
{
    if contains_key(existing_peers, candidate_public_key) || existing_peers.len() < capacity {
        return PeerAdmissionPlan::Admit { evicted_public_key: None };
    }
    if existing_peers.len() == 0 {
        return PeerAdmissionPlan::Reject;
    }
    let candidate_priority = peer_priority(
        candidate_pinned_by_us,
        candidate_origin,
        candidate_score_seconds,
        candidate_first_contact_direction,
    );
    let worst = worst_position(existing_peers);
    let worst_peer = &existing_peers[worst];
    let worst_priority = peer_priority(
        worst_peer.pinned_by_us,
        worst_peer.origin,
        worst_peer.score_seconds,
        worst_peer.first_contact_direction,
    );
    assert(peer_views(existing_peers@)[worst as int] == worst_peer@);
    if candidate_priority <= worst_priority {
        return PeerAdmissionPlan::Reject;
    }
    PeerAdmissionPlan::Admit {
        evicted_public_key: Some(bytes_copy(worst_peer.onion_pubkey.as_slice())),
    }
}

/// TrimmedPeer is one peer that has to leave the tracked set.
#[derive(Debug, PartialEq, Eq)]
pub struct TrimmedPeer {
    /// public_key identifies the peer.
    pub public_key: Vec<u8>,
    /// cached_content_id is the revision of the peer that we hold, if any.
    pub cached_content_id: Option<Vec<u8>>,
}

/// Whether `trimmed` describes `peer`.
pub open spec fn trims(trimmed: TrimmedPeer, peer: PeerView) -> bool {
    &&& trimmed.public_key@ == peer.onion_pubkey
    &&& match (trimmed.cached_content_id, peer.latest_cached_content) {
        (Some(id), Some(content)) => id@ == content.content_id,
        (None, None) => true,
        _ => false,
    }
}

/// Describe `peer` as one that has to leave.
pub(crate) fn trimmed_peer(peer: &Peer) -> (trimmed: TrimmedPeer)
    ensures
        trims(trimmed, peer@),
{
    TrimmedPeer {
        public_key: bytes_copy(peer.onion_pubkey.as_slice()),
        cached_content_id: match &peer.latest_cached_content {
            Some(content) => Some(bytes_copy(content.content_id.as_slice())),
            None => None,
        },
    }
}

/// PeerTrim lists the peers that overflow the capacity.
#[derive(Debug, PartialEq, Eq)]
pub struct PeerTrim {
    /// removed lists the peers to remove, in order.
    pub removed: Vec<TrimmedPeer>,
    /// failure is why trimming stops behind `removed`, if it does.
    pub failure: Option<Status>,
}

/// The eviction order on the positions of `peers`.
pub open spec fn eviction_order(peers: Seq<PeerView>) -> spec_fn(int, int) -> bool {
    |i: int, j: int| evicted_before(peers[i], peers[j])
}

/// The eviction order is a strict weak order on positions.
pub proof fn lemma_eviction_order_weak(peers: Seq<PeerView>)
    ensures
        strict_weak_order(peers.len(), eviction_order(peers)),
{
    let n = peers.len();
    let before = eviction_order(peers);
    assert forall|i: int| 0 <= i < n implies !#[trigger] before(i, i) by {
        lemma_eviction_order(peers[i], peers[i], peers[i]);
    }
    assert forall|i: int, j: int, k: int|
        0 <= i < n && 0 <= j < n && 0 <= k < n && #[trigger] before(i, j) && #[trigger] before(j, k)
        implies before(i, k) by {
        lemma_eviction_order(peers[i], peers[j], peers[k]);
    }
    assert forall|i: int, j: int, k: int|
        0 <= i < n && 0 <= j < n && 0 <= k < n && #[trigger] before(i, k) implies #[trigger] before(
        i,
        j,
    ) || before(j, k) by {
        lemma_eviction_order(peers[i], peers[j], peers[k]);
    }
}

/// The failure of a peer whose recorded public key is not one.
pub open spec fn invalid_key_failure() -> StatusView {
    invalid_argument("peer public key is invalid"@)
}

/// Whether `trim` brings `peers`, sorted into `order`, down to `capacity`: it
/// removes the overflow from the front of the order, up to the first peer
/// whose recorded key is no public key.
pub open spec fn trim_rule(
    peers: Seq<PeerView>,
    order: Seq<usize>,
    capacity: nat,
    trim: PeerTrim,
) -> bool {
    let overflow = if peers.len() > capacity { peers.len() - capacity } else { 0 };
    let removed = trim.removed@;
    &&& removed.len() <= overflow
    &&& forall|i: int|
        0 <= i < removed.len() ==> trims(#[trigger] removed[i], peers[order[i] as int])
            && is_public_key(peers[order[i] as int].onion_pubkey)
    &&& match trim.failure {
        None => removed.len() == overflow,
        Some(status) => removed.len() < overflow && status@ == invalid_key_failure()
            && !is_public_key(peers[order[removed.len() as int] as int].onion_pubkey),
    }
}

/// Plan how to trim any overflow of tracked peers down to the provided capacity.
pub fn trim_tracked_peers_to_capacity_with_limit(peers: &[Peer], capacity: usize) -> (trim: PeerTrim)
    ensures
        exists|order: Seq<usize>| #[trigger]
            stable_order(order, peers@.len(), eviction_order(peer_views(peers@))) && trim_rule(
                peer_views(peers@),
                order,
                capacity as nat,
                trim,
            ),
{
    let ghost views = peer_views(peers@);
    let ghost before = eviction_order(views);
    proof {
        lemma_eviction_order_weak(views);
    }
    let less = |i: usize, j: usize| -> (r: bool)
        requires
            i < peers@.len(),
            j < peers@.len(),
        ensures
            r == evicted_before(peers@[i as int]@, peers@[j as int]@),
        { peer_evicted_before(&peers[i], &peers[j]) };
    let order = sort_positions(peers.len(), less, Ghost(before));
    let overflow: usize = if peers.len() > capacity {
        peers.len() - capacity
    } else {
        0
    };
    let mut removed: Vec<TrimmedPeer> = Vec::new();
    let mut next: usize = 0;
    while next < overflow
        invariant
            next <= overflow,
            overflow <= peers@.len(),
            overflow == if peers@.len() > capacity { peers@.len() - capacity } else { 0 },
            views == peer_views(peers@),
            before == eviction_order(views),
            stable_order(order@, peers@.len(), before),
            removed.len() == next,
            forall|i: int|
                0 <= i < removed.len() ==> trims(#[trigger] removed@[i], views[order@[i] as int])
                    && is_public_key(views[order@[i] as int].onion_pubkey),
        decreases overflow - next,
    {
        let position = order[next];
        let peer = &peers[position];
        assert(views[position as int] == peer@);
        if !public_key_is_valid(peer.onion_pubkey.as_slice()) {
            let failure = Status::invalid_argument("peer public key is invalid");
            let trim = PeerTrim { removed, failure: Some(failure) };
            assert(trim_rule(views, order@, capacity as nat, trim));
            return trim;
        }
        let trimmed = trimmed_peer(peer);
        assert(trims(trimmed, views[order@[next as int] as int]));
        assert(is_public_key(views[order@[next as int] as int].onion_pubkey));
        let ghost placed = removed@;
        removed.push(trimmed);
        assert(removed@ =~= placed.push(trimmed));
        next += 1;
        assert forall|i: int| 0 <= i < removed.len() implies trims(
            #[trigger] removed@[i],
            views[order@[i] as int],
        ) && is_public_key(views[order@[i] as int].onion_pubkey) by {
            if i < placed.len() {
                assert(removed@[i] == placed[i]);
                assert(trims(placed[i], views[order@[i] as int]));
            }
        }
    }
    let trim = PeerTrim { removed, failure: None };
    assert(trim_rule(views, order@, capacity as nat, trim));
    trim
}

/// TrackPeerPlan tells how to record one admitted peer.
#[derive(Debug, PartialEq, Eq)]
pub struct TrackPeerPlan {
    /// evicted is the peer that has to leave first, if any.
    pub evicted: Option<TrimmedPeer>,
    /// first_contact_direction is the direction to record, if one is known.
    pub first_contact_direction: Option<FirstContactDirection>,
}

/// The failure of a candidate that does not fit.
pub open spec fn capacity_failure(peer_onion: Seq<char>) -> StatusView {
    crate::status::plain_status(
        crate::status::Code::ResourceExhausted,
        "peer capacity reached; refusing to track "@ + peer_onion,
    )
}

/// Whether `first` is the first of `peers` with public key `key`.
pub open spec fn first_with_key(peers: Seq<PeerView>, key: Seq<u8>, first: int) -> bool {
    &&& 0 <= first < peers.len()
    &&& peers[first].onion_pubkey == key
    &&& forall|i: int| 0 <= i < first ==> (#[trigger] peers[i]).onion_pubkey != key
}

/// Whether `outcome` is what follows from an admission `plan`.
pub open spec fn track_rule(
    peers: Seq<PeerView>,
    plan: PeerAdmissionPlan,
    peer_onion: Seq<char>,
    first_contact_direction: FirstContactDirection,
    outcome: Result<TrackPeerPlan, Status>,
) -> bool {
    match plan {
        PeerAdmissionPlan::Reject => outcome matches Err(status) && status@ == capacity_failure(
            peer_onion,
        ),
        PeerAdmissionPlan::Admit { evicted_public_key: None } => outcome matches Ok(track)
            && track.evicted is None && records_direction(track, first_contact_direction),
        PeerAdmissionPlan::Admit { evicted_public_key: Some(key) } => if is_public_key(key@) {
            &&& outcome matches Ok(track)
            &&& records_direction(track, first_contact_direction)
            &&& track.evicted matches Some(evicted)
            &&& exists|first: int| #[trigger]
                first_with_key(peers, key@, first) && trims(evicted, peers[first])
        } else {
            outcome matches Err(status) && status@ == invalid_key_failure()
        },
    }
}

/// Whether `track` records `direction`, which it does unless it is unknown.
pub open spec fn records_direction(track: TrackPeerPlan, direction: FirstContactDirection) -> bool {
    track.first_contact_direction == if direction == FirstContactDirection::Unknown {
        None
    } else {
        Some(direction)
    }
}

/// Plan how to admit or upgrade one tracked peer under the provided capacity limit.
pub fn track_peer_identity_with_capacity(
    peers: &[Peer],
    peer_public_key: &[u8],
    peer_onion: &str,
    origin: PeerOrigin,
    first_contact_direction: FirstContactDirection,
    capacity: usize,
) -> (outcome: Result<TrackPeerPlan, Status>)
    ensures
        exists|plan: PeerAdmissionPlan| #[trigger]
            admission_rule(
                peer_views(peers@),
                peer_public_key@,
                priority(false, origin, 0, first_contact_direction),
                capacity as nat,
                plan,
            ) && track_rule(
                peer_views(peers@),
                plan,
                peer_onion@,
                first_contact_direction,
                outcome,
            ),
{
    let ghost views = peer_views(peers@);
    let direction = if first_contact_direction == FirstContactDirection::Unknown {
        None
    } else {
        Some(first_contact_direction)
    };
    let plan = plan_peer_admission(
        peers,
        peer_public_key,
        false,
        origin,
        0,
        first_contact_direction,
        capacity,
    );
    let outcome: Result<TrackPeerPlan, Status> = match &plan {
        PeerAdmissionPlan::Reject => Err(
            Status::new(
                crate::status::Code::ResourceExhausted,
                join_text("peer capacity reached; refusing to track ", peer_onion),
            ),
        ),
        PeerAdmissionPlan::Admit { evicted_public_key: None } => Ok(
            TrackPeerPlan { evicted: None, first_contact_direction: direction },
        ),
        PeerAdmissionPlan::Admit { evicted_public_key: Some(key) } => {
            assert(has_key(views, key@));
            let first = first_position_with_key(peers, key.as_slice());
            if public_key_is_valid(key.as_slice()) {
                assert(views[first as int] == peers@[first as int]@);
                let evicted = trimmed_peer(&peers[first]);
                assert(first_with_key(views, key@, first as int) && trims(
                    evicted,
                    views[first as int],
                ));
                Ok(TrackPeerPlan { evicted: Some(evicted), first_contact_direction: direction })
            } else {
                Err(Status::invalid_argument("peer public key is invalid"))
            }
        },
    };
    assert(track_rule(views, plan, peer_onion@, first_contact_direction, outcome));
    outcome
}

/// Find the first peer with public key `key`.
fn first_position_with_key(peers: &[Peer], key: &[u8]) -> (first: usize)
    requires
        has_key(peer_views(peers@), key@),
    ensures
        first_with_key(peer_views(peers@), key@, first as int),
{
    let ghost views = peer_views(peers@);
    let mut i: usize = 0;
    while i < peers.len()
        invariant
            i <= peers.len(),
            views == peer_views(peers@),
            has_key(views, key@),
            forall|j: int| 0 <= j < i ==> (#[trigger] views[j]).onion_pubkey != key@,
        decreases peers.len() - i,
    {
        assert(views[i as int] == peers@[i as int]@);
        if bytes_eq(peers[i].onion_pubkey.as_slice(), key) {
            return i;
        }
        i += 1;
    }
    assert(false);
    0
}

/// Priorities follow the product order: pinned, manual, positively scored,
/// built-in, contacted by us, contacted us, unknown.
pub proof fn law_priority_follows_product_order(
    origin: PeerOrigin,
    other_origin: PeerOrigin,
    score: int,
    other_score: int,
    direction: FirstContactDirection,
    other_direction: FirstContactDirection,
)
    ensures
        priority(true, origin, score, direction) > priority(
            false,
            other_origin,
            other_score,
            other_direction,
        ),
        other_origin != PeerOrigin::Manual ==> priority(
            false,
            PeerOrigin::Manual,
            score,
            direction,
        ) > priority(false, other_origin, other_score, other_direction),
        score > 0 && other_score <= 0 && other_origin != PeerOrigin::Manual ==> priority(
            false,
            origin,
            score,
            direction,
        ) > priority(false, other_origin, other_score, other_direction),
        other_score <= 0 && other_origin != PeerOrigin::Manual && other_origin
            != PeerOrigin::BuiltIn ==> priority(false, PeerOrigin::BuiltIn, score, direction)
            > priority(false, other_origin, other_score, other_direction),
        other_score <= 0 && other_origin != PeerOrigin::Manual && other_origin
            != PeerOrigin::BuiltIn && other_direction != FirstContactDirection::Outbound
            ==> priority(false, origin, score, FirstContactDirection::Outbound) > priority(
            false,
            other_origin,
            other_score,
            other_direction,
        ),
        other_score <= 0 && other_origin != PeerOrigin::Manual && other_origin
            != PeerOrigin::BuiltIn && other_direction == FirstContactDirection::Unknown
            ==> priority(false, origin, score, FirstContactDirection::Inbound) > priority(
            false,
            other_origin,
            other_score,
            other_direction,
        ),
{
}

/// Admission evicts only a peer of strictly lower priority than the candidate,
/// and no tracked peer has lower priority than the one that leaves.
pub proof fn law_admission_evicts_only_lower_priority(
    peers: Seq<PeerView>,
    candidate_key: Seq<u8>,
    candidate_priority: u8,
    capacity: nat,
    plan: PeerAdmissionPlan,
    key: Seq<u8>,
)
    requires
        admission_rule(peers, candidate_key, candidate_priority, capacity, plan),
        admits_evicting(plan, key),
    ensures
        exists|worst: int|
            0 <= worst < peers.len() && (#[trigger] peers[worst]).onion_pubkey == key && priority_of(
                peers[worst],
            ) < candidate_priority && forall|i: int|
                0 <= i < peers.len() ==> priority_of(peers[worst]) <= priority_of(
                    #[trigger] peers[i],
                ),
{
    let worst = choose|worst: int| #[trigger]
        first_to_evict(peers, worst) && if candidate_priority <= priority_of(peers[worst]) {
            plan is Reject
        } else {
            admits_evicting(plan, peers[worst].onion_pubkey)
        };
    assert(peers[worst].onion_pubkey == key);
    assert forall|i: int| 0 <= i < peers.len() implies priority_of(peers[worst]) <= priority_of(
        #[trigger] peers[i],
    ) by {
        assert(!evicted_before(peers[i], peers[worst]));
    }
}

/// A candidate is turned away exactly when it is new, the set is full, and no
/// tracked peer has lower priority than the candidate.
pub proof fn law_admission_rejects_only_when_full_of_betters(
    peers: Seq<PeerView>,
    candidate_key: Seq<u8>,
    candidate_priority: u8,
    capacity: nat,
    plan: PeerAdmissionPlan,
)
    requires
        admission_rule(peers, candidate_key, candidate_priority, capacity, plan),
    ensures
        plan is Reject <==> !has_key(peers, candidate_key) && peers.len() >= capacity && forall|i: int|
            0 <= i < peers.len() ==> candidate_priority <= priority_of(#[trigger] peers[i]),
{
    if !has_key(peers, candidate_key) && peers.len() >= capacity && peers.len() > 0 {
        let worst = choose|worst: int| #[trigger]
            first_to_evict(peers, worst) && if candidate_priority <= priority_of(peers[worst]) {
                plan is Reject
            } else {
                admits_evicting(plan, peers[worst].onion_pubkey)
            };
        assert forall|i: int| 0 <= i < peers.len() implies priority_of(peers[worst])
            <= priority_of(#[trigger] peers[i]) by {
            assert(!evicted_before(peers[i], peers[worst]));
        }
    }
}

/// Trimming never removes a peer of higher priority than one that it keeps.
pub proof fn law_trim_spares_higher_priority(
    peers: Seq<PeerView>,
    order: Seq<usize>,
    capacity: nat,
    trim: PeerTrim,
    removed: int,
    kept: int,
)
    requires
        stable_order(order, peers.len(), eviction_order(peers)),
        trim_rule(peers, order, capacity, trim),
        0 <= removed < trim.removed@.len(),
        trim.removed@.len() <= kept < peers.len(),
    ensures
        trim.removed@[removed].public_key@ == peers[order[removed] as int].onion_pubkey,
        priority_of(peers[order[removed] as int]) <= priority_of(peers[order[kept] as int]),
{
    assert(trims(trim.removed@[removed], peers[order[removed] as int]));
    assert(precedes(eviction_order(peers), order[removed] as int, order[kept] as int));
    lemma_eviction_order(
        peers[order[removed] as int],
        peers[order[kept] as int],
        peers[order[removed] as int],
    );
}

/// Whether record `a` is worth less than record `b`: by priority, then by
/// score, then by how old the measurement is, then by the order of the keys.
pub open spec fn worth_less(a: Peer, b: Peer) -> bool {
    let pa = priority_of(a@);
    let pb = priority_of(b@);
    ||| pa < pb
    ||| pa == pb && a.score_seconds < b.score_seconds
    ||| pa == pb && a.score_seconds == b.score_seconds && a.score_measured_at < b.score_measured_at
    ||| pa == pb && a.score_seconds == b.score_seconds && a.score_measured_at
        == b.score_measured_at && bytes_before(a.onion_pubkey@, b.onion_pubkey@)
}

/// A pin counts most, then a manual origin, a positive score, a built-in origin
/// and the direction of the first contact, and each of these counts alone: what
/// ranks below it changes nothing.
pub proof fn law_priority_is_decided_by_the_first_merit(
    pinned: bool,
    origin: PeerOrigin,
    score: i64,
    direction: FirstContactDirection,
    level: u8,
    other_pinned: bool,
    other_origin: PeerOrigin,
    other_score: i64,
    other_direction: FirstContactDirection,
    other_level: u8,
)
    requires
        call_ensures(peer_priority, (pinned, origin, score, direction), level),
        call_ensures(
            peer_priority,
            (other_pinned, other_origin, other_score, other_direction),
            other_level,
        ),
    ensures
        pinned && other_pinned ==> level == other_level,
        pinned && !other_pinned ==> level > other_level,
        !pinned && !other_pinned ==> {
            let manual = origin == PeerOrigin::Manual;
            let other_manual = other_origin == PeerOrigin::Manual;
            let built_in = origin == PeerOrigin::BuiltIn;
            let other_built_in = other_origin == PeerOrigin::BuiltIn;
            &&& manual && other_manual ==> level == other_level
            &&& manual && !other_manual ==> level > other_level
            &&& !manual && !other_manual ==> {
                &&& score > 0 && other_score > 0 ==> level == other_level
                &&& score > 0 && other_score <= 0 ==> level > other_level
                &&& score <= 0 && other_score <= 0 ==> {
                    &&& built_in && other_built_in ==> level == other_level
                    &&& built_in && !other_built_in ==> level > other_level
                    &&& !built_in && !other_built_in ==> {
                        &&& direction == other_direction ==> level == other_level
                        &&& direction == FirstContactDirection::Outbound && other_direction
                            != FirstContactDirection::Outbound ==> level > other_level
                        &&& direction == FirstContactDirection::Inbound && other_direction
                            == FirstContactDirection::Unknown ==> level > other_level
                    }
                }
            }
        },
{
}

/// The peer that is worth less is evicted first.
pub proof fn law_eviction_goes_by_worth(a: &Peer, b: &Peer, first: bool, level: u8)
    requires
        call_ensures(peer_evicted_before, (a, b), first),
        call_ensures(
            peer_priority,
            (a.pinned_by_us, a.origin, a.score_seconds, a.first_contact_direction),
            level,
        ),
    ensures
        first <==> worth_less(*a, *b),
        level == priority_of(a@),
{
}

/// A peer on record, and any peer while there is room, is admitted and nobody
/// leaves. Into a full set a new peer comes only for one of lower priority, and
/// then the one leaves that is worth least.
pub proof fn law_admission_replaces_the_worst(
    peers: &[Peer],
    key: &[u8],
    pinned: bool,
    origin: PeerOrigin,
    score: i64,
    direction: FirstContactDirection,
    capacity: usize,
    plan: PeerAdmissionPlan,
    level: u8,
)
    requires
        call_ensures(
            plan_peer_admission,
            (peers, key, pinned, origin, score, direction, capacity),
            plan,
        ),
        call_ensures(peer_priority, (pinned, origin, score, direction), level),
    ensures
        ({
            let known = exists|i: int|
                0 <= i < peers@.len() && (#[trigger] peers@[i]).onion_pubkey@ == key@;
            let replaces = exists|i: int|
                0 <= i < peers@.len() && priority_of((#[trigger] peers@[i])@) < level;
            &&& plan matches PeerAdmissionPlan::Admit { evicted_public_key } ==> (
            evicted_public_key is None <==> known || peers@.len() < capacity)
            &&& plan is Reject <==> !known && peers@.len() >= capacity && !replaces
            &&& plan matches PeerAdmissionPlan::Admit { evicted_public_key: Some(evicted) }
                ==> exists|w: int|
                0 <= w < peers@.len() && (#[trigger] peers@[w]).onion_pubkey@ == evicted@
                    && priority_of(peers@[w]@) < level && is_worth_least(peers@, w)
        }),
{
    let views = peer_views(peers@);
    let known = exists|i: int|
        0 <= i < peers@.len() && (#[trigger] peers@[i]).onion_pubkey@ == key@;
    assert(known <==> has_key(views, key@)) by {
        if known {
            let i = choose|i: int|
                0 <= i < peers@.len() && (#[trigger] peers@[i]).onion_pubkey@ == key@;
            assert(views[i].onion_pubkey == key@);
        }
        if has_key(views, key@) {
            let i = choose|i: int|
                0 <= i < views.len() && (#[trigger] views[i]).onion_pubkey == key@;
            assert(peers@[i].onion_pubkey@ == key@);
        }
    }
    if !known && peers@.len() >= capacity && peers@.len() > 0 {
        let w = choose|worst: int| #[trigger]
            first_to_evict(views, worst) && if level <= priority_of(views[worst]) {
                plan is Reject
            } else {
                admits_evicting(plan, views[worst].onion_pubkey)
            };
        assert(views[w] == peers@[w]@);
        assert forall|i: int| 0 <= i < peers@.len() implies !worth_less(
            #[trigger] peers@[i],
            peers@[w],
        ) by {
            assert(views[i] == peers@[i]@);
            assert(!evicted_before(views[i], views[w]));
        }
        assert(is_worth_least(peers@, w));
    }
}

/// Whether no record is worth less than record `w`.
pub open spec fn is_worth_least(peers: Seq<Peer>, w: int) -> bool {
    forall|i: int| 0 <= i < peers.len() ==> !worth_less(#[trigger] peers[i], peers[w])
}

/// Whether `removed` names the peer with `key`.
pub open spec fn removes(removed: Seq<TrimmedPeer>, key: Seq<u8>) -> bool {
    exists|r: int| 0 <= r < removed.len() && (#[trigger] removed[r]).public_key@ == key
}

/// Trimming removes exactly as many peers as there are too many, unless one of
/// them has no valid key, and each peer that it removes is worth less than every
/// peer that stays. Whatever revision of a removed peer was held is named.
pub proof fn law_trim_removes_the_worst(peers: &[Peer], capacity: usize, trim: PeerTrim)
    requires
        call_ensures(trim_tracked_peers_to_capacity_with_limit, (peers, capacity), trim),
        forall|i: int, j: int|
            0 <= i < j < peers@.len() ==> (#[trigger] peers@[i]).onion_pubkey@ != (
            #[trigger] peers@[j]).onion_pubkey@,
    ensures
        trim.failure is None ==> trim.removed@.len() == if peers@.len() > capacity {
            peers@.len() - capacity
        } else {
            0
        },
        (forall|i: int| 0 <= i < peers@.len() ==> is_public_key((#[trigger] peers@[i]).onion_pubkey@))
            ==> trim.failure is None,
        forall|r: int|
            0 <= r < trim.removed@.len() ==> is_rightly_removed(
                peers@,
                trim.removed@,
                #[trigger] trim.removed@[r],
            ),
        forall|r: int, s: int|
            0 <= r < s < trim.removed@.len() ==> (#[trigger] trim.removed@[r]).public_key@ != (
            #[trigger] trim.removed@[s]).public_key@,
{
    let views = peer_views(peers@);
    let before = eviction_order(views);
    let order = choose|order: Seq<usize>| #[trigger]
        stable_order(order, peers@.len(), before) && trim_rule(views, order, capacity as nat, trim);
    let removed = trim.removed@;
    let below = |p: int| 0 <= p < peers@.len();
    assert forall|a: int| 0 <= a < order.len() implies (#[trigger] order[a]) < peers@.len() by {
        assert(below(order[a] as int));
    }
    assert forall|r: int| 0 <= r < removed.len() implies is_rightly_removed(
        peers@,
        removed,
        #[trigger] removed[r],
    ) by {
        let p = order[r] as int;
        assert(trims(removed[r], views[p]));
        assert(views[p] == peers@[p]@);
        assert forall|q: int|
            0 <= q < peers@.len() && !removes(removed, (#[trigger] peers@[q]).onion_pubkey@)
            implies worth_less(peers@[p], peers@[q]) by {
            assert(below(q));
            let b = choose|b: int| 0 <= b < order.len() && order[b] as int == q;
            assert(views[q] == peers@[q]@);
            if b < removed.len() {
                assert(trims(removed[b], views[order[b] as int]));
                assert(removed[b].public_key@ == peers@[q].onion_pubkey@);
            }
            assert(precedes(before, order[r] as int, order[b] as int));
            assert(p != q);
            if p < q {
                assert(peers@[p].onion_pubkey@ != peers@[q].onion_pubkey@);
            } else {
                assert(peers@[q].onion_pubkey@ != peers@[p].onion_pubkey@);
            }
            lemma_eviction_order(views[p], views[q], views[p]);
        }
        assert(removed_for_worth(peers@, removed, removed[r], p));
    }
    if trim.failure is Some {
        let p = order[removed.len() as int] as int;
        assert(views[p] == peers@[p]@);
        assert(!is_public_key(peers@[p].onion_pubkey@));
    }
    assert forall|r: int, s: int| 0 <= r < s < removed.len() implies (
    #[trigger] removed[r]).public_key@ != (#[trigger] removed[s]).public_key@ by {
        let p = order[r] as int;
        let q = order[s] as int;
        assert(trims(removed[r], views[p]));
        assert(trims(removed[s], views[q]));
        assert(views[p] == peers@[p]@ && views[q] == peers@[q]@);
        assert(precedes(before, order[r] as int, order[s] as int));
        lemma_eviction_order(views[p], views[p], views[p]);
        assert(p != q);
        if p < q {
            assert(peers@[p].onion_pubkey@ != peers@[q].onion_pubkey@);
        } else {
            assert(peers@[q].onion_pubkey@ != peers@[p].onion_pubkey@);
        }
    }
}

/// Whether `trimmed` names a record that is worth less than whatever stays.
pub open spec fn is_rightly_removed(
    peers: Seq<Peer>,
    removed: Seq<TrimmedPeer>,
    trimmed: TrimmedPeer,
) -> bool {
    exists|p: int| 0 <= p < peers.len() && #[trigger] removed_for_worth(peers, removed, trimmed, p)
}

/// Whether `trimmed` names record `p`, which is worth less than whatever stays.
pub open spec fn removed_for_worth(
    peers: Seq<Peer>,
    removed: Seq<TrimmedPeer>,
    trimmed: TrimmedPeer,
    p: int,
) -> bool {
    &&& trimmed.public_key@ == peers[p].onion_pubkey@
    &&& trimmed.cached_content_id is Some <==> peers[p].latest_cached_content is Some
    &&& trimmed.cached_content_id matches Some(id) ==> id@
        == peers[p].latest_cached_content->0.content_id@
    &&& forall|q: int|
        0 <= q < peers.len() && !removes(removed, (#[trigger] peers[q]).onion_pubkey@)
            ==> worth_less(peers[p], peers[q])
}

/// An admitted peer is on record already, finds room, or replaces the worst.
pub proof fn lemma_tracking_makes_room(
    peers: Seq<Peer>,
    key: Seq<u8>,
    onion: Seq<char>,
    origin: PeerOrigin,
    direction: FirstContactDirection,
    capacity: nat,
    plan: PeerAdmissionPlan,
    outcome: Result<TrackPeerPlan, Status>,
)
    requires
        admission_rule(
            peer_views(peers),
            key,
            priority(false, origin, 0, direction),
            capacity,
            plan,
        ),
        track_rule(peer_views(peers), plan, onion, direction, outcome),
    ensures
        ({
            let level = priority(false, origin, 0, direction);
            let known = exists|i: int|
                0 <= i < peers.len() && (#[trigger] peers[i]).onion_pubkey@ == key;
            let replaces = exists|i: int|
                0 <= i < peers.len() && priority_of((#[trigger] peers[i])@) < level;
            let room = known || peers.len() < capacity;
            &&& room ==> (outcome matches Ok(track) && track.evicted is None)
            &&& !room && !replaces ==> (outcome matches Err(status) && status.code
                == crate::status::Code::ResourceExhausted)
            &&& (forall|i: int|
                0 <= i < peers.len() ==> is_public_key((#[trigger] peers[i]).onion_pubkey@)) && (
            room || replaces) ==> outcome is Ok
            &&& outcome matches Ok(track) ==> {
                &&& track.evicted is None <==> room
                &&& track.evicted matches Some(evicted) ==> exists|w: int|
                    0 <= w < peers.len() && (#[trigger] peers[w]).onion_pubkey@
                        == evicted.public_key@ && priority_of(peers[w]@) < level
                        && is_worth_least(peers, w)
                &&& track.first_contact_direction is None <==> direction
                    == FirstContactDirection::Unknown
                &&& track.first_contact_direction matches Some(d) ==> d == direction
            }
        }),
{
    let views = peer_views(peers);
    let level = priority(false, origin, 0, direction);
    let known = exists|i: int|
        0 <= i < peers.len() && (#[trigger] peers[i]).onion_pubkey@ == key;
    assert(known <==> has_key(views, key)) by {
        if known {
            let i = choose|i: int|
                0 <= i < peers.len() && (#[trigger] peers[i]).onion_pubkey@ == key;
            assert(views[i].onion_pubkey == key);
        }
        if has_key(views, key) {
            let i = choose|i: int|
                0 <= i < views.len() && (#[trigger] views[i]).onion_pubkey == key;
            assert(peers[i].onion_pubkey@ == key);
        }
    }
    if !known && peers.len() >= capacity && peers.len() > 0 {
        let w = choose|worst: int| #[trigger]
            first_to_evict(views, worst) && if level <= priority_of(views[worst]) {
                plan is Reject
            } else {
                admits_evicting(plan, views[worst].onion_pubkey)
            };
        assert(views[w] == peers[w]@);
        assert forall|i: int| 0 <= i < peers.len() implies !worth_less(
            #[trigger] peers[i],
            peers[w],
        ) by {
            assert(views[i] == peers[i]@);
            assert(!evicted_before(views[i], views[w]));
        }
        assert(is_worth_least(peers, w));
        assert(peers[w].onion_pubkey@ == views[w].onion_pubkey);
    }
}

/// A peer that is met is tracked as one without a pin or a score: it is on
/// record already, or there is room, or it takes the place of the peer that is
/// worth least and of lower priority. The direction of the contact is recorded
/// where it is known.
pub proof fn law_tracking_a_peer_makes_room(
    peers: &[Peer],
    key: &[u8],
    onion: &str,
    origin: PeerOrigin,
    direction: FirstContactDirection,
    capacity: usize,
    outcome: Result<TrackPeerPlan, Status>,
    level: u8,
)
    requires
        call_ensures(
            track_peer_identity_with_capacity,
            (peers, key, onion, origin, direction, capacity),
            outcome,
        ),
        call_ensures(peer_priority, (false, origin, 0i64, direction), level),
    ensures
        ({
            let known = exists|i: int|
                0 <= i < peers@.len() && (#[trigger] peers@[i]).onion_pubkey@ == key@;
            let replaces = exists|i: int|
                0 <= i < peers@.len() && priority_of((#[trigger] peers@[i])@) < level;
            let room = known || peers@.len() < capacity;
            &&& room ==> (outcome matches Ok(track) && track.evicted is None)
            &&& !room && !replaces ==> (outcome matches Err(status) && status.code
                == crate::status::Code::ResourceExhausted)
            &&& (forall|i: int|
                0 <= i < peers@.len() ==> is_public_key((#[trigger] peers@[i]).onion_pubkey@)) && (
            room || replaces) ==> outcome is Ok
            &&& outcome matches Ok(track) ==> {
                &&& track.evicted is None <==> room
                &&& track.evicted matches Some(evicted) ==> exists|w: int|
                    0 <= w < peers@.len() && (#[trigger] peers@[w]).onion_pubkey@
                        == evicted.public_key@ && priority_of(peers@[w]@) < level
                        && is_worth_least(peers@, w)
                &&& track.first_contact_direction is None <==> direction
                    == FirstContactDirection::Unknown
                &&& track.first_contact_direction matches Some(d) ==> d == direction
            }
        }),
{
    let views = peer_views(peers@);
    let plan = choose|plan: PeerAdmissionPlan| #[trigger]
        admission_rule(views, key@, priority(false, origin, 0, direction), capacity as nat, plan)
            && track_rule(views, plan, onion@, direction, outcome);
    lemma_tracking_makes_room(
        peers@,
        key@,
        onion@,
        origin,
        direction,
        capacity as nat,
        plan,
        outcome,
    );
}

} // verus!

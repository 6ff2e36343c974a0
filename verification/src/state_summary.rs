//! The local state summary shown to operators.

use crate::accounting::{
    distinct_cached_bytes, mean_score_seconds, mirrored_total_size_bytes_from_tracked_peers,
    score_sum, truncated_quotient,
};
use crate::arith::{at_least_zero, at_least_zero_i64, clamp_i64, i64_from_usize};
use crate::content::CurrentContent;
use crate::horizon::{replica_horizon_points, ReplicaHorizonPoint};
use crate::inventory::{
    inventory_views, PeerInventoryEntry, PeerInventoryEntryView, PeerInventoryStatus,
};
use crate::lineage::{in_window, key_before, key_less, key_time, key_timestamp, LineageWindow, RevisionKey};
use crate::model::{peer_views, Peer, PeerReachability, PeerView, ProtoTimestamp, NANOS_PER_SECOND};
use crate::records::{has_storage, peer_has_storage};
use crate::recovery::RecoveredRevision;
use crate::status::{fails_with, invalid_argument, Status, StorageError};
use crate::storage_report::is_horizon;
use crate::text::{bytes_copy, bytes_eq};
use crate::timestamps::{
    file_timestamp, proto_timestamp_from_file_parts, proto_timestamp_from_parts,
};
use vstd::prelude::*;

verus! {

/// LocalStoreSnapshot is the local encrypted-store state needed for one local
/// state summary.
#[derive(Debug)]
pub struct LocalStoreSnapshot {
    /// current_content is the active local revision, if any.
    pub current_content: Option<CurrentContent>,
    /// tracked_peers is the persisted tracked peer metadata.
    pub tracked_peers: Vec<Peer>,
    /// file_count is the number of logical user files in the active revision.
    pub file_count: i64,
    /// total_file_bytes is the total plaintext size of all logical user files.
    pub total_file_bytes: i64,
    /// node_initialized_at is the persisted generation boundary, if any.
    pub node_initialized_at: Option<(i64, i64)>,
    /// latest_recovered_revision is the newest merged older-lineage revision, if any.
    pub latest_recovered_revision: Option<RecoveredRevision>,
    /// recovery_watermark is the persisted older-lineage watermark, if any.
    pub recovery_watermark: Option<(i64, i64)>,
    /// recovery_mode_enabled reports whether outgoing publication is blocked.
    pub recovery_mode_enabled: bool,
}

/// ParsedContentId is what one content identifier encodes.
#[derive(Debug)]
pub struct ParsedContentId {
    /// content_id is the identifier.
    pub content_id: Vec<u8>,
    /// key is what it encodes, or why it encodes nothing.
    pub key: Result<RevisionKey, StorageError>,
}

/// StateContentSummary describes our own content.
#[derive(Debug, PartialEq, Eq)]
pub struct StateContentSummary {
    /// file_count is the number of files.
    pub file_count: i64,
    /// total_size_bytes is their total size.
    pub total_size_bytes: i64,
    /// last_updated_at is when the active revision was made, if there is one.
    pub last_updated_at: Option<ProtoTimestamp>,
    /// has_pending_update reports whether the active revision lacks replicas.
    pub has_pending_update: bool,
}

/// StatePeerSummary describes the peers.
#[derive(Debug, PartialEq, Eq)]
pub struct StatePeerSummary {
    /// total_known counts the known peers.
    pub total_known: i64,
    /// connected counts those with an open client.
    pub connected: i64,
    /// storing_our_data counts those that hold some revision of ours.
    pub storing_our_data: i64,
    /// storing_latest_our_data counts those that hold our active revision.
    pub storing_latest_our_data: i64,
    /// mutual_storage_peers counts those with any storage relationship.
    pub mutual_storage_peers: i64,
    /// mean_mutual_storage_score_seconds is their mean score.
    pub mean_mutual_storage_score_seconds: i64,
    /// mirrored_peers counts those whose bytes we hold.
    pub mirrored_peers: i64,
    /// mirrored_total_size_bytes is how much we hold in all.
    pub mirrored_total_size_bytes: i64,
}

/// StateDurabilitySummary describes the replicas of our active revision.
#[derive(Debug, PartialEq, Eq)]
pub struct StateDurabilitySummary {
    /// predicted_fresh_replicas_now counts the reachable replicas.
    pub predicted_fresh_replicas_now: i64,
    /// predicted_min_replicas_target is how many there should be.
    pub predicted_min_replicas_target: i64,
    /// predicted_replica_horizon tells when they would expire.
    pub predicted_replica_horizon: Vec<ReplicaHorizonPoint>,
}

/// StateRecoverySummary describes the recovery of older revisions.
#[derive(Debug, PartialEq, Eq)]
pub struct StateRecoverySummary {
    /// recovery_mode_enabled reports whether recovery mode is on.
    pub recovery_mode_enabled: bool,
    /// node_initialized_at is when this node was set up, if known.
    pub node_initialized_at: Option<ProtoTimestamp>,
    /// recovery_watermark_at is up to when everything is recovered, if known.
    pub recovery_watermark_at: Option<ProtoTimestamp>,
    /// publish_blocked_reason is why publication is blocked, or empty.
    pub publish_blocked_reason: String,
    /// latest_recovered_content_id is the newest recovered revision, or empty.
    pub latest_recovered_content_id: Vec<u8>,
    /// latest_recovered_at is when it was made.
    pub latest_recovered_at: Option<ProtoTimestamp>,
    /// newer_known_content_id is a newer revision that peers know of but do not hold, or empty.
    pub newer_known_content_id: Vec<u8>,
    /// newer_known_at is when it was made.
    pub newer_known_at: Option<ProtoTimestamp>,
}

/// StateLocalSummary is the local-only state summary.
#[derive(Debug, PartialEq, Eq)]
pub struct StateLocalSummary {
    /// content describes our own content.
    pub content: StateContentSummary,
    /// peers describes the peers.
    pub peers: StatePeerSummary,
    /// durability describes the replicas of our active revision.
    pub durability: StateDurabilitySummary,
    /// recovery describes the recovery of older revisions.
    pub recovery: StateRecoverySummary,
}

/// How many peers `counts` picks.
pub open spec fn count_peers(peers: Seq<PeerView>, counts: spec_fn(PeerView) -> bool) -> int
    decreases peers.len(),
{
    if peers.len() == 0 {
        0
    } else {
        count_peers(peers.drop_last(), counts) + if counts(peers.last()) {
            1int
        } else {
            0int
        }
    }
}

/// How many inventory entries `counts` picks.
pub open spec fn count_entries(
    inventory: Seq<PeerInventoryEntryView>,
    counts: spec_fn(PeerInventoryEntryView) -> bool,
) -> int
    decreases inventory.len(),
{
    if inventory.len() == 0 {
        0
    } else {
        count_entries(inventory.drop_last(), counts) + if counts(inventory.last()) {
            1int
        } else {
            0int
        }
    }
}

/// Whether a peer says that it holds our revision `id`.
pub open spec fn stores(peer: PeerView, id: Seq<u8>) -> bool {
    peer.requester_latest_stored_content matches Some(content) && content.content_id == id
}

/// Whether a reachable peer says that it holds our active revision.
pub open spec fn fresh_replica(peer: PeerView, current: Option<Seq<u8>>) -> bool {
    current matches Some(id) && peer.reachability == PeerReachability::Online && stores(peer, id)
}

/// The scores of all peers with a storage relationship, in order.
pub open spec fn mutual_scores(peers: Seq<PeerView>) -> Seq<i64>
    decreases peers.len(),
{
    if peers.len() == 0 {
        Seq::<i64>::empty()
    } else if has_storage(peers.last()) {
        mutual_scores(peers.drop_last()).push(peers.last().score_seconds)
    } else {
        mutual_scores(peers.drop_last())
    }
}

/// When the reachable replicas of our active revision would expire, in order;
/// never for a peer that pins us.
pub open spec fn predicted_expiries(peers: Seq<PeerView>, current: Option<Seq<u8>>) -> Seq<
    Option<i64>,
>
    decreases peers.len(),
{
    if peers.len() == 0 {
        Seq::<Option<i64>>::empty()
    } else {
        let rest = predicted_expiries(peers.drop_last(), current);
        let peer = peers.last();
        if fresh_replica(peer, current) {
            rest.push(
                if peer.pins_us {
                    None
                } else {
                    Some(at_least_zero(peer.score_seconds as int) as i64)
                },
            )
        } else {
            rest
        }
    }
}

/// What the identifier `id` encodes; one that was not parsed encodes nothing.
pub open spec fn parsed_key(parsed: Seq<ParsedContentId>, id: Seq<u8>) -> Option<RevisionKey>
    decreases parsed.len(),
{
    if parsed.len() == 0 {
        None
    } else if parsed[0].content_id@ == id {
        match parsed[0].key {
            Ok(key) => Some(key),
            Err(_) => None,
        }
    } else {
        parsed_key(parsed.drop_first(), id)
    }
}

/// The key of an older revision of ours that a peer knows of but does not
/// hold, if there is one that is still to be recovered.
pub open spec fn hint_key(
    peer: PeerView,
    parsed: Seq<ParsedContentId>,
    window: Option<LineageWindow>,
) -> Option<RevisionKey> {
    match peer.requester_latest_known_content {
        None => None,
        Some(known) => match parsed_key(parsed, known.content_id) {
            None => None,
            Some(key) => if in_window(key, window) && !stores(peer, known.content_id) {
                Some(key)
            } else {
                None
            },
        },
    }
}

/// Whether peer `best` gives the newest hint, the last one among equals.
pub open spec fn newest_hint(
    peers: Seq<PeerView>,
    parsed: Seq<ParsedContentId>,
    window: Option<LineageWindow>,
    best: int,
) -> bool {
    &&& 0 <= best < peers.len()
    &&& hint_key(peers[best], parsed, window) is Some
    &&& forall|i: int|
        0 <= i < peers.len() ==> (hint_key(#[trigger] peers[i], parsed, window) matches Some(key)
            ==> !key_before(hint_key(peers[best], parsed, window)->0, key) && (i > best
            ==> key_before(key, hint_key(peers[best], parsed, window)->0)))
}

/// Whether no peer gives a hint.
pub open spec fn no_hint(
    peers: Seq<PeerView>,
    parsed: Seq<ParsedContentId>,
    window: Option<LineageWindow>,
) -> bool {
    forall|i: int| 0 <= i < peers.len() ==> hint_key(#[trigger] peers[i], parsed, window) is None
}

/// Find what the identifier `id` encodes.
fn find_key(parsed: &[ParsedContentId], id: &[u8]) -> (found: Option<RevisionKey>)
    ensures
        found == parsed_key(parsed@, id@),
{
    let mut i: usize = 0;
    assert(parsed@.skip(0) =~= parsed@);
    while i < parsed.len()
        invariant
            i <= parsed.len(),
            parsed_key(parsed@.skip(i as int), id@) == parsed_key(parsed@, id@),
        decreases parsed.len() - i,
    {
        assert(parsed@.skip(i as int).drop_first() =~= parsed@.skip(i + 1));
        if bytes_eq(parsed[i].content_id.as_slice(), id) {
            return match &parsed[i].key {
                Ok(key) => Some(*key),
                Err(_) => None,
            };
        }
        i += 1;
    }
    None
}

/// Report whether a peer says that it holds our revision `id`.
fn peer_stores(peer: &Peer, id: &[u8]) -> (found: bool)
    ensures
        found == stores(peer@, id@),
{
    match &peer.requester_latest_stored_content {
        Some(content) => bytes_eq(content.content_id.as_slice(), id),
        None => false,
    }
}

/// Find the key of an older revision that a peer knows of but does not hold.
fn peer_hint(peer: &Peer, parsed: &[ParsedContentId], window: &Option<LineageWindow>) -> (key:
    Option<RevisionKey>)
    ensures
        key == hint_key(peer@, parsed@, *window),
{
    match &peer.requester_latest_known_content {
        None => None,
        Some(known) => match find_key(parsed, known.content_id.as_slice()) {
            None => None,
            Some(key) => {
                let in_scope = match window {
                    None => false,
                    Some(bounds) => crate::lineage::timestamp_requires_recovery(
                        key_timestamp(key),
                        bounds.node_initialized_at,
                        bounds.recovery_watermark,
                    ),
                };
                if in_scope && !peer_stores(peer, known.content_id.as_slice()) {
                    Some(key)
                } else {
                    None
                }
            },
        },
    }
}

/// Find the newest hint.
fn find_newest_hint(peers: &Vec<Peer>, parsed: &[ParsedContentId], window: &Option<LineageWindow>) -> (found:
    Option<(usize, RevisionKey)>)
    ensures
        match found {
            None => no_hint(peer_views(peers@), parsed@, *window),
            Some((best, key)) => newest_hint(peer_views(peers@), parsed@, *window, best as int)
                && hint_key(peer_views(peers@)[best as int], parsed@, *window) == Some(key),
        },
{
    let ghost views = peer_views(peers@);
    let mut found: Option<(usize, RevisionKey)> = None;
    let mut i: usize = 0;
    while i < peers.len()
        invariant
            i <= peers.len(),
            views == peer_views(peers@),
            match found {
                None => forall|k: int|
                    0 <= k < i ==> hint_key(#[trigger] views[k], parsed@, *window) is None,
                Some((best, key)) => {
                    &&& best < i
                    &&& hint_key(views[best as int], parsed@, *window) == Some(key)
                    &&& forall|k: int|
                        0 <= k < i ==> (hint_key(
                            #[trigger] views[k],
                            parsed@,
                            *window,
                        ) matches Some(other) ==> !key_before(key, other) && (k > best
                            ==> key_before(other, key)))
                },
            },
        decreases peers.len() - i,
    {
        assert(views[i as int] == peers@[i as int]@);
        if let Some(key) = peer_hint(&peers[i], parsed, window) {
            let better = match found {
                None => true,
                Some((_, best_key)) => !key_less(key, best_key),
            };
            if better {
                found = Some((i, key));
            }
        }
        i += 1;
    }
    found
}

/// PeerTally is what one pass over the peers on record counts.
struct PeerTally {
    storing_any: usize,
    storing_latest: usize,
    fresh: usize,
    scores: Vec<i64>,
    expiries: Vec<Option<i64>>,
}

/// Count the peers on record.
fn tally_peers(peers: &Vec<Peer>, current: &Option<CurrentContent>) -> (tally: PeerTally)
    ensures
        ({
            let views = peer_views(peers@);
            let id = current_id(*current);
            &&& tally.storing_any == count_peers(views, storing_any())
            &&& tally.storing_latest == count_peers(views, storing_latest(id))
            &&& tally.fresh == count_peers(views, storing_fresh(id))
            &&& tally.scores@ == mutual_scores(views)
            &&& tally.expiries@ == predicted_expiries(views, id)
        }),
{
    let ghost views = peer_views(peers@);
    let ghost id = current_id(*current);
    let mut tally = PeerTally {
        storing_any: 0,
        storing_latest: 0,
        fresh: 0,
        scores: Vec::new(),
        expiries: Vec::new(),
    };
    let mut i: usize = 0;
    assert(tally.scores@ =~= mutual_scores(views.take(0)));
    assert(tally.expiries@ =~= predicted_expiries(views.take(0), id));
    while i < peers.len()
        invariant
            i <= peers.len(),
            views == peer_views(peers@),
            id == current_id(*current),
            tally.storing_any == count_peers(views.take(i as int), storing_any()),
            tally.storing_latest == count_peers(views.take(i as int), storing_latest(id)),
            tally.fresh == count_peers(views.take(i as int), storing_fresh(id)),
            tally.storing_any <= i,
            tally.storing_latest <= i,
            tally.fresh <= i,
            tally.scores@ == mutual_scores(views.take(i as int)),
            tally.expiries@ == predicted_expiries(views.take(i as int), id),
        decreases peers.len() - i,
    {
        let peer = &peers[i];
        proof {
            assert(views[i as int] == peer@);
            assert(views.take(i + 1).drop_last() =~= views.take(i as int));
        }
        if peer.requester_latest_stored_content.is_some() {
            tally.storing_any = tally.storing_any + 1;
        }
        let latest = match current {
            Some(content) => peer_stores(peer, content.content_id.as_slice()),
            None => false,
        };
        if latest {
            tally.storing_latest = tally.storing_latest + 1;
            if peer.reachability == PeerReachability::Online {
                tally.fresh = tally.fresh + 1;
                tally.expiries.push(
                    if peer.pins_us {
                        None
                    } else {
                        Some(at_least_zero_i64(peer.score_seconds))
                    },
                );
            }
        }
        if peer_has_storage(peer) {
            tally.scores.push(peer.score_seconds);
        }
        i += 1;
    }
    assert(views.take(i as int) =~= views);
    tally
}

/// The id of the active revision.
pub open spec fn current_id(current: Option<CurrentContent>) -> Option<Seq<u8>> {
    match current {
        Some(content) => Some(content.content_id@),
        None => None,
    }
}

/// Picks the peers that say they hold any revision of ours.
pub open spec fn storing_any() -> spec_fn(PeerView) -> bool {
    |peer: PeerView| peer.requester_latest_stored_content is Some
}

/// Picks the peers that say they hold our active revision.
pub open spec fn storing_latest(current: Option<Seq<u8>>) -> spec_fn(PeerView) -> bool {
    |peer: PeerView| current matches Some(id) && stores(peer, id)
}

/// Picks the reachable peers that say they hold our active revision.
pub open spec fn storing_fresh(current: Option<Seq<u8>>) -> spec_fn(PeerView) -> bool {
    |peer: PeerView| fresh_replica(peer, current)
}

/// Picks the entries with an open client.
pub open spec fn with_client() -> spec_fn(PeerInventoryEntryView) -> bool {
    |entry: PeerInventoryEntryView| entry.status == PeerInventoryStatus::Connected
}

/// Picks the entries whose bytes we hold.
pub open spec fn with_bytes() -> spec_fn(PeerInventoryEntryView) -> bool {
    |entry: PeerInventoryEntryView| entry.stored_content_bytes > 0
}

/// Count the entries with an open client, and those whose bytes we hold.
fn tally_entries(inventory: &[PeerInventoryEntry]) -> (tally: (usize, usize))
    ensures
        tally.0 == count_entries(inventory_views(inventory@), with_client()),
        tally.1 == count_entries(inventory_views(inventory@), with_bytes()),
{
    let ghost views = inventory_views(inventory@);
    let mut connected: usize = 0;
    let mut mirrored: usize = 0;
    let mut i: usize = 0;
    while i < inventory.len()
        invariant
            i <= inventory.len(),
            views == inventory_views(inventory@),
            connected == count_entries(views.take(i as int), with_client()),
            mirrored == count_entries(views.take(i as int), with_bytes()),
            connected <= i,
            mirrored <= i,
        decreases inventory.len() - i,
    {
        let entry = &inventory[i];
        proof {
            assert(views[i as int] == entry@);
            assert(views.take(i + 1).drop_last() =~= views.take(i as int));
        }
        if entry.status == PeerInventoryStatus::Connected {
            connected = connected + 1;
        }
        if entry.stored_content_bytes > 0 {
            mirrored = mirrored + 1;
        }
        i += 1;
    }
    assert(views.take(i as int) =~= views);
    (connected, mirrored)
}

/// Whether a point in time fits into a message timestamp.
pub open spec fn encodable(at: Option<(i64, i64)>) -> bool {
    at matches Some(time) ==> 0 <= time.1 < NANOS_PER_SECOND
}

/// The message timestamp of an optional point in time.
pub open spec fn encoded(at: Option<(i64, i64)>) -> Option<ProtoTimestamp> {
    match at {
        Some(time) => Some(ProtoTimestamp { seconds: time.0, nanos: time.1 as i32 }),
        None => None,
    }
}

/// Encode an optional point in time.
fn encode_time(at: Option<(i64, i64)>) -> (outcome: Result<Option<ProtoTimestamp>, Status>)
    ensures
        if encodable(at) {
            outcome matches Ok(timestamp) && timestamp == encoded(at)
        } else {
            fails_with(
                outcome,
                invalid_argument("timestamp nanoseconds must be below one second"@),
            )
        },
{
    match at {
        None => Ok(None),
        Some(time) => match proto_timestamp_from_parts(time.0, time.1) {
            Ok(timestamp) => Ok(Some(timestamp)),
            Err(status) => Err(status),
        },
    }
}

/// The recovery window that a snapshot tells.
pub open spec fn window_of(snapshot: LocalStoreSnapshot) -> Option<LineageWindow> {
    match snapshot.node_initialized_at {
        Some(node_initialized_at) => Some(
            LineageWindow { node_initialized_at, recovery_watermark: snapshot.recovery_watermark },
        ),
        None => None,
    }
}

/// Whether `hint` is the newest revision of ours that is still to be recovered
/// and that peers know of but do not hold. Only recovery mode asks for it.
pub open spec fn hint_rule(
    snapshot: LocalStoreSnapshot,
    parsed: Seq<ParsedContentId>,
    hint: Option<(Seq<u8>, (i64, i64))>,
) -> bool {
    let peers = peer_views(snapshot.tracked_peers@);
    let window = window_of(snapshot);
    match hint {
        None => !snapshot.recovery_mode_enabled || no_hint(peers, parsed, window),
        Some((id, time)) => snapshot.recovery_mode_enabled && exists|best: int| #[trigger]
            newest_hint(peers, parsed, window, best) && id
                == peers[best].requester_latest_known_content->0.content_id && time == key_time(
                hint_key(peers[best], parsed, window)->0,
            ),
    }
}

/// The content of a hint.
pub open spec fn hint_view(hint: Option<(Vec<u8>, (i64, i64))>) -> Option<(Seq<u8>, (i64, i64))> {
    match hint {
        Some((id, time)) => Some((id@, time)),
        None => None,
    }
}

/// Find the hint for recovery mode.
fn recovery_hint(snapshot: &LocalStoreSnapshot, parsed: &[ParsedContentId]) -> (hint: Option<
    (Vec<u8>, (i64, i64)),
>)
    ensures
        hint_rule(*snapshot, parsed@, hint_view(hint)),
{
    if !snapshot.recovery_mode_enabled {
        return None;
    }
    let window = match snapshot.node_initialized_at {
        Some(node_initialized_at) => Some(
            LineageWindow { node_initialized_at, recovery_watermark: snapshot.recovery_watermark },
        ),
        None => None,
    };
    assert(window == window_of(*snapshot));
    match find_newest_hint(&snapshot.tracked_peers, parsed, &window) {
        None => None,
        Some((best, key)) => {
            assert(peer_views(snapshot.tracked_peers@)[best as int]
                == snapshot.tracked_peers@[best as int]@);
            match &snapshot.tracked_peers[best].requester_latest_known_content {
                Some(known) => Some(
                    (bytes_copy(known.content_id.as_slice()), key_timestamp(key)),
                ),
                None => {
                    assert(false);
                    None
                },
            }
        },
    }
}

/// The revision recovered last, which only recovery mode shows.
pub open spec fn shown_recovered(snapshot: LocalStoreSnapshot) -> Option<RecoveredRevision> {
    if snapshot.recovery_mode_enabled {
        snapshot.latest_recovered_revision
    } else {
        None
    }
}

/// Whether `summary` describes the content and replicas of a snapshot.
pub open spec fn describes_content(
    summary: StateLocalSummary,
    snapshot: LocalStoreSnapshot,
    min_replicas: int,
) -> bool {
    let peers = peer_views(snapshot.tracked_peers@);
    let id = current_id(snapshot.current_content);
    let fresh = clamp_i64(count_peers(peers, storing_fresh(id)));
    &&& summary.content.file_count == snapshot.file_count
    &&& summary.content.total_size_bytes == snapshot.total_file_bytes
    &&& summary.content.last_updated_at == match snapshot.current_content {
        Some(content) => Some(file_timestamp(content.created_at_secs, content.created_at_nanos)),
        None => None,
    }
    &&& summary.content.has_pending_update == (snapshot.current_content is Some && fresh
        < at_least_zero(min_replicas))
    &&& summary.durability.predicted_fresh_replicas_now == fresh
    &&& summary.durability.predicted_min_replicas_target == at_least_zero(min_replicas)
    &&& is_horizon(
        summary.durability.predicted_replica_horizon@,
        predicted_expiries(peers, id),
    )
}

/// Whether `summary` describes the peers of a snapshot and an inventory.
pub open spec fn describes_peers(
    summary: StatePeerSummary,
    snapshot: LocalStoreSnapshot,
    inventory: Seq<PeerInventoryEntryView>,
) -> bool {
    let peers = peer_views(snapshot.tracked_peers@);
    let id = current_id(snapshot.current_content);
    let scores = mutual_scores(peers);
    &&& summary.total_known == clamp_i64(inventory.len() as int)
    &&& summary.connected == clamp_i64(count_entries(inventory, with_client()))
    &&& summary.mirrored_peers == clamp_i64(count_entries(inventory, with_bytes()))
    &&& summary.storing_our_data == clamp_i64(count_peers(peers, storing_any()))
    &&& summary.storing_latest_our_data == clamp_i64(count_peers(peers, storing_latest(id)))
    &&& summary.mutual_storage_peers == clamp_i64(scores.len() as int)
    &&& summary.mean_mutual_storage_score_seconds == if scores.len() == 0 {
        0
    } else {
        truncated_quotient(score_sum(scores), scores.len() as int)
    }
    &&& summary.mirrored_total_size_bytes == clamp_i64(distinct_cached_bytes(peers))
}

/// Whether `summary` describes the recovery state of a snapshot.
pub open spec fn describes_recovery(
    summary: StateRecoverySummary,
    snapshot: LocalStoreSnapshot,
    hint: Option<(Seq<u8>, (i64, i64))>,
    blocked: Option<Seq<char>>,
) -> bool {
    let recovered = shown_recovered(snapshot);
    &&& summary.recovery_mode_enabled == snapshot.recovery_mode_enabled
    &&& summary.node_initialized_at == encoded(snapshot.node_initialized_at)
    &&& summary.recovery_watermark_at == encoded(snapshot.recovery_watermark)
    &&& summary.publish_blocked_reason@ == match blocked {
        Some(reason) => reason,
        None => Seq::<char>::empty(),
    }
    &&& summary.latest_recovered_content_id@ == match recovered {
        Some(revision) => revision.content_id@,
        None => Seq::<u8>::empty(),
    }
    &&& summary.latest_recovered_at == match recovered {
        Some(revision) => revision.created_at,
        None => None,
    }
    &&& summary.newer_known_content_id@ == match hint {
        Some((id, _)) => id,
        None => Seq::<u8>::empty(),
    }
    &&& summary.newer_known_at == match hint {
        Some((_, time)) => encoded(Some(time)),
        None => None,
    }
}

/// The time of a hint.
pub open spec fn hint_time(hint: Option<(Seq<u8>, (i64, i64))>) -> Option<(i64, i64)> {
    match hint {
        Some((_, time)) => Some(time),
        None => None,
    }
}

/// Whether `outcome` is the state summary, given the `hint` for recovery mode.
pub open spec fn summary_rule(
    snapshot: LocalStoreSnapshot,
    inventory: Seq<PeerInventoryEntryView>,
    min_replicas: int,
    blocked: Option<Seq<char>>,
    hint: Option<(Seq<u8>, (i64, i64))>,
    outcome: Result<StateLocalSummary, Status>,
) -> bool {
    if encodable(snapshot.node_initialized_at) && encodable(snapshot.recovery_watermark)
        && encodable(hint_time(hint)) {
        outcome matches Ok(summary) && describes_content(summary, snapshot, min_replicas)
            && describes_peers(summary.peers, snapshot, inventory) && describes_recovery(
            summary.recovery,
            snapshot,
            hint,
            blocked,
        )
    } else {
        fails_with(outcome, invalid_argument("timestamp nanoseconds must be below one second"@))
    }
}

/// Build the local-only state summary shown by `bbcli state`.
///
/// `parsed` tells what the identifiers of the revisions encode that peers say
/// they know of.
pub fn local_state_summary(
    snapshot: &LocalStoreSnapshot,
    inventory: &[PeerInventoryEntry],
    min_replicas: i64,
    publish_blocked_reason: Option<String>,
    parsed: &[ParsedContentId],
) -> (outcome: Result<StateLocalSummary, Status>)
    ensures
        exists|hint: Option<(Seq<u8>, (i64, i64))>| #[trigger]
            hint_rule(*snapshot, parsed@, hint) && summary_rule(
                *snapshot,
                inventory_views(inventory@),
                min_replicas as int,
                match publish_blocked_reason {
                    Some(reason) => Some(reason@),
                    None => None,
                },
                hint,
                outcome,
            ),
{
    let tally = tally_peers(&snapshot.tracked_peers, &snapshot.current_content);
    let entries = tally_entries(inventory);
    let hint = recovery_hint(snapshot, parsed);
    let ghost found = hint_view(hint);
    assert(hint_rule(*snapshot, parsed@, found));
    let (newer_known_content_id, newer_time) = match hint {
        Some((id, time)) => (id, Some(time)),
        None => (Vec::new(), None),
    };
    let node_initialized_at = match encode_time(snapshot.node_initialized_at) {
        Ok(at) => at,
        Err(status) => return Err(status),
    };
    let recovery_watermark_at = match encode_time(snapshot.recovery_watermark) {
        Ok(at) => at,
        Err(status) => return Err(status),
    };
    let newer_known_at = match encode_time(newer_time) {
        Ok(at) => at,
        Err(status) => return Err(status),
    };
    let fresh = i64_from_usize(tally.fresh);
    let target = at_least_zero_i64(min_replicas);
    let last_updated_at = match &snapshot.current_content {
        Some(content) => Some(
            proto_timestamp_from_file_parts(content.created_at_secs, content.created_at_nanos),
        ),
        None => None,
    };
    let mut latest_recovered_content_id: Vec<u8> = Vec::new();
    let mut latest_recovered_at: Option<ProtoTimestamp> = None;
    if snapshot.recovery_mode_enabled {
        if let Some(revision) = &snapshot.latest_recovered_revision {
            latest_recovered_content_id = bytes_copy(revision.content_id.as_slice());
            latest_recovered_at = revision.created_at;
        }
    }
    let reason = match publish_blocked_reason {
        Some(reason) => reason,
        None => String::new(),
    };
    let summary = StateLocalSummary {
        content: StateContentSummary {
            file_count: snapshot.file_count,
            total_size_bytes: snapshot.total_file_bytes,
            last_updated_at,
            has_pending_update: snapshot.current_content.is_some() && fresh < target,
        },
        peers: StatePeerSummary {
            total_known: i64_from_usize(inventory.len()),
            connected: i64_from_usize(entries.0),
            storing_our_data: i64_from_usize(tally.storing_any),
            storing_latest_our_data: i64_from_usize(tally.storing_latest),
            mutual_storage_peers: i64_from_usize(tally.scores.len()),
            mean_mutual_storage_score_seconds: mean_score_seconds(tally.scores.as_slice()),
            mirrored_peers: i64_from_usize(entries.1),
            mirrored_total_size_bytes: mirrored_total_size_bytes_from_tracked_peers(
                snapshot.tracked_peers.as_slice(),
            ),
        },
        durability: StateDurabilitySummary {
            predicted_fresh_replicas_now: fresh,
            predicted_min_replicas_target: target,
            predicted_replica_horizon: replica_horizon_points(tally.expiries.as_slice()),
        },
        recovery: StateRecoverySummary {
            recovery_mode_enabled: snapshot.recovery_mode_enabled,
            node_initialized_at,
            recovery_watermark_at,
            publish_blocked_reason: reason,
            latest_recovered_content_id,
            latest_recovered_at,
            newer_known_content_id,
            newer_known_at,
        },
    };
    proof {
        assert(summary.recovery.latest_recovered_content_id@ =~= match shown_recovered(*snapshot) {
            Some(revision) => revision.content_id@,
            None => Seq::<u8>::empty(),
        });
        assert(summary.recovery.newer_known_content_id@ =~= match found {
            Some((id, _)) => id,
            None => Seq::<u8>::empty(),
        });
    }
    Ok(summary)
}

/// A peer counts as a fresh replica only if it also counts as holding our
/// active revision, and such a peer also counts as holding our data.
pub proof fn law_replica_counts_nest(peers: Seq<PeerView>, current: Option<Seq<u8>>)
    ensures
        0 <= count_peers(peers, storing_fresh(current)) <= count_peers(
            peers,
            storing_latest(current),
        ) <= count_peers(peers, storing_any()) <= peers.len(),
        predicted_expiries(peers, current).len() == count_peers(peers, storing_fresh(current)),
    decreases peers.len(),
{
    if peers.len() > 0 {
        law_replica_counts_nest(peers.drop_last(), current);
    }
}

/// The peers on record that `counts` picks are counted one by one.
proof fn lemma_count_peers(
    peers: Seq<Peer>,
    counts: spec_fn(PeerView) -> bool,
    picks: spec_fn(Peer) -> bool,
)
    requires
        forall|peer: Peer| #[trigger] picks(peer) <==> counts(peer@),
    ensures
        count_peers(peer_views(peers), counts) == peers.filter(picks).len(),
    decreases peers.len(),
{
    reveal(Seq::filter);
    if peers.len() > 0 {
        lemma_count_peers(peers.drop_last(), counts, picks);
        assert(peer_views(peers).drop_last() =~= peer_views(peers.drop_last()));
        assert(picks(peers.last()) <==> counts(peers.last()@));
    }
}

/// The inventory entries that `counts` picks are counted one by one.
proof fn lemma_count_entries(
    entries: Seq<PeerInventoryEntry>,
    counts: spec_fn(PeerInventoryEntryView) -> bool,
    picks: spec_fn(PeerInventoryEntry) -> bool,
)
    requires
        forall|entry: PeerInventoryEntry| #[trigger] picks(entry) <==> counts(entry@),
    ensures
        count_entries(inventory_views(entries), counts) == entries.filter(picks).len(),
    decreases entries.len(),
{
    reveal(Seq::filter);
    if entries.len() > 0 {
        lemma_count_entries(entries.drop_last(), counts, picks);
        assert(inventory_views(entries).drop_last() =~= inventory_views(entries.drop_last()));
        assert(picks(entries.last()) <==> counts(entries.last()@));
    }
}

/// Picks the peers that were reached last and say they can return our revision `id`.
pub open spec fn online_holder(current: Option<CurrentContent>) -> spec_fn(Peer) -> bool {
    |peer: Peer|
        current is Some && peer.reachability is Online && (
        peer.requester_latest_stored_content matches Some(content) && content.content_id@
            == current->0.content_id@)
}

/// When a peer drops our revision: never if it pins us, or else once its score
/// has run down.
pub open spec fn drops_at() -> spec_fn(Peer) -> Option<i64> {
    |peer: Peer|
        if peer.pins_us {
            None
        } else if peer.score_seconds < 0 {
            Some(0i64)
        } else {
            Some(peer.score_seconds)
        }
}

/// The predicted expiries are those of the reachable holders, in order.
proof fn lemma_predicted_expiries(peers: Seq<Peer>, current: Option<CurrentContent>)
    ensures
        predicted_expiries(peer_views(peers), current_id(current)) == peers.filter(
            online_holder(current),
        ).map_values(drops_at()),
    decreases peers.len(),
{
    reveal(Seq::filter);
    if peers.len() > 0 {
        lemma_predicted_expiries(peers.drop_last(), current);
        assert(peer_views(peers).drop_last() =~= peer_views(peers.drop_last()));
    }
    assert(predicted_expiries(peer_views(peers), current_id(current)) =~= peers.filter(
        online_holder(current),
    ).map_values(drops_at()));
}

/// The predicted horizon tells of exactly the peers that were reached last and
/// say they can return our active revision: of those that pin us as never
/// dropping it, and of the others once their score has run down. Whether we pin
/// a peer makes no difference. They are also the fresh replicas, and an update
/// is pending while there are fewer of them than the target.
pub proof fn law_horizon_follows_who_pins_us(
    snapshot: &LocalStoreSnapshot,
    inventory: &[PeerInventoryEntry],
    min_replicas: i64,
    reason: Option<String>,
    parsed: &[ParsedContentId],
    summary: StateLocalSummary,
)
    requires
        snapshot.tracked_peers@.len() <= i64::MAX,
        call_ensures(
            local_state_summary,
            (snapshot, inventory, min_replicas, reason, parsed),
            Ok(summary),
        ),
    ensures
        ({
            let holders = snapshot.tracked_peers@.filter(online_holder(snapshot.current_content));
            let target = if min_replicas < 0 {
                0
            } else {
                min_replicas as int
            };
            &&& crate::horizon::tells_expiries(
                summary.durability.predicted_replica_horizon@,
                holders.map_values(drops_at()),
            )
            &&& summary.durability.predicted_fresh_replicas_now == holders.len()
            &&& summary.durability.predicted_min_replicas_target == target
            &&& summary.content.has_pending_update <==> snapshot.current_content is Some
                && holders.len() < target
        }),
{
    let peers = snapshot.tracked_peers@;
    let current = snapshot.current_content;
    lemma_filter_no_longer(peers, online_holder(current));
    lemma_predicted_expiries(peers, current);
    lemma_count_peers(peers, storing_fresh(current_id(current)), online_holder(current));
    let expiries = predicted_expiries(peer_views(peers), current_id(current));
    let points = summary.durability.predicted_replica_horizon@;
    assert(is_horizon(points, expiries));
    let sorted = choose|sorted: Seq<int>| #[trigger]
        crate::horizon::sorts(sorted, crate::horizon::finite_expiries(expiries)) && points
            == crate::horizon::finite_points(sorted, expiries.len() as int)
            + crate::horizon::never_points(crate::horizon::never_count(expiries) as int);
    crate::horizon::lemma_tells_expiries(points, expiries, sorted);
}

/// Picking from a list does not make it longer.
proof fn lemma_filter_no_longer<A>(items: Seq<A>, picks: spec_fn(A) -> bool)
    ensures
        items.filter(picks).len() <= items.len(),
    decreases items.len(),
{
    reveal(Seq::filter);
    if items.len() > 0 {
        lemma_filter_no_longer(items.drop_last(), picks);
    }
}

/// The counts of the summary are the numbers of peers on record or in the
/// inventory that they speak of.
pub proof fn law_summary_counts_each_kind_of_peer(
    snapshot: &LocalStoreSnapshot,
    inventory: &[PeerInventoryEntry],
    min_replicas: i64,
    reason: Option<String>,
    parsed: &[ParsedContentId],
    summary: StateLocalSummary,
)
    requires
        snapshot.tracked_peers@.len() <= i64::MAX,
        inventory@.len() <= i64::MAX,
        call_ensures(
            local_state_summary,
            (snapshot, inventory, min_replicas, reason, parsed),
            Ok(summary),
        ),
    ensures
        summary.peers.total_known == inventory@.len(),
        summary.peers.connected == inventory@.filter(
            |entry: PeerInventoryEntry| entry.status is Connected,
        ).len(),
        summary.peers.mirrored_peers == inventory@.filter(
            |entry: PeerInventoryEntry| entry.stored_content_bytes > 0,
        ).len(),
        summary.peers.storing_our_data == snapshot.tracked_peers@.filter(
            |peer: Peer| peer.requester_latest_stored_content is Some,
        ).len(),
        summary.peers.storing_latest_our_data == snapshot.tracked_peers@.filter(
            |peer: Peer|
                snapshot.current_content is Some && (
                peer.requester_latest_stored_content matches Some(content) && content.content_id@
                    == snapshot.current_content->0.content_id@),
        ).len(),
        summary.content.file_count == snapshot.file_count,
        summary.content.total_size_bytes == snapshot.total_file_bytes,
        summary.content.last_updated_at is Some <==> snapshot.current_content is Some,
{
    let peers = snapshot.tracked_peers@;
    let entries = inventory@;
    let current = snapshot.current_content;
    let connected = |entry: PeerInventoryEntry| entry.status is Connected;
    let mirrored = |entry: PeerInventoryEntry| entry.stored_content_bytes > 0;
    let any = |peer: Peer| peer.requester_latest_stored_content is Some;
    let latest = |peer: Peer|
        snapshot.current_content is Some && (
        peer.requester_latest_stored_content matches Some(content) && content.content_id@
            == snapshot.current_content->0.content_id@);
    lemma_count_entries(entries, with_client(), connected);
    lemma_count_entries(entries, with_bytes(), mirrored);
    lemma_count_peers(peers, storing_any(), any);
    lemma_count_peers(peers, storing_latest(current_id(current)), latest);
    lemma_filter_no_longer(entries, connected);
    lemma_filter_no_longer(entries, mirrored);
    lemma_filter_no_longer(peers, any);
    lemma_filter_no_longer(peers, latest);
}

/// The recovery part repeats what is on record. Only recovery mode shows the
/// revision that was recovered last, and hints at a newer one.
pub proof fn law_summary_repeats_recovery_state(
    snapshot: &LocalStoreSnapshot,
    inventory: &[PeerInventoryEntry],
    min_replicas: i64,
    reason: Option<String>,
    parsed: &[ParsedContentId],
    summary: StateLocalSummary,
)
    requires
        call_ensures(
            local_state_summary,
            (snapshot, inventory, min_replicas, reason, parsed),
            Ok(summary),
        ),
    ensures
        summary.recovery.recovery_mode_enabled == snapshot.recovery_mode_enabled,
        match snapshot.node_initialized_at {
            Some(at) => summary.recovery.node_initialized_at matches Some(shown) && shown.seconds
                == at.0 && shown.nanos == at.1,
            None => summary.recovery.node_initialized_at is None,
        },
        match snapshot.recovery_watermark {
            Some(at) => summary.recovery.recovery_watermark_at matches Some(shown) && shown.seconds
                == at.0 && shown.nanos == at.1,
            None => summary.recovery.recovery_watermark_at is None,
        },
        match reason {
            Some(text) => summary.recovery.publish_blocked_reason@ == text@,
            None => summary.recovery.publish_blocked_reason@.len() == 0,
        },
        snapshot.recovery_mode_enabled && snapshot.latest_recovered_revision is Some
            ==> summary.recovery.latest_recovered_content_id@
            == snapshot.latest_recovered_revision->0.content_id@
            && summary.recovery.latest_recovered_at
            == snapshot.latest_recovered_revision->0.created_at,
        !snapshot.recovery_mode_enabled || snapshot.latest_recovered_revision is None
            ==> summary.recovery.latest_recovered_content_id@.len() == 0
            && summary.recovery.latest_recovered_at is None,
        !snapshot.recovery_mode_enabled ==> summary.recovery.newer_known_content_id@.len() == 0
            && summary.recovery.newer_known_at is None,
{
}

/// What recovery mode hints at is a revision that some peer knows of and cannot
/// return, and that is older than this node and not recovered yet.
pub proof fn law_hint_is_older_and_not_held(
    snapshot: LocalStoreSnapshot,
    parsed: Seq<ParsedContentId>,
    hint: Option<(Seq<u8>, (i64, i64))>,
)
    requires
        hint_rule(snapshot, parsed, hint),
    ensures
        hint matches Some((id, time)) ==> {
            &&& snapshot.recovery_mode_enabled
            &&& snapshot.node_initialized_at matches Some(setup) && crate::lineage::is_earlier(
                time,
                setup,
            )
            &&& snapshot.recovery_watermark matches Some(watermark) ==> crate::lineage::is_earlier(
                watermark,
                time,
            )
            &&& exists|i: int|
                0 <= i < snapshot.tracked_peers@.len() && (
                #[trigger] snapshot.tracked_peers@[i]).requester_latest_known_content is Some
                    && snapshot.tracked_peers@[i].requester_latest_known_content->0.content_id@ == id
                    && !(
                snapshot.tracked_peers@[i].requester_latest_stored_content matches Some(stored)
                    && stored.content_id@ == id)
        },
{
    if let Some((id, time)) = hint {
        let peers = peer_views(snapshot.tracked_peers@);
        let window = window_of(snapshot);
        let best = choose|best: int| #[trigger]
            newest_hint(peers, parsed, window, best) && id
                == peers[best].requester_latest_known_content->0.content_id && time == key_time(
                hint_key(peers[best], parsed, window)->0,
            );
        assert(peers[best] == snapshot.tracked_peers@[best]@);
    }
}

/// Picks the peers with which anything was ever stored either way.
pub open spec fn shares_storage() -> spec_fn(Peer) -> bool {
    |peer: Peer|
        peer.score_measured_at > 0 || peer.score_seconds != 0 || peer.latest_known_content is Some
            || peer.latest_cached_content is Some || peer.requester_latest_known_content is Some
            || peer.requester_latest_stored_content is Some
}

/// The scores that are averaged are those of the peers that share storage.
proof fn lemma_mutual_scores(peers: Seq<Peer>)
    ensures
        mutual_scores(peer_views(peers)) == peers.filter(shares_storage()).map_values(
            |peer: Peer| peer.score_seconds,
        ),
    decreases peers.len(),
{
    reveal(Seq::filter);
    let score = |peer: Peer| peer.score_seconds;
    if peers.len() > 0 {
        let rest = peers.drop_last();
        lemma_mutual_scores(rest);
        assert(peer_views(peers).drop_last() =~= peer_views(rest));
        assert(peer_views(peers).last() == peers.last()@);
        if shares_storage()(peers.last()) {
            assert(peers.filter(shares_storage()) == rest.filter(shares_storage()).push(
                peers.last(),
            ));
        }
    }
    assert(mutual_scores(peer_views(peers)) =~= peers.filter(shares_storage()).map_values(score));
}

/// Mutual storage counts the peers with which anything was ever stored either
/// way, and its score is their mean; mirrored bytes are those of all records.
pub proof fn law_summary_averages_over_storage_peers(
    snapshot: &LocalStoreSnapshot,
    inventory: &[PeerInventoryEntry],
    min_replicas: i64,
    reason: Option<String>,
    parsed: &[ParsedContentId],
    summary: StateLocalSummary,
    scores: &[i64],
    mean: i64,
    records: &[Peer],
    mirrored: i64,
)
    requires
        snapshot.tracked_peers@.len() <= i64::MAX,
        call_ensures(
            local_state_summary,
            (snapshot, inventory, min_replicas, reason, parsed),
            Ok(summary),
        ),
        scores@ == snapshot.tracked_peers@.filter(shares_storage()).map_values(
            |peer: Peer| peer.score_seconds,
        ),
        call_ensures(crate::accounting::mean_score_seconds, (scores,), mean),
        records@ == snapshot.tracked_peers@,
        call_ensures(
            crate::accounting::mirrored_total_size_bytes_from_tracked_peers,
            (records,),
            mirrored,
        ),
    ensures
        summary.peers.mutual_storage_peers == scores@.len(),
        summary.peers.mean_mutual_storage_score_seconds == mean,
        summary.peers.mirrored_total_size_bytes == mirrored,
{
    lemma_mutual_scores(snapshot.tracked_peers@);
    lemma_filter_no_longer(snapshot.tracked_peers@, shares_storage());
}

/// Whether the first of `parsed` with the identifier `id` encodes `key`.
pub open spec fn encodes(parsed: Seq<ParsedContentId>, id: Seq<u8>, key: RevisionKey) -> bool {
    exists|m: int| #[trigger]
        first_parsed(parsed, id, m) && parsed[m].key == Ok::<RevisionKey, StorageError>(key)
}

/// Whether `parsed[m]` is the first with the identifier `id`.
pub open spec fn first_parsed(parsed: Seq<ParsedContentId>, id: Seq<u8>, m: int) -> bool {
    &&& 0 <= m < parsed.len()
    &&& parsed[m].content_id@ == id
    &&& forall|j: int| 0 <= j < m ==> (#[trigger] parsed[j]).content_id@ != id
}

/// The first parsed identifier counts.
proof fn lemma_parsed_key(parsed: Seq<ParsedContentId>, id: Seq<u8>)
    ensures
        forall|key: RevisionKey| #[trigger]
            encodes(parsed, id, key) <==> parsed_key(parsed, id) == Some(key),
    decreases parsed.len(),
{
    if parsed.len() > 0 {
        let rest = parsed.drop_first();
        lemma_parsed_key(rest, id);
        assert forall|key: RevisionKey| #[trigger] encodes(parsed, id, key) <==> parsed_key(
            parsed,
            id,
        ) == Some(key) by {
            if parsed[0].content_id@ == id {
                assert(first_parsed(parsed, id, 0));
                if encodes(parsed, id, key) {
                    let m = choose|m: int| #[trigger]
                        first_parsed(parsed, id, m) && parsed[m].key == Ok::<
                            RevisionKey,
                            StorageError,
                        >(key);
                    if m > 0 {
                        assert(parsed[0].content_id@ != id);
                    }
                }
            } else {
                if encodes(parsed, id, key) {
                    let m = choose|m: int| #[trigger]
                        first_parsed(parsed, id, m) && parsed[m].key == Ok::<
                            RevisionKey,
                            StorageError,
                        >(key);
                    assert forall|j: int| 0 <= j < m - 1 implies (#[trigger] rest[j]).content_id@
                        != id by {
                        assert(rest[j] == parsed[j + 1]);
                    }
                    assert(rest[m - 1] == parsed[m]);
                    assert(first_parsed(rest, id, m - 1));
                    assert(encodes(rest, id, key));
                }
                if encodes(rest, id, key) {
                    let m = choose|m: int| #[trigger]
                        first_parsed(rest, id, m) && rest[m].key == Ok::<RevisionKey, StorageError>(
                            key,
                        );
                    assert forall|j: int| 0 <= j < m + 1 implies (#[trigger] parsed[j]).content_id@
                        != id by {
                        if j > 0 {
                            assert(parsed[j] == rest[j - 1]);
                        }
                    }
                    assert(rest[m] == parsed[m + 1]);
                    assert(first_parsed(parsed, id, m + 1));
                }
            }
        }
    }
}

/// Whether a peer knows of an older revision of ours with `key` that is still to
/// be recovered and that it cannot return.
pub open spec fn hints_at(
    peer: Peer,
    snapshot: LocalStoreSnapshot,
    parsed: Seq<ParsedContentId>,
    key: RevisionKey,
) -> bool {
    &&& peer.requester_latest_known_content matches Some(known)
    &&& encodes(parsed, known.content_id@, key)
    &&& snapshot.node_initialized_at matches Some(setup) && crate::lineage::is_earlier(
        crate::lineage::made_at(key),
        setup,
    )
    &&& snapshot.recovery_watermark matches Some(watermark) ==> crate::lineage::is_earlier(
        watermark,
        crate::lineage::made_at(key),
    )
    &&& !(peer.requester_latest_stored_content matches Some(stored) && stored.content_id@
        == known.content_id@)
}

/// In recovery mode the summary names a revision that some peer hints at, with
/// the time of that revision, and no peer hints at a newer one; where no peer
/// hints at any, and outside recovery mode, it names none.
pub proof fn law_summary_names_the_newest_hint(
    snapshot: &LocalStoreSnapshot,
    inventory: &[PeerInventoryEntry],
    min_replicas: i64,
    reason: Option<String>,
    parsed: &[ParsedContentId],
    summary: StateLocalSummary,
    i: int,
    key: RevisionKey,
)
    requires
        call_ensures(
            local_state_summary,
            (snapshot, inventory, min_replicas, reason, parsed),
            Ok(summary),
        ),
    ensures
        summary.recovery.newer_known_at is Some ==> snapshot.recovery_mode_enabled && exists|
            best: int,
            found: RevisionKey,
        | #[trigger]
            names_hint(*snapshot, parsed@, summary, best, found),
        snapshot.recovery_mode_enabled && 0 <= i < snapshot.tracked_peers@.len() && hints_at(
            snapshot.tracked_peers@[i],
            *snapshot,
            parsed@,
            key,
        ) ==> exists|best: int, found: RevisionKey| #[trigger]
            names_hint(*snapshot, parsed@, summary, best, found) && crate::recovery::no_newer(
                key,
                found,
            ),
{
    let peers = peer_views(snapshot.tracked_peers@);
    let window = window_of(*snapshot);
    let records = snapshot.tracked_peers@;
    let hint = choose|hint: Option<(Seq<u8>, (i64, i64))>| #[trigger]
        hint_rule(*snapshot, parsed@, hint) && summary_rule(
            *snapshot,
            inventory_views(inventory@),
            min_replicas as int,
            match reason {
                Some(text) => Some(text@),
                None => None,
            },
            hint,
            Ok(summary),
        );
    let found_one = snapshot.recovery_mode_enabled && 0 <= i < records.len() && hints_at(
        records[i],
        *snapshot,
        parsed@,
        key,
    );
    if found_one {
        lemma_parsed_key(parsed@, records[i].requester_latest_known_content->0.content_id@);
        assert(peers[i] == records[i]@);
        assert(hint_key(peers[i], parsed@, window) == Some(key));
    }
    if let Some((id, time)) = hint {
        let best = choose|best: int| #[trigger]
            newest_hint(peers, parsed@, window, best) && id
                == peers[best].requester_latest_known_content->0.content_id && time == key_time(
                hint_key(peers[best], parsed@, window)->0,
            );
        let found = hint_key(peers[best], parsed@, window)->0;
        assert(peers[best] == records[best]@);
        lemma_parsed_key(parsed@, records[best].requester_latest_known_content->0.content_id@);
        assert(names_hint(*snapshot, parsed@, summary, best, found));
        if found_one {
            assert(!key_before(found, key));
        }
    }
}

/// Whether the summary names what peer `best` hints at.
pub open spec fn names_hint(
    snapshot: LocalStoreSnapshot,
    parsed: Seq<ParsedContentId>,
    summary: StateLocalSummary,
    best: int,
    found: RevisionKey,
) -> bool {
    &&& 0 <= best < snapshot.tracked_peers@.len()
    &&& hints_at(snapshot.tracked_peers@[best], snapshot, parsed, found)
    &&& summary.recovery.newer_known_content_id@
        == snapshot.tracked_peers@[best].requester_latest_known_content->0.content_id@
    &&& summary.recovery.newer_known_at matches Some(shown) && shown.seconds
        == crate::lineage::made_at(found).0 && shown.nanos == found.created_at_nanos
}

/// The state is summed up unless a point in time on record cannot be shown, and
/// the active revision is shown with the time at which it was made.
pub proof fn law_summary_needs_sound_times(
    snapshot: &LocalStoreSnapshot,
    inventory: &[PeerInventoryEntry],
    min_replicas: i64,
    reason: Option<String>,
    parsed: &[ParsedContentId],
    outcome: Result<StateLocalSummary, Status>,
)
    requires
        call_ensures(
            local_state_summary,
            (snapshot, inventory, min_replicas, reason, parsed),
            outcome,
        ),
    ensures
        ({
            let sound = (snapshot.node_initialized_at matches Some(at) ==> 0 <= at.1 < 1_000_000_000)
                && (snapshot.recovery_watermark matches Some(at) ==> 0 <= at.1 < 1_000_000_000);
            &&& !sound ==> outcome is Err
            &&& sound && !snapshot.recovery_mode_enabled ==> outcome is Ok
        }),
        outcome matches Ok(summary) ==> (snapshot.current_content matches Some(content) ==> (
        content.created_at_secs <= i64::MAX && content.created_at_nanos < 1_000_000_000
            ==> (summary.content.last_updated_at matches Some(at) && at.seconds
            == content.created_at_secs && at.nanos == content.created_at_nanos))),
{
}

} // verus!

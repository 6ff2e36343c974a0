//! What operators see of the storage exchanged with peers.

use crate::accounting::{
    accounting_of, aggregate_storage_accounting, usage_views, MirroredBlobUsage,
    PeerStorageRuntimeEntry, PeerStorageRuntimeState,
};
use crate::arith::{
    at_least_zero, at_least_zero_i64, clamp_i64, i64_from_u64, i64_from_usize, saturating_add_i64,
};
use crate::content::{
    in_sync, oversized_content, our_content_synced_with_peer, responder_content, current_info,
    CurrentContent, Limits,
};
use crate::horizon::{
    finite_expiries, finite_points, never_count, never_points, replica_horizon_points, sorts,
    ReplicaHorizonPoint,
};
use crate::inventory::{content_id, content_length, NamedPeer};
use crate::lineage::{stored_view, PeerRevision};
use crate::mirror::{accepted_bytes, maximum_peer_content_accepted_bytes};
use crate::model::{content_view, peer_views, ContentInfo, ContentInfoView, Peer, PeerView};
use crate::outside::{is_public_key, public_key_is_valid};
use crate::records::{
    cached_content, known_content, mirrored_length_rule, mirrored_peer_content_length,
    mirrored_peer_revision_state, peer_is_tracked_only, peer_score_state, score_state, tracked_only,
    BlobRead,
};
use crate::status::{fails_with, Status};
use crate::text::{bytes_copy, bytes_eq, text_eq};
use vstd::prelude::*;

verus! {

/// PeerStorageInfo is the live storage relationship with one peer.
#[derive(Debug, PartialEq, Eq)]
pub struct PeerStorageInfo {
    /// onion_service_id is the peer onion hostname.
    pub onion_service_id: String,
    /// peer_public_key is the key that the hostname encodes.
    pub peer_public_key: Vec<u8>,
    /// our_content_synced reports whether the peer holds our active revision.
    pub our_content_synced: bool,
    /// our_remaining_seconds is our score from the peer's perspective.
    pub our_remaining_seconds: i64,
    /// their_remaining_seconds is the peer's score from our perspective.
    pub their_remaining_seconds: i64,
    /// their_content_length is how many bytes we hold for the peer.
    pub their_content_length: i64,
    /// online reports whether the peer answered.
    pub online: bool,
    /// their_latest_known_content_id is the peer's newest revision we know of, or empty.
    pub their_latest_known_content_id: Vec<u8>,
    /// their_latest_known_content_length is its length.
    pub their_latest_known_content_length: i64,
    /// their_latest_cached_content_id is the peer's newest revision we hold, or empty.
    pub their_latest_cached_content_id: Vec<u8>,
    /// their_latest_cached_content_length is its length.
    pub their_latest_cached_content_length: i64,
}

/// The bytes of an optional content id, empty for none.
pub open spec fn id_or_empty(content: Option<ContentInfoView>) -> Seq<u8> {
    match content {
        Some(info) => info.content_id,
        None => Seq::<u8>::empty(),
    }
}

/// Whether our revision is in sync with what a peer answered.
pub open spec fn synced_by(
    current: Option<CurrentContent>,
    answer: Option<PeerRevision>,
) -> bool {
    match answer {
        Some(revision) => in_sync(
            match current {
                Some(content) => Some(current_info(content)),
                None => None,
            },
            stored_view(revision),
        ),
        None => false,
    }
}

/// Whether `row` is the relationship with one peer, given what it answered.
pub open spec fn row_rule(
    onion: Seq<char>,
    key: Seq<u8>,
    answer: Option<PeerRevision>,
    current: Option<CurrentContent>,
    peers: Seq<PeerView>,
    reads: Seq<BlobRead>,
    row: PeerStorageInfo,
) -> bool {
    let known = known_content(peers, key);
    let cached = cached_content(peers, key);
    &&& row.onion_service_id@ == onion
    &&& row.peer_public_key@ == key
    &&& row.online == (answer is Some)
    &&& row.our_content_synced == synced_by(current, answer)
    &&& row.our_remaining_seconds == match answer {
        Some(revision) => revision.remaining_seconds,
        None => 0,
    }
    &&& row.their_remaining_seconds == score_state(peers, key).0
    &&& mirrored_length_rule(cached, reads, Ok(row.their_content_length))
    &&& row.their_latest_known_content_id@ == id_or_empty(known)
    &&& row.their_latest_known_content_length == content_length(known)
    &&& row.their_latest_cached_content_id@ == id_or_empty(cached)
    &&& row.their_latest_cached_content_length == content_length(cached)
}

/// Return the id of an optional revision, or nothing.
fn id_bytes(content: &Option<ContentInfo>) -> (id: Vec<u8>)
    ensures
        id@ == id_or_empty(content_view(*content)),
{
    match content {
        Some(info) => bytes_copy(info.content_id.as_slice()),
        None => {
            let empty: Vec<u8> = Vec::new();
            assert(empty@ =~= Seq::<u8>::empty());
            empty
        },
    }
}

/// Build the live storage row of one peer, given what it answered, if it did.
pub fn get_peer_storage_row(
    peer_onion: &str,
    peer_key: &[u8],
    answer: &Option<PeerRevision>,
    current: &Option<CurrentContent>,
    peers: &[Peer],
    reads: &[BlobRead],
    limits: &Limits,
) -> (outcome: Result<PeerStorageInfo, Status>)
    ensures
        if *answer is Some && (*current matches Some(content) && current_info(
            content,
        ).content_length > limits.max_content()) {
            fails_with(outcome, oversized_content())
        } else {
            match outcome {
                Ok(row) => row_rule(
                    peer_onion@,
                    peer_key@,
                    *answer,
                    *current,
                    peer_views(peers@),
                    reads@,
                    row,
                ),
                Err(status) => mirrored_length_rule(
                    cached_content(peer_views(peers@), peer_key@),
                    reads@,
                    Err(status),
                ),
            }
        },
{
    let mut our_content_synced = false;
    let mut our_remaining_seconds: i64 = 0;
    if let Some(revision) = answer {
        our_remaining_seconds = revision.remaining_seconds;
        let ours = match responder_content(current, limits) {
            Ok(ours) => ours,
            Err(status) => return Err(status),
        };
        let theirs = match &revision.latest_stored {
            Some(stored) => Some(stored.content.clone()),
            None => None,
        };
        our_content_synced = our_content_synced_with_peer(&ours, &theirs);
    }
    let state = mirrored_peer_revision_state(peers, peer_key);
    let their_content_length = match mirrored_peer_content_length(peers, peer_key, reads) {
        Ok(length) => length,
        Err(status) => return Err(status),
    };
    let known_length = match &state.0 {
        Some(content) => content.content_length,
        None => 0,
    };
    let cached_length = match &state.1 {
        Some(content) => content.content_length,
        None => 0,
    };
    Ok(
        PeerStorageInfo {
            onion_service_id: peer_onion.to_owned(),
            peer_public_key: bytes_copy(peer_key),
            our_content_synced,
            our_remaining_seconds,
            their_remaining_seconds: peer_score_state(peers, peer_key).0,
            their_content_length,
            online: answer.is_some(),
            their_latest_known_content_id: id_bytes(&state.0),
            their_latest_known_content_length: known_length,
            their_latest_cached_content_id: id_bytes(&state.1),
            their_latest_cached_content_length: cached_length,
        },
    )
}

/// The record of the peer with a hostname, where a later record replaces an
/// earlier one and only records with a public key count.
pub open spec fn record_of(peers: Seq<NamedPeer>, onion: Seq<char>) -> Option<PeerView>
    decreases peers.len(),
{
    if peers.len() == 0 {
        None
    } else if peers.last().hostname@ == onion && is_public_key(peers.last().peer@.onion_pubkey) {
        Some(peers.last().peer@)
    } else {
        record_of(peers.drop_last(), onion)
    }
}

/// Find the record of the peer with a hostname.
pub fn find_record<'a>(peers: &'a [NamedPeer], onion: &str) -> (found: Option<&'a Peer>)
    ensures
        match found {
            Some(peer) => record_of(peers@, onion@) == Some(peer@),
            None => record_of(peers@, onion@) is None,
        },
{
    let mut i: usize = peers.len();
    assert(peers@.take(i as int) =~= peers@);
    while i > 0
        invariant
            i <= peers.len(),
            record_of(peers@.take(i as int), onion@) == record_of(peers@, onion@),
        decreases i,
    {
        i = i - 1;
        assert(peers@.take(i + 1).drop_last() =~= peers@.take(i as int));
        let named = &peers[i];
        if text_eq(named.hostname.as_str(), onion) && public_key_is_valid(
            named.peer.onion_pubkey.as_slice(),
        ) {
            return Some(&named.peer);
        }
    }
    None
}

/// Whether a row is a replica of our revision `id` that was verified: its peer
/// answered, is in sync, and last proved to hold exactly this revision.
pub open spec fn verified_replica(
    row: PeerStorageInfo,
    peers: Seq<NamedPeer>,
    id: Seq<u8>,
) -> bool {
    &&& row.online
    &&& row.our_content_synced
    &&& record_of(peers, row.onion_service_id@) matches Some(peer)
    &&& peer.our_content_last_verified_content_id == id
}

/// When the verified replicas of our revision expire, in order; never for a
/// peer that pins us.
pub open spec fn replica_expiries(
    rows: Seq<PeerStorageInfo>,
    peers: Seq<NamedPeer>,
    id: Seq<u8>,
) -> Seq<Option<i64>>
    decreases rows.len(),
{
    if rows.len() == 0 {
        Seq::<Option<i64>>::empty()
    } else {
        let rest = replica_expiries(rows.drop_last(), peers, id);
        let row = rows.last();
        if verified_replica(row, peers, id) {
            rest.push(
                if record_of(peers, row.onion_service_id@)->0.pins_us {
                    None
                } else {
                    Some(at_least_zero(row.our_remaining_seconds as int) as i64)
                },
            )
        } else {
            rest
        }
    }
}

/// Whether `points` is the horizon of replicas that expire as given.
pub open spec fn is_horizon(
    points: Seq<ReplicaHorizonPoint>,
    expiries: Seq<Option<i64>>,
) -> bool {
    exists|sorted: Seq<int>| #[trigger]
        sorts(sorted, finite_expiries(expiries)) && points == finite_points(
            sorted,
            expiries.len() as int,
        ) + never_points(never_count(expiries) as int)
}

/// Whether `outcome` is the horizon of our verified replicas.
pub open spec fn horizon_rule(
    rows: Seq<PeerStorageInfo>,
    peers: Seq<NamedPeer>,
    current: Option<CurrentContent>,
    limits: Limits,
    outcome: Result<Vec<ReplicaHorizonPoint>, Status>,
) -> bool {
    match current {
        None => outcome matches Ok(points) && points@.len() == 0,
        Some(content) => if current_info(content).content_length > limits.max_content() {
            fails_with(outcome, oversized_content())
        } else {
            outcome matches Ok(points) && is_horizon(
                points@,
                replica_expiries(rows, peers, content.content_id@),
            )
        },
    }
}

/// Build the replica-horizon report for our currently verified fresh replicas.
pub fn replica_horizon(
    storage_peers: &[PeerStorageInfo],
    tracked_peers: &[NamedPeer],
    current: &Option<CurrentContent>,
    limits: &Limits,
) -> (outcome: Result<Vec<ReplicaHorizonPoint>, Status>)
    ensures
        horizon_rule(storage_peers@, tracked_peers@, *current, *limits, outcome),
{
    let content = match responder_content(current, limits) {
        Err(status) => return Err(status),
        Ok(None) => {
            let points: Vec<ReplicaHorizonPoint> = Vec::new();
            return Ok(points);
        },
        Ok(Some(content)) => content,
    };
    let mut expiries: Vec<Option<i64>> = Vec::new();
    let mut i: usize = 0;
    assert(expiries@ =~= replica_expiries(
        storage_peers@.take(0),
        tracked_peers@,
        content@.content_id,
    ));
    while i < storage_peers.len()
        invariant
            i <= storage_peers.len(),
            expiries@ == replica_expiries(
                storage_peers@.take(i as int),
                tracked_peers@,
                content@.content_id,
            ),
        decreases storage_peers.len() - i,
    {
        let row = &storage_peers[i];
        assert(storage_peers@.take(i + 1).drop_last() =~= storage_peers@.take(i as int));
        if row.online && row.our_content_synced {
            if let Some(peer) = find_record(tracked_peers, row.onion_service_id.as_str()) {
                if bytes_eq(
                    peer.our_content_last_verified_content_id.as_slice(),
                    content.content_id.as_slice(),
                ) {
                    expiries.push(
                        if peer.pins_us {
                            None
                        } else {
                            Some(at_least_zero_i64(row.our_remaining_seconds))
                        },
                    );
                }
            }
        }
        i += 1;
    }
    assert(storage_peers@.take(i as int) =~= storage_peers@);
    Ok(replica_horizon_points(expiries.as_slice()))
}

/// The bytes held for the peers that `counts` picks, saturating.
pub open spec fn obligations(
    rows: Seq<PeerStorageInfo>,
    counts: spec_fn(PeerStorageInfo) -> bool,
) -> int
    decreases rows.len(),
{
    if rows.len() == 0 {
        0
    } else {
        clamp_i64(
            obligations(rows.drop_last(), counts) + if counts(rows.last()) {
                at_least_zero(rows.last().their_content_length as int)
            } else {
                0
            },
        )
    }
}

/// Whether a peer answered and holds our revision.
pub open spec fn keeps_up(row: PeerStorageInfo) -> bool {
    row.online && row.our_content_synced
}

/// How many records `counts` picks.
pub open spec fn count_records(
    peers: Seq<NamedPeer>,
    counts: spec_fn(PeerView) -> bool,
) -> int
    decreases peers.len(),
{
    if peers.len() == 0 {
        0
    } else {
        count_records(peers.drop_last(), counts) + if counts(peers.last().peer@) {
            1int
        } else {
            0int
        }
    }
}

/// The live states that rows tell.
pub open spec fn runtime_entries(
    rows: Seq<PeerStorageInfo>,
    entries: Seq<PeerStorageRuntimeEntry>,
) -> bool {
    &&& entries.len() == rows.len()
    &&& forall|i: int|
        0 <= i < rows.len() ==> {
            &&& (#[trigger] entries[i]).peer_public_key@ == rows[i].peer_public_key@
            &&& entries[i].state == PeerStorageRuntimeState {
                online: rows[i].online,
                our_content_synced: rows[i].our_content_synced,
            }
        }
}

/// StorageInfo is the derived storage view shown by the local CLI.
#[derive(Debug, PartialEq, Eq)]
pub struct StorageInfo {
    /// online_peers_storage_obligations_bytes is what we hold for peers that keep up.
    pub online_peers_storage_obligations_bytes: i64,
    /// offline_peers_storage_obligations_bytes is what we hold for all other peers.
    pub offline_peers_storage_obligations_bytes: i64,
    /// expired_offline_peers_storage_obligations_bytes is what we hold for those of them with a negative score.
    pub expired_offline_peers_storage_obligations_bytes: i64,
    /// our_content_bytes is the length of our active revision.
    pub our_content_bytes: i64,
    /// maximum_peer_content_accepted_bytes is the largest revision that still fits.
    pub maximum_peer_content_accepted_bytes: i64,
    /// pinned_peers_storage_bytes is what pinned peers protect.
    pub pinned_peers_storage_bytes: i64,
    /// protected_peers_storage_bytes is what positive scores protect.
    pub protected_peers_storage_bytes: i64,
    /// disposable_peers_storage_bytes is what nothing protects.
    pub disposable_peers_storage_bytes: i64,
    /// tracked_only_peers_count counts peers whose newest revision we only know of.
    pub tracked_only_peers_count: i64,
    /// offline_blocking_storage_bytes is what only offline or stale peers protect.
    pub offline_blocking_storage_bytes: i64,
    /// reclaimable_peer_storage_bytes is what may be dropped at once.
    pub reclaimable_peer_storage_bytes: i64,
    /// replica_horizon tells when replicas of our revision would expire.
    pub replica_horizon: Vec<ReplicaHorizonPoint>,
}

/// Whether `info` is the storage view of what is given.
pub open spec fn storage_info_rule(
    rows: Seq<PeerStorageInfo>,
    peers: Seq<NamedPeer>,
    usage: Seq<MirroredBlobUsage>,
    current: Option<CurrentContent>,
    budget: int,
    limits: Limits,
    info: StorageInfo,
) -> bool {
    &&& info.online_peers_storage_obligations_bytes == obligations(
        rows,
        |row: PeerStorageInfo| keeps_up(row),
    )
    &&& info.offline_peers_storage_obligations_bytes == obligations(
        rows,
        |row: PeerStorageInfo| !keeps_up(row),
    )
    &&& info.expired_offline_peers_storage_obligations_bytes == obligations(
        rows,
        |row: PeerStorageInfo| !keeps_up(row) && row.their_remaining_seconds < 0,
    )
    &&& info.our_content_bytes == match current {
        Some(content) => clamp_i64(content.blob_len as int),
        None => 0,
    }
    &&& info.maximum_peer_content_accepted_bytes == accepted_bytes(
        usage_views(usage),
        budget,
        limits,
    )
    &&& info.tracked_only_peers_count == clamp_i64(
        count_records(peers, |peer: PeerView| tracked_only(peer)),
    )
    &&& exists|entries: Seq<PeerStorageRuntimeEntry>| #[trigger]
        runtime_entries(rows, entries) && {
            let accounting = accounting_of(usage_views(usage), entries);
            &&& info.pinned_peers_storage_bytes == accounting.pinned_bytes
            &&& info.protected_peers_storage_bytes == accounting.protected_bytes
            &&& info.disposable_peers_storage_bytes == accounting.disposable_bytes
            &&& info.offline_blocking_storage_bytes == accounting.offline_blocking_bytes
            &&& info.reclaimable_peer_storage_bytes == accounting.reclaimable_bytes
        }
    &&& horizon_rule(rows, peers, current, limits, Ok(info.replica_horizon))
}

/// Count the records whose newest revision we only know of.
fn count_tracked_only(peers: &[NamedPeer]) -> (count: i64)
    ensures
        count == clamp_i64(count_records(peers@, |peer: PeerView| tracked_only(peer))),
{
    let ghost counts = |peer: PeerView| tracked_only(peer);
    let mut count: usize = 0;
    let mut i: usize = 0;
    while i < peers.len()
        invariant
            i <= peers.len(),
            counts == (|peer: PeerView| tracked_only(peer)),
            count == count_records(peers@.take(i as int), counts),
            count <= i,
        decreases peers.len() - i,
    {
        assert(peers@.take(i + 1).drop_last() =~= peers@.take(i as int));
        if peer_is_tracked_only(&peers[i].peer) {
            count = count + 1;
        }
        i += 1;
    }
    assert(peers@.take(i as int) =~= peers@);
    i64_from_usize(count)
}

/// Collect the live states that rows tell.
fn collect_runtime_entries(rows: &[PeerStorageInfo]) -> (entries: Vec<PeerStorageRuntimeEntry>)
    ensures
        runtime_entries(rows@, entries@),
{
    let mut entries: Vec<PeerStorageRuntimeEntry> = Vec::new();
    let mut i: usize = 0;
    while i < rows.len()
        invariant
            i <= rows.len(),
            runtime_entries(rows@.take(i as int), entries@),
        decreases rows.len() - i,
    {
        let ghost listed = entries@;
        let row = &rows[i];
        let entry = PeerStorageRuntimeEntry {
            peer_public_key: bytes_copy(row.peer_public_key.as_slice()),
            state: PeerStorageRuntimeState {
                online: row.online,
                our_content_synced: row.our_content_synced,
            },
        };
        entries.push(entry);
        i += 1;
        proof {
            let next = rows@.take(i as int);
            assert forall|k: int| 0 <= k < next.len() implies {
                &&& (#[trigger] entries@[k]).peer_public_key@ == next[k].peer_public_key@
                &&& entries@[k].state == PeerStorageRuntimeState {
                    online: next[k].online,
                    our_content_synced: next[k].our_content_synced,
                }
            } by {
                if k < listed.len() {
                    assert(entries@[k] == listed[k]);
                    assert(rows@.take(i - 1)[k] == next[k]);
                }
            }
        }
    }
    assert(rows@.take(i as int) =~= rows@);
    entries
}

/// Obligations sums what is held for peers by whether they keep up.
struct Obligations {
    online: i64,
    offline: i64,
    expired: i64,
}

/// Sum what is held for peers.
fn sum_obligations(rows: &[PeerStorageInfo]) -> (sums: Obligations)
    ensures
        sums.online == obligations(rows@, |row: PeerStorageInfo| keeps_up(row)),
        sums.offline == obligations(rows@, |row: PeerStorageInfo| !keeps_up(row)),
        sums.expired == obligations(
            rows@,
            |row: PeerStorageInfo| !keeps_up(row) && row.their_remaining_seconds < 0,
        ),
{
    let ghost online = |row: PeerStorageInfo| keeps_up(row);
    let ghost offline = |row: PeerStorageInfo| !keeps_up(row);
    let ghost expired = |row: PeerStorageInfo| !keeps_up(row) && row.their_remaining_seconds < 0;
    let mut sums = Obligations { online: 0, offline: 0, expired: 0 };
    let mut i: usize = 0;
    while i < rows.len()
        invariant
            i <= rows.len(),
            online == (|row: PeerStorageInfo| keeps_up(row)),
            offline == (|row: PeerStorageInfo| !keeps_up(row)),
            expired == (|row: PeerStorageInfo|
                !keeps_up(row) && row.their_remaining_seconds < 0),
            sums.online == obligations(rows@.take(i as int), online),
            sums.offline == obligations(rows@.take(i as int), offline),
            sums.expired == obligations(rows@.take(i as int), expired),
        decreases rows.len() - i,
    {
        let row = &rows[i];
        proof {
            assert(rows@.take(i + 1).drop_last() =~= rows@.take(i as int));
            assert(rows@.take(i + 1).last() == *row);
        }
        let bytes = at_least_zero_i64(row.their_content_length);
        if row.online && row.our_content_synced {
            sums.online = saturating_add_i64(sums.online, bytes);
        } else {
            sums.offline = saturating_add_i64(sums.offline, bytes);
            if row.their_remaining_seconds < 0 {
                sums.expired = saturating_add_i64(sums.expired, bytes);
            }
        }
        i += 1;
    }
    assert(rows@.take(i as int) =~= rows@);
    sums
}

/// Build the derived storage view shown by the local CLI.
pub fn storage_info(
    storage_peers: &[PeerStorageInfo],
    tracked_peers: &[NamedPeer],
    usage: &[MirroredBlobUsage],
    current: &Option<CurrentContent>,
    budget: i64,
    limits: &Limits,
) -> (outcome: Result<StorageInfo, Status>)
    ensures
        if *current matches Some(content) && current_info(content).content_length
            > limits.max_content() {
            fails_with(outcome, oversized_content())
        } else {
            outcome matches Ok(info) && storage_info_rule(
                storage_peers@,
                tracked_peers@,
                usage@,
                *current,
                budget as int,
                *limits,
                info,
            )
        },
{
    let sums = sum_obligations(storage_peers);
    let entries = collect_runtime_entries(storage_peers);
    let accounting = aggregate_storage_accounting(usage, entries.as_slice());
    let our_content_bytes = match current {
        Some(content) => i64_from_u64(content.blob_len),
        None => 0,
    };
    let horizon = match replica_horizon(storage_peers, tracked_peers, current, limits) {
        Ok(horizon) => horizon,
        Err(status) => return Err(status),
    };
    let info = StorageInfo {
        online_peers_storage_obligations_bytes: sums.online,
        offline_peers_storage_obligations_bytes: sums.offline,
        expired_offline_peers_storage_obligations_bytes: sums.expired,
        our_content_bytes,
        maximum_peer_content_accepted_bytes: maximum_peer_content_accepted_bytes(
            usage,
            budget,
            limits,
        ),
        pinned_peers_storage_bytes: accounting.pinned_bytes,
        protected_peers_storage_bytes: accounting.protected_bytes,
        disposable_peers_storage_bytes: accounting.disposable_bytes,
        tracked_only_peers_count: count_tracked_only(tracked_peers),
        offline_blocking_storage_bytes: accounting.offline_blocking_bytes,
        reclaimable_peer_storage_bytes: accounting.reclaimable_bytes,
        replica_horizon: horizon,
    };
    assert(runtime_entries(storage_peers@, entries@));
    Ok(info)
}

/// Whether two optional revisions have the same identifier, or neither is there.
pub open spec fn agrees(current: Option<CurrentContent>, report: PeerRevision) -> bool {
    match current {
        Some(content) => report.latest_stored matches Some(stored) && stored.content.content_id@
            == content.content_id@,
        None => report.latest_stored is None,
    }
}

/// A row tells that the peer is online exactly when it answered, that it is in
/// sync exactly when it answered that it can return our active revision, or that
/// it has none and we have none, and the score that it answered. The rest comes
/// from the record.
pub proof fn law_row_tells_what_the_peer_answered(
    peer_onion: &str,
    peer_key: &[u8],
    answer: &Option<PeerRevision>,
    current: &Option<CurrentContent>,
    peers: &[Peer],
    reads: &[BlobRead],
    limits: &Limits,
    row: PeerStorageInfo,
    i: int,
)
    requires
        call_ensures(
            get_peer_storage_row,
            (peer_onion, peer_key, answer, current, peers, reads, limits),
            Ok(row),
        ),
    ensures
        row.onion_service_id@ == peer_onion@,
        row.peer_public_key@ == peer_key@,
        row.online <==> *answer is Some,
        row.our_content_synced <==> (*answer matches Some(report) && agrees(*current, report)),
        *answer matches Some(report) ==> row.our_remaining_seconds == report.remaining_seconds,
        *answer is None ==> row.our_remaining_seconds == 0,
        crate::records::first_with_key(peers@, peer_key@, i) ==> {
            &&& row.their_remaining_seconds == peers@[i].score_seconds
            &&& peers@[i].latest_known_content matches Some(known)
                ==> row.their_latest_known_content_id@ == known.content_id@
                && row.their_latest_known_content_length == known.content_length
            &&& peers@[i].latest_known_content is None ==> row.their_latest_known_content_id@.len()
                == 0 && row.their_latest_known_content_length == 0
            &&& peers@[i].latest_cached_content matches Some(cached)
                ==> row.their_latest_cached_content_id@ == cached.content_id@
                && row.their_latest_cached_content_length == cached.content_length
            &&& peers@[i].latest_cached_content is None ==> row.their_latest_cached_content_id@.len()
                == 0 && row.their_latest_cached_content_length == 0 && row.their_content_length == 0
        },
{
    crate::records::lemma_find_first(peers@, peer_key@);
}

/// Whether `peers[i]` is the last record with a hostname and a public key.
pub open spec fn last_record(peers: Seq<NamedPeer>, onion: Seq<char>, i: int) -> bool {
    &&& 0 <= i < peers.len()
    &&& peers[i].hostname@ == onion
    &&& is_public_key(peers[i].peer.onion_pubkey@)
    &&& forall|j: int|
        i < j < peers.len() ==> !((#[trigger] peers[j]).hostname@ == onion && is_public_key(
            peers[j].peer.onion_pubkey@,
        ))
}

/// The last record with a hostname and a public key counts.
pub proof fn lemma_last_record(peers: Seq<NamedPeer>, onion: Seq<char>)
    ensures
        record_of(peers, onion) is Some <==> exists|i: int| #[trigger] last_record(peers, onion, i),
        forall|i: int| #[trigger]
            last_record(peers, onion, i) ==> record_of(peers, onion) == Some(peers[i].peer@),
    decreases peers.len(),
{
    if peers.len() > 0 {
        let rest = peers.drop_last();
        let end = peers.len() - 1;
        lemma_last_record(rest, onion);
        assert(peers[end] == peers.last());
        if peers.last().hostname@ == onion && is_public_key(peers.last().peer@.onion_pubkey) {
            assert(last_record(peers, onion, end));
        } else {
            assert forall|i: int| #[trigger] last_record(peers, onion, i) implies last_record(
                rest,
                onion,
                i,
            ) by {
                assert(rest[i] == peers[i]);
                assert forall|j: int| i < j < rest.len() implies !(
                (#[trigger] rest[j]).hostname@ == onion && is_public_key(
                    rest[j].peer.onion_pubkey@,
                )) by {
                    assert(peers[j] == rest[j]);
                }
            }
            assert forall|i: int| #[trigger] last_record(rest, onion, i) implies last_record(
                peers,
                onion,
                i,
            ) by {
                assert(rest[i] == peers[i]);
                assert forall|j: int| i < j < peers.len() implies !(
                (#[trigger] peers[j]).hostname@ == onion && is_public_key(
                    peers[j].peer.onion_pubkey@,
                )) by {
                    if j < end {
                        assert(peers[j] == rest[j]);
                    }
                }
            }
        }
    }
}

/// Picks the rows of peers that answered in sync and last proved to hold exactly
/// our active revision.
pub open spec fn proved_replica(peers: Seq<NamedPeer>, content: CurrentContent) -> spec_fn(
    PeerStorageInfo,
) -> bool {
    |row: PeerStorageInfo|
        row.online && row.our_content_synced && exists|i: int| #[trigger]
            last_record(peers, row.onion_service_id@, i)
                && peers[i].peer.our_content_last_verified_content_id@ == content.content_id@
}

/// When a row's peer drops our revision: never if its record says that it pins
/// us, or else once the score that it answered has run down.
pub open spec fn dropped_at(peers: Seq<NamedPeer>) -> spec_fn(PeerStorageInfo) -> Option<i64> {
    |row: PeerStorageInfo|
        if exists|i: int| #[trigger]
            last_record(peers, row.onion_service_id@, i) && peers[i].peer.pins_us {
            None
        } else if row.our_remaining_seconds < 0 {
            Some(0i64)
        } else {
            Some(row.our_remaining_seconds)
        }
}

/// The expiries of verified replicas are those of the picked rows, in order.
proof fn lemma_replica_expiries(
    rows: Seq<PeerStorageInfo>,
    peers: Seq<NamedPeer>,
    content: CurrentContent,
)
    ensures
        replica_expiries(rows, peers, content.content_id@) == rows.filter(
            proved_replica(peers, content),
        ).map_values(dropped_at(peers)),
        rows.filter(proved_replica(peers, content)).len() <= rows.len(),
    decreases rows.len(),
{
    reveal(Seq::filter);
    if rows.len() > 0 {
        lemma_replica_expiries(rows.drop_last(), peers, content);
        lemma_last_record(peers, rows.last().onion_service_id@);
        let onion = rows.last().onion_service_id@;
        if exists|i: int| #[trigger] last_record(peers, onion, i) {
            let i = choose|i: int| #[trigger] last_record(peers, onion, i);
            assert(record_of(peers, onion) == Some(peers[i].peer@));
            assert forall|j: int| #[trigger] last_record(peers, onion, j) implies peers[j].peer@
                == peers[i].peer@ by {}
            assert(peers[i].peer.pins_us == peers[i].peer@.pins_us);
            assert forall|j: int| #[trigger] last_record(peers, onion, j) implies
                peers[j].peer.pins_us == peers[i].peer.pins_us
                && peers[j].peer.our_content_last_verified_content_id@
                == peers[i].peer.our_content_last_verified_content_id@ by {
                assert(peers[j].peer@.pins_us == peers[i].peer@.pins_us);
                assert(peers[j].peer@.our_content_last_verified_content_id
                    == peers[i].peer@.our_content_last_verified_content_id);
            }
        }
    }
    assert(replica_expiries(rows, peers, content.content_id@) =~= rows.filter(
        proved_replica(peers, content),
    ).map_values(dropped_at(peers)));
}

/// The horizon tells of exactly the replicas that were verified: of those whose
/// peer pins us as never dropped, and of the others once the score that the peer
/// answered has run down. Without an active revision it tells of none.
pub proof fn law_horizon_tells_of_verified_replicas(
    rows: &[PeerStorageInfo],
    peers: &[NamedPeer],
    current: &Option<CurrentContent>,
    limits: &Limits,
    points: Vec<ReplicaHorizonPoint>,
)
    requires
        rows@.len() <= i64::MAX,
        call_ensures(replica_horizon, (rows, peers, current, limits), Ok(points)),
    ensures
        match *current {
            Some(content) => crate::horizon::tells_expiries(
                points@,
                rows@.filter(proved_replica(peers@, content)).map_values(dropped_at(peers@)),
            ),
            None => points@.len() == 0,
        },
{
    if let Some(content) = *current {
        let expiries = replica_expiries(rows@, peers@, content.content_id@);
        lemma_replica_expiries(rows@, peers@, content);
        assert(is_horizon(points@, expiries));
        let sorted = choose|sorted: Seq<int>| #[trigger]
            sorts(sorted, finite_expiries(expiries)) && points@ == finite_points(
                sorted,
                expiries.len() as int,
            ) + never_points(never_count(expiries) as int);
        crate::horizon::lemma_tells_expiries(points@, expiries, sorted);
    }
}

/// What is held for the peers of rows together; a negative length counts nothing.
pub open spec fn held_bytes(rows: Seq<PeerStorageInfo>) -> int
    decreases rows.len(),
{
    if rows.len() == 0 {
        0
    } else {
        held_bytes(rows.drop_last()) + if rows.last().their_content_length < 0 {
            0
        } else {
            rows.last().their_content_length as int
        }
    }
}

/// The saturating sum of obligations is what is held for the picked rows.
proof fn lemma_obligations(
    rows: Seq<PeerStorageInfo>,
    counts: spec_fn(PeerStorageInfo) -> bool,
    picks: spec_fn(PeerStorageInfo) -> bool,
)
    requires
        held_bytes(rows) <= i64::MAX,
        forall|row: PeerStorageInfo| #[trigger] picks(row) <==> counts(row),
    ensures
        obligations(rows, counts) == held_bytes(rows.filter(picks)),
        0 <= held_bytes(rows.filter(picks)) <= held_bytes(rows),
    decreases rows.len(),
{
    reveal(Seq::filter);
    if rows.len() > 0 {
        let rest = rows.drop_last();
        lemma_held_bytes(rest);
        lemma_obligations(rest, counts, picks);
        assert(picks(rows.last()) <==> counts(rows.last()));
        if picks(rows.last()) {
            assert(rows.filter(picks).drop_last() =~= rest.filter(picks));
        }
    }
}

/// What is held is never negative.
proof fn lemma_held_bytes(rows: Seq<PeerStorageInfo>)
    ensures
        held_bytes(rows) >= 0,
    decreases rows.len(),
{
    if rows.len() > 0 {
        lemma_held_bytes(rows.drop_last());
    }
}

/// How many records are picked.
proof fn lemma_count_records(
    peers: Seq<NamedPeer>,
    counts: spec_fn(PeerView) -> bool,
    picks: spec_fn(NamedPeer) -> bool,
)
    requires
        forall|named: NamedPeer| #[trigger] picks(named) <==> counts(named.peer@),
    ensures
        count_records(peers, counts) == peers.filter(picks).len(),
        peers.filter(picks).len() <= peers.len(),
    decreases peers.len(),
{
    reveal(Seq::filter);
    if peers.len() > 0 {
        lemma_count_records(peers.drop_last(), counts, picks);
        assert(picks(peers.last()) <==> counts(peers.last().peer@));
    }
}

/// The storage view splits what is held by whether a peer answered in sync, sets
/// apart what is held for absent peers with a negative score, counts the peers
/// of which a revision is known and none held, and tells the length of our own.
pub proof fn law_storage_view_splits_obligations(
    rows: &[PeerStorageInfo],
    peers: &[NamedPeer],
    usage: &[MirroredBlobUsage],
    current: &Option<CurrentContent>,
    budget: i64,
    limits: &Limits,
    info: StorageInfo,
)
    requires
        call_ensures(storage_info, (rows, peers, usage, current, budget, limits), Ok(info)),
        held_bytes(rows@) <= i64::MAX,
        peers@.len() <= i64::MAX,
    ensures
        info.online_peers_storage_obligations_bytes == held_bytes(
            rows@.filter(|row: PeerStorageInfo| row.online && row.our_content_synced),
        ),
        info.offline_peers_storage_obligations_bytes == held_bytes(
            rows@.filter(|row: PeerStorageInfo| !(row.online && row.our_content_synced)),
        ),
        info.expired_offline_peers_storage_obligations_bytes == held_bytes(
            rows@.filter(
                |row: PeerStorageInfo|
                    !(row.online && row.our_content_synced) && row.their_remaining_seconds < 0,
            ),
        ),
        info.tracked_only_peers_count == peers@.filter(
            |named: NamedPeer|
                named.peer.latest_known_content is Some && named.peer.latest_cached_content is None,
        ).len(),
        *current matches Some(content) ==> (content.blob_len <= i64::MAX ==> info.our_content_bytes
            == content.blob_len),
        *current is None ==> info.our_content_bytes == 0 && info.replica_horizon@.len() == 0,
{
    lemma_obligations(
        rows@,
        |row: PeerStorageInfo| keeps_up(row),
        |row: PeerStorageInfo| row.online && row.our_content_synced,
    );
    lemma_obligations(
        rows@,
        |row: PeerStorageInfo| !keeps_up(row),
        |row: PeerStorageInfo| !(row.online && row.our_content_synced),
    );
    lemma_obligations(
        rows@,
        |row: PeerStorageInfo| !keeps_up(row) && row.their_remaining_seconds < 0,
        |row: PeerStorageInfo|
            !(row.online && row.our_content_synced) && row.their_remaining_seconds < 0,
    );
    lemma_count_records(
        peers@,
        |peer: PeerView| tracked_only(peer),
        |named: NamedPeer|
            named.peer.latest_known_content is Some && named.peer.latest_cached_content is None,
    );
}

/// The storage view counts mirrored bytes by who protects them, and its horizon
/// tells of the verified replicas.
pub proof fn law_storage_view_counts_by_protector(
    rows: &[PeerStorageInfo],
    peers: &[NamedPeer],
    usage: &[MirroredBlobUsage],
    current: &Option<CurrentContent>,
    budget: i64,
    limits: &Limits,
    info: StorageInfo,
)
    requires
        call_ensures(storage_info, (rows, peers, usage, current, budget, limits), Ok(info)),
        crate::accounting::countable(usage@),
        rows@.len() <= i64::MAX,
    ensures
        info.pinned_peers_storage_bytes == crate::accounting::total_length(
            usage@.filter(crate::accounting::has_pinned_peer()),
        ),
        info.protected_peers_storage_bytes == crate::accounting::total_length(
            usage@.filter(crate::accounting::has_only_scored_peer()),
        ),
        info.disposable_peers_storage_bytes == crate::accounting::total_length(
            usage@.filter(crate::accounting::has_no_protector()),
        ),
        info.reclaimable_peer_storage_bytes == crate::accounting::total_length(
            usage@.filter(crate::accounting::has_no_protector()),
        ),
        *current matches Some(content) ==> crate::horizon::tells_expiries(
            info.replica_horizon@,
            rows@.filter(proved_replica(peers@, content)).map_values(dropped_at(peers@)),
        ),
{
    let entries = choose|entries: Seq<PeerStorageRuntimeEntry>| #[trigger]
        runtime_entries(rows@, entries) && {
            let accounting = accounting_of(usage_views(usage@), entries);
            &&& info.pinned_peers_storage_bytes == accounting.pinned_bytes
            &&& info.protected_peers_storage_bytes == accounting.protected_bytes
            &&& info.disposable_peers_storage_bytes == accounting.disposable_bytes
            &&& info.offline_blocking_storage_bytes == accounting.offline_blocking_bytes
            &&& info.reclaimable_peer_storage_bytes == accounting.reclaimable_bytes
        };
    crate::accounting::lemma_accounting_by_protector(usage@, entries);
    if let Some(content) = *current {
        let expiries = replica_expiries(rows@, peers@, content.content_id@);
        lemma_replica_expiries(rows@, peers@, content);
        assert(is_horizon(info.replica_horizon@, expiries));
        let sorted = choose|sorted: Seq<int>| #[trigger]
            sorts(sorted, finite_expiries(expiries)) && info.replica_horizon@ == finite_points(
                sorted,
                expiries.len() as int,
            ) + never_points(never_count(expiries) as int);
        crate::horizon::lemma_tells_expiries(info.replica_horizon@, expiries, sorted);
    }
}

/// The record of a hostname is the last one under it that has a public key.
pub proof fn law_record_of_a_hostname(
    peers: &[NamedPeer],
    onion: &str,
    found: Option<&Peer>,
    i: int,
)
    requires
        call_ensures(find_record, (peers, onion), found),
    ensures
        found is Some <==> exists|k: int| #[trigger] last_record(peers@, onion@, k),
        last_record(peers@, onion@, i) ==> (found matches Some(peer) && peer@ == peers@[i].peer@),
{
    lemma_last_record(peers@, onion@);
}

/// Whether the last row of the peer with `key` tells that it answered in sync.
pub open spec fn row_in_sync(rows: Seq<PeerStorageInfo>, key: Seq<u8>) -> bool {
    exists|i: int|
        0 <= i < rows.len() && (#[trigger] rows[i]).peer_public_key@ == key && rows[i].online
            && rows[i].our_content_synced && forall|j: int|
            i < j < rows.len() ==> (#[trigger] rows[j]).peer_public_key@ != key
}

/// Picks the blobs that have protectors, none of which answered in sync.
pub open spec fn blocked_by_absent(rows: Seq<PeerStorageInfo>) -> spec_fn(MirroredBlobUsage) -> bool {
    |blob: MirroredBlobUsage|
        (exists|r: int|
            0 <= r < blob.references@.len() && ((#[trigger] blob.references@[r]).pinned_by_us
                || blob.references@[r].score_seconds > 0)) && forall|r: int|
            0 <= r < blob.references@.len() && ((#[trigger] blob.references@[r]).pinned_by_us
                || blob.references@[r].score_seconds > 0) ==> !row_in_sync(
                rows,
                blob.references@[r].peer_public_key@,
            )
}

/// Live states tell who answered in sync as rows do.
proof fn lemma_rows_in_sync(
    rows: Seq<PeerStorageInfo>,
    entries: Seq<PeerStorageRuntimeEntry>,
    key: Seq<u8>,
)
    requires
        runtime_entries(rows, entries),
    ensures
        crate::accounting::answers_in_sync(entries, key) <==> row_in_sync(rows, key),
{
    if crate::accounting::answers_in_sync(entries, key) {
        let i = choose|i: int|
            0 <= i < entries.len() && (#[trigger] entries[i]).peer_public_key@ == key
                && entries[i].state.online && entries[i].state.our_content_synced && forall|j: int|
                i < j < entries.len() ==> (#[trigger] entries[j]).peer_public_key@ != key;
        assert forall|j: int| i < j < rows.len() implies (#[trigger] rows[j]).peer_public_key@
            != key by {
            assert(entries[j].peer_public_key@ != key);
        }
        assert(rows[i].peer_public_key@ == key);
    }
    if row_in_sync(rows, key) {
        let i = choose|i: int|
            0 <= i < rows.len() && (#[trigger] rows[i]).peer_public_key@ == key && rows[i].online
                && rows[i].our_content_synced && forall|j: int|
                i < j < rows.len() ==> (#[trigger] rows[j]).peer_public_key@ != key;
        assert forall|j: int| i < j < entries.len() implies (
        #[trigger] entries[j]).peer_public_key@ != key by {
            assert(rows[j].peer_public_key@ != key);
        }
        assert(entries[i].peer_public_key@ == key);
    }
}

/// Blocking bytes are those of the blobs whose protectors all failed to answer
/// in sync, and the largest revision still accepted is what the budget leaves. An
/// active revision that is too large for peers is refused.
pub proof fn law_absent_protectors_block(
    rows: &[PeerStorageInfo],
    peers: &[NamedPeer],
    usage: &[MirroredBlobUsage],
    current: &Option<CurrentContent>,
    budget: i64,
    limits: &Limits,
    outcome: Result<StorageInfo, Status>,
    accepted: i64,
)
    requires
        call_ensures(storage_info, (rows, peers, usage, current, budget, limits), outcome),
        call_ensures(
            crate::mirror::maximum_peer_content_accepted_bytes,
            (usage, budget, limits),
            accepted,
        ),
        crate::accounting::countable(usage@),
        limits.max_peer_content_bytes < i64::MAX,
    ensures
        outcome is Err <==> (*current matches Some(content) && content.blob_len
            > limits.max_peer_content_bytes),
        outcome matches Ok(info) ==> {
            &&& info.offline_blocking_storage_bytes == crate::accounting::total_length(
                usage@.filter(blocked_by_absent(rows@)),
            )
            &&& info.maximum_peer_content_accepted_bytes == accepted
        },
{
    if let Ok(info) = outcome {
        let entries = choose|entries: Seq<PeerStorageRuntimeEntry>| #[trigger]
            runtime_entries(rows@, entries) && {
                let accounting = accounting_of(usage_views(usage@), entries);
                &&& info.pinned_peers_storage_bytes == accounting.pinned_bytes
                &&& info.protected_peers_storage_bytes == accounting.protected_bytes
                &&& info.disposable_peers_storage_bytes == accounting.disposable_bytes
                &&& info.offline_blocking_storage_bytes == accounting.offline_blocking_bytes
                &&& info.reclaimable_peer_storage_bytes == accounting.reclaimable_bytes
            };
        crate::accounting::lemma_accounting_by_protector(usage@, entries);
        let absent = crate::accounting::has_only_absent_protectors(entries);
        let blocked = blocked_by_absent(rows@);
        assert forall|blob: MirroredBlobUsage| #[trigger] absent(blob) <==> blocked(blob) by {
            assert forall|key: Seq<u8>| #[trigger] crate::accounting::answers_in_sync(
                entries,
                key,
            ) <==> row_in_sync(rows@, key) by {
                lemma_rows_in_sync(rows@, entries, key);
            }
        }
        assert(absent =~= blocked);
    }
}

/// A row shows how many bytes are held for its peer, and there is none only
/// where these cannot be read, or where the peer answered and our own active
/// revision is too large to compare. Of a peer without a record it shows nothing.
pub proof fn law_row_shows_what_is_held(
    peer_onion: &str,
    peer_key: &[u8],
    answer: &Option<PeerRevision>,
    current: &Option<CurrentContent>,
    peers: &[Peer],
    reads: &[BlobRead],
    limits: &Limits,
    outcome: Result<PeerStorageInfo, Status>,
    held: Result<i64, Status>,
)
    requires
        call_ensures(
            get_peer_storage_row,
            (peer_onion, peer_key, answer, current, peers, reads, limits),
            outcome,
        ),
        call_ensures(mirrored_peer_content_length, (peers, peer_key, reads), held),
        limits.max_peer_content_bytes < i64::MAX,
    ensures
        outcome is Err <==> held is Err || (*answer is Some && (*current matches Some(content)
            && content.blob_len > limits.max_peer_content_bytes)),
        outcome matches Ok(row) ==> (held matches Ok(len) && row.their_content_length == len),
        outcome matches Ok(row) ==> ((forall|i: int|
            0 <= i < peers@.len() ==> (#[trigger] peers@[i]).onion_pubkey@ != peer_key@) ==> {
            &&& row.their_remaining_seconds == 0
            &&& row.their_content_length == 0
            &&& row.their_latest_known_content_id@.len() == 0
            &&& row.their_latest_known_content_length == 0
            &&& row.their_latest_cached_content_id@.len() == 0
            &&& row.their_latest_cached_content_length == 0
        }),
{
    crate::records::lemma_find_first(peers@, peer_key@);
}

} // verus!

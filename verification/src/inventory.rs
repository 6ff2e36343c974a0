//! What operators see of the peers.

use crate::accounting::PeerStorageProtectionClass;
use crate::builtin::{
    built_in_texts, merged_export_peers, render_built_in_peer_source, source_header, source_lines,
};
use crate::collections::{strictly_ascending, texts, TextMap};
use crate::model::{ContentInfoView, Peer, PeerReachability, PeerView};
use crate::order::{precedes, sort_positions, stable_order, strict_weak_order};
use crate::outside::{is_public_key, public_key_is_valid};
use crate::records::{
    has_storage, peer_has_storage, peer_is_tracked_only, peer_storage_protection, protection_of,
    tracked_only,
};
use crate::recovery_pass::{other_peers, others};
use crate::status::{Code, Status};
use crate::text::{bytes_eq, lemma_text_order, text_before, text_less};
use vstd::prelude::*;

verus! {

/// PeerInventoryStatus reports the local daemon's current view of one peer.
#[derive(Clone, Copy, Debug, PartialEq, Eq, Structural)]
pub enum PeerInventoryStatus {
    /// Connected means an outbound cached client is currently open.
    Connected,
    /// Online means the last completed transport interaction succeeded.
    Online,
    /// Offline means the last completed transport interaction failed or is unknown.
    Offline,
}

/// PeerFailureClass classifies one failed operation on a peer.
#[derive(Clone, Copy, Debug, PartialEq, Eq, Structural)]
pub enum PeerFailureClass {
    /// Unknown means that no failure is on record.
    Unknown,
    /// Timeout means that the peer did not answer in time.
    Timeout,
    /// Transport means that the peer could not be reached.
    Transport,
    /// StorageBudget means that a storage budget was exhausted.
    StorageBudget,
    /// Oversize means that content was too large.
    Oversize,
    /// Capacity means that no more peers are tracked.
    Capacity,
    /// Protocol means anything else.
    Protocol,
}

/// RecentPeerFailure is the latest operator-facing failure summary for one peer.
#[derive(Debug, PartialEq, Eq)]
pub struct RecentPeerFailure {
    /// last_failure_at is when the failure occurred.
    pub last_failure_at: i64,
    /// last_error_class classifies the failure for local RPC output.
    pub last_error_class: PeerFailureClass,
    /// last_error_message stores the failure summary.
    pub last_error_message: String,
}

/// NamedPeer is one peer on record with the hostname that its key encodes.
#[derive(Debug)]
pub struct NamedPeer {
    /// hostname is the onion hostname of the key; it counts only where the key is a public key.
    pub hostname: String,
    /// peer is the record.
    pub peer: Peer,
}

/// LocalPeerInventorySnapshot stores one peer's local sidecar-derived fields
/// for inventory rendering.
#[derive(Clone, Copy, Debug, PartialEq, Eq, Structural)]
pub struct LocalPeerInventorySnapshot {
    /// reachability is the outcome of the last contact on record.
    pub reachability: PeerReachability,
    /// pinned_by_us reports whether the local operator pinned this peer.
    pub pinned_by_us: bool,
    /// pins_us reports whether the peer most recently told us it pins us.
    pub pins_us: bool,
    /// has_storage reports whether persisted state indicates any storage relationship.
    pub has_storage: bool,
    /// score_seconds is the peer's current persisted score.
    pub score_seconds: i64,
    /// score_measured_at is when `score_seconds` was last updated.
    pub score_measured_at: i64,
    /// stored_content_bytes is the mirrored content length recorded in sidecar metadata.
    pub stored_content_bytes: i64,
    /// latest_known_content_length is the newest peer revision length we know exists.
    pub latest_known_content_length: i64,
    /// latest_cached_content_length is the newest peer revision length we currently cache.
    pub latest_cached_content_length: i64,
    /// stale_cache reports whether latest known and latest cached revisions differ.
    pub stale_cache: bool,
    /// storage_protection reports how the currently cached bytes are classified.
    pub storage_protection: PeerStorageProtectionClass,
    /// tracked_only reports whether only metadata for the newest revision is kept.
    pub tracked_only: bool,
    /// last_live_at is when the peer last responded successfully over the transport.
    pub last_live_at: i64,
}

/// PeerInventoryEntry is one locally reported peer summary.
#[derive(Debug, PartialEq, Eq)]
pub struct PeerInventoryEntry {
    /// onion_service_id is the peer onion hostname.
    pub onion_service_id: String,
    /// status is the current locally observed transport state.
    pub status: PeerInventoryStatus,
    /// pinned_by_us reports whether the local operator pinned this peer.
    pub pinned_by_us: bool,
    /// pins_us reports whether the peer most recently told us it pins us.
    pub pins_us: bool,
    /// has_storage reports whether persisted state indicates any storage relationship.
    pub has_storage: bool,
    /// score_seconds is the peer's current persisted score.
    pub score_seconds: i64,
    /// score_measured_at is when `score_seconds` was last updated.
    pub score_measured_at: i64,
    /// stored_content_bytes is the mirrored content length recorded in sidecar metadata.
    pub stored_content_bytes: i64,
    /// latest_known_content_length is the newest peer revision length we know exists.
    pub latest_known_content_length: i64,
    /// latest_cached_content_length is the newest peer revision length we currently cache.
    pub latest_cached_content_length: i64,
    /// stale_cache reports whether latest known and latest cached revisions differ.
    pub stale_cache: bool,
    /// storage_protection reports how the currently cached bytes are classified.
    pub storage_protection: PeerStorageProtectionClass,
    /// tracked_only reports whether only metadata for the newest revision is kept.
    pub tracked_only: bool,
    /// last_live_at is when the peer last responded successfully over the transport.
    pub last_live_at: i64,
    /// last_failure_at is when an operation on this peer last failed.
    pub last_failure_at: i64,
    /// last_error_class classifies that failure.
    pub last_error_class: PeerFailureClass,
    /// last_error_message is that failure's summary.
    pub last_error_message: String,
    /// consecutive_failures is the current background maintenance failure streak.
    pub consecutive_failures: i64,
    /// next_retry_at is when background maintenance is next scheduled to retry.
    pub next_retry_at: i64,
}

/// PeerInventoryEntryView is the mathematical content of a `PeerInventoryEntry`.
pub struct PeerInventoryEntryView {
    /// onion_service_id is the peer onion hostname.
    pub onion_service_id: Seq<char>,
    /// status is the current locally observed transport state.
    pub status: PeerInventoryStatus,
    /// pinned_by_us reports whether the local operator pinned this peer.
    pub pinned_by_us: bool,
    /// pins_us reports whether the peer most recently told us it pins us.
    pub pins_us: bool,
    /// has_storage reports whether persisted state indicates any storage relationship.
    pub has_storage: bool,
    /// score_seconds is the peer's current persisted score.
    pub score_seconds: i64,
    /// score_measured_at is when `score_seconds` was last updated.
    pub score_measured_at: i64,
    /// stored_content_bytes is the mirrored content length recorded in sidecar metadata.
    pub stored_content_bytes: i64,
    /// latest_known_content_length is the newest peer revision length we know exists.
    pub latest_known_content_length: i64,
    /// latest_cached_content_length is the newest peer revision length we currently cache.
    pub latest_cached_content_length: i64,
    /// stale_cache reports whether latest known and latest cached revisions differ.
    pub stale_cache: bool,
    /// storage_protection reports how the currently cached bytes are classified.
    pub storage_protection: PeerStorageProtectionClass,
    /// tracked_only reports whether only metadata for the newest revision is kept.
    pub tracked_only: bool,
    /// last_live_at is when the peer last responded successfully over the transport.
    pub last_live_at: i64,
    /// last_failure_at is when an operation on this peer last failed.
    pub last_failure_at: i64,
    /// last_error_class classifies that failure.
    pub last_error_class: PeerFailureClass,
    /// last_error_message is that failure's summary.
    pub last_error_message: Seq<char>,
    /// consecutive_failures is the current background maintenance failure streak.
    pub consecutive_failures: i64,
    /// next_retry_at is when background maintenance is next scheduled to retry.
    pub next_retry_at: i64,
}

impl View for PeerInventoryEntry {
    type V = PeerInventoryEntryView;

    open spec fn view(&self) -> PeerInventoryEntryView {
        PeerInventoryEntryView {
            onion_service_id: self.onion_service_id@,
            status: self.status,
            pinned_by_us: self.pinned_by_us,
            pins_us: self.pins_us,
            has_storage: self.has_storage,
            score_seconds: self.score_seconds,
            score_measured_at: self.score_measured_at,
            stored_content_bytes: self.stored_content_bytes,
            latest_known_content_length: self.latest_known_content_length,
            latest_cached_content_length: self.latest_cached_content_length,
            stale_cache: self.stale_cache,
            storage_protection: self.storage_protection,
            tracked_only: self.tracked_only,
            last_live_at: self.last_live_at,
            last_failure_at: self.last_failure_at,
            last_error_class: self.last_error_class,
            last_error_message: self.last_error_message@,
            consecutive_failures: self.consecutive_failures,
            next_retry_at: self.next_retry_at,
        }
    }
}

impl Clone for PeerInventoryEntry {
    fn clone(&self) -> (copy: Self)
        ensures
            copy@ == self@,
    {
        PeerInventoryEntry {
            onion_service_id: self.onion_service_id.clone(),
            status: self.status,
            pinned_by_us: self.pinned_by_us,
            pins_us: self.pins_us,
            has_storage: self.has_storage,
            score_seconds: self.score_seconds,
            score_measured_at: self.score_measured_at,
            stored_content_bytes: self.stored_content_bytes,
            latest_known_content_length: self.latest_known_content_length,
            latest_cached_content_length: self.latest_cached_content_length,
            stale_cache: self.stale_cache,
            storage_protection: self.storage_protection,
            tracked_only: self.tracked_only,
            last_live_at: self.last_live_at,
            last_failure_at: self.last_failure_at,
            last_error_class: self.last_error_class,
            last_error_message: self.last_error_message.clone(),
            consecutive_failures: self.consecutive_failures,
            next_retry_at: self.next_retry_at,
        }
    }
}

/// The length of an optional revision.
pub open spec fn content_length(content: Option<ContentInfoView>) -> i64 {
    match content {
        Some(info) => info.content_length,
        None => 0,
    }
}

/// The content id of an optional revision.
pub open spec fn content_id(content: Option<ContentInfoView>) -> Option<Seq<u8>> {
    match content {
        Some(info) => Some(info.content_id),
        None => None,
    }
}

/// What the inventory shows of a peer on record.
pub open spec fn snapshot_of(peer: PeerView) -> LocalPeerInventorySnapshot {
    LocalPeerInventorySnapshot {
        reachability: peer.reachability,
        pinned_by_us: peer.pinned_by_us,
        pins_us: peer.pins_us,
        has_storage: has_storage(peer),
        score_seconds: peer.score_seconds,
        score_measured_at: peer.score_measured_at,
        stored_content_bytes: content_length(peer.latest_cached_content),
        latest_known_content_length: content_length(peer.latest_known_content),
        latest_cached_content_length: content_length(peer.latest_cached_content),
        stale_cache: content_id(peer.latest_known_content) != content_id(
            peer.latest_cached_content,
        ),
        storage_protection: protection_of(peer),
        tracked_only: tracked_only(peer),
        last_live_at: peer.last_live_at,
    }
}

/// Build what the inventory shows of a peer on record.
pub fn peer_snapshot(peer: &Peer) -> (snapshot: LocalPeerInventorySnapshot)
    ensures
        snapshot == snapshot_of(peer@),
{
    let known_length = match &peer.latest_known_content {
        Some(content) => content.content_length,
        None => 0,
    };
    let cached_length = match &peer.latest_cached_content {
        Some(content) => content.content_length,
        None => 0,
    };
    let stale_cache = match (&peer.latest_known_content, &peer.latest_cached_content) {
        (None, None) => false,
        (Some(known), Some(cached)) => !bytes_eq(
            known.content_id.as_slice(),
            cached.content_id.as_slice(),
        ),
        _ => true,
    };
    LocalPeerInventorySnapshot {
        reachability: peer.reachability,
        pinned_by_us: peer.pinned_by_us,
        pins_us: peer.pins_us,
        has_storage: peer_has_storage(peer),
        score_seconds: peer.score_seconds,
        score_measured_at: peer.score_measured_at,
        stored_content_bytes: cached_length,
        latest_known_content_length: known_length,
        latest_cached_content_length: cached_length,
        stale_cache,
        storage_protection: peer_storage_protection(peer),
        tracked_only: peer_is_tracked_only(peer),
        last_live_at: peer.last_live_at,
    }
}

/// Convert one public key byte slice into an onion hostname, given the
/// hostname that it would encode.
pub fn onion_from_public_key_bytes(public_key: &[u8], hostname: &str) -> (outcome: Result<
    String,
    Status,
>)
    ensures
        if is_public_key(public_key@) {
            outcome matches Ok(onion) && onion@ == hostname@
        } else {
            crate::status::fails_with(outcome, crate::admission::invalid_key_failure())
        },
{
    if public_key_is_valid(public_key) {
        Ok(hostname.to_owned())
    } else {
        Err(Status::with_text(Code::InvalidArgument, "peer public key is invalid"))
    }
}

/// The snapshots of all peers whose recorded key is a public key, by hostname.
pub open spec fn snapshots_of(peers: Seq<NamedPeer>) -> Map<Seq<char>, LocalPeerInventorySnapshot>
    decreases peers.len(),
{
    if peers.len() == 0 {
        Map::empty()
    } else {
        let rest = snapshots_of(peers.drop_last());
        let last = peers.last();
        if is_public_key(last.peer@.onion_pubkey) {
            rest.insert(last.hostname@, snapshot_of(last.peer@))
        } else {
            rest
        }
    }
}

/// Snapshot per-peer local inventory fields from the peers on record.
pub fn local_peer_inventory_snapshot(peers: &[NamedPeer]) -> (snapshots: TextMap<
    LocalPeerInventorySnapshot,
>)
    ensures
        snapshots.wf(),
        snapshots@ == snapshots_of(peers@),
{
    let mut snapshots: TextMap<LocalPeerInventorySnapshot> = TextMap::new();
    let mut i: usize = 0;
    assert(snapshots@ =~= snapshots_of(peers@.take(0)));
    while i < peers.len()
        invariant
            i <= peers.len(),
            snapshots.wf(),
            snapshots@ == snapshots_of(peers@.take(i as int)),
        decreases peers.len() - i,
    {
        assert(peers@.take(i + 1).drop_last() =~= peers@.take(i as int));
        let named = &peers[i];
        match onion_from_public_key_bytes(
            named.peer.onion_pubkey.as_slice(),
            named.hostname.as_str(),
        ) {
            Ok(onion) => {
                snapshots.insert(onion, peer_snapshot(&named.peer));
            },
            Err(_) => {},
        }
        i += 1;
    }
    assert(peers@.take(i as int) =~= peers@);
    snapshots
}

/// The status of a peer: connected where a client is open, and else as it is on record.
pub open spec fn status_of(
    snapshot: Option<LocalPeerInventorySnapshot>,
    connected: bool,
) -> PeerInventoryStatus {
    if connected {
        PeerInventoryStatus::Connected
    } else if snapshot matches Some(found) && found.reachability == PeerReachability::Online {
        PeerInventoryStatus::Online
    } else {
        PeerInventoryStatus::Offline
    }
}

/// The snapshot of a peer that is not on record.
pub open spec fn no_snapshot() -> LocalPeerInventorySnapshot {
    LocalPeerInventorySnapshot {
        reachability: PeerReachability::Unknown,
        pinned_by_us: false,
        pins_us: false,
        has_storage: false,
        score_seconds: 0,
        score_measured_at: 0,
        stored_content_bytes: 0,
        latest_known_content_length: 0,
        latest_cached_content_length: 0,
        stale_cache: false,
        storage_protection: PeerStorageProtectionClass::Nothing,
        tracked_only: false,
        last_live_at: 0,
    }
}

/// The inventory entry of one peer.
pub open spec fn entry_of(
    onion: Seq<char>,
    snapshot: Option<LocalPeerInventorySnapshot>,
    connected: bool,
    failure: Option<RecentPeerFailure>,
) -> PeerInventoryEntryView {
    let shown = match snapshot {
        Some(found) => found,
        None => no_snapshot(),
    };
    PeerInventoryEntryView {
        onion_service_id: onion,
        status: status_of(snapshot, connected),
        pinned_by_us: shown.pinned_by_us,
        pins_us: shown.pins_us,
        has_storage: shown.has_storage,
        score_seconds: shown.score_seconds,
        score_measured_at: shown.score_measured_at,
        stored_content_bytes: shown.stored_content_bytes,
        latest_known_content_length: shown.latest_known_content_length,
        latest_cached_content_length: shown.latest_cached_content_length,
        stale_cache: shown.stale_cache,
        storage_protection: shown.storage_protection,
        tracked_only: shown.tracked_only,
        last_live_at: shown.last_live_at,
        last_failure_at: match failure {
            Some(found) => found.last_failure_at,
            None => 0,
        },
        last_error_class: match failure {
            Some(found) => found.last_error_class,
            None => PeerFailureClass::Unknown,
        },
        last_error_message: match failure {
            Some(found) => found.last_error_message@,
            None => Seq::<char>::empty(),
        },
        consecutive_failures: 0,
        next_retry_at: 0,
    }
}

/// Build the inventory entry of one peer.
fn build_entry(
    onion: &String,
    snapshot: Option<&LocalPeerInventorySnapshot>,
    connected: bool,
    failure: Option<&RecentPeerFailure>,
) -> (entry: PeerInventoryEntry)
    ensures
        entry@ == entry_of(
            onion@,
            match snapshot {
                Some(found) => Some(*found),
                None => None,
            },
            connected,
            match failure {
                Some(found) => Some(*found),
                None => None,
            },
        ),
{
    let shown = match snapshot {
        Some(found) => *found,
        None => LocalPeerInventorySnapshot {
            reachability: PeerReachability::Unknown,
            pinned_by_us: false,
            pins_us: false,
            has_storage: false,
            score_seconds: 0,
            score_measured_at: 0,
            stored_content_bytes: 0,
            latest_known_content_length: 0,
            latest_cached_content_length: 0,
            stale_cache: false,
            storage_protection: PeerStorageProtectionClass::Nothing,
            tracked_only: false,
            last_live_at: 0,
        },
    };
    let status = if connected {
        PeerInventoryStatus::Connected
    } else if shown.reachability == PeerReachability::Online {
        PeerInventoryStatus::Online
    } else {
        PeerInventoryStatus::Offline
    };
    let last_failure_at = match failure {
        Some(found) => found.last_failure_at,
        None => 0,
    };
    let last_error_class = match failure {
        Some(found) => found.last_error_class,
        None => PeerFailureClass::Unknown,
    };
    let last_error_message = match failure {
        Some(found) => found.last_error_message.clone(),
        None => String::new(),
    };
    PeerInventoryEntry {
        onion_service_id: onion.clone(),
        status,
        pinned_by_us: shown.pinned_by_us,
        pins_us: shown.pins_us,
        has_storage: shown.has_storage,
        score_seconds: shown.score_seconds,
        score_measured_at: shown.score_measured_at,
        stored_content_bytes: shown.stored_content_bytes,
        latest_known_content_length: shown.latest_known_content_length,
        latest_cached_content_length: shown.latest_cached_content_length,
        stale_cache: shown.stale_cache,
        storage_protection: shown.storage_protection,
        tracked_only: shown.tracked_only,
        last_live_at: shown.last_live_at,
        last_failure_at,
        last_error_class,
        last_error_message,
        consecutive_failures: 0,
        next_retry_at: 0,
    }
}

/// What a map holds under a key, if anything.
pub open spec fn lookup<V>(map: Map<Seq<char>, V>, key: Seq<char>) -> Option<V> {
    if map.dom().contains(key) {
        Some(map[key])
    } else {
        None
    }
}

/// The inventory entries of `onions`, in their order.
pub open spec fn entries_of(
    onions: Seq<Seq<char>>,
    snapshots: Map<Seq<char>, LocalPeerInventorySnapshot>,
    clients: Map<Seq<char>, i64>,
    failures: Map<Seq<char>, RecentPeerFailure>,
) -> Seq<PeerInventoryEntryView> {
    onions.map_values(
        |onion: Seq<char>|
            entry_of(
                onion,
                lookup(snapshots, onion),
                clients.dom().contains(onion),
                lookup(failures, onion),
            ),
    )
}

/// Where a peer is listed: peers with storage first, then reachable ones, then all others.
pub open spec fn group_rank(has_storage: bool, status: PeerInventoryStatus) -> u8 {
    if has_storage {
        0
    } else if status != PeerInventoryStatus::Offline {
        1
    } else {
        2
    }
}

/// Return the group priority used when listing peers.
pub fn peer_inventory_group_rank(entry: &PeerInventoryEntry) -> (rank: u8)
    ensures
        rank == group_rank(entry.has_storage, entry.status),
{
    if entry.has_storage {
        0
    } else if entry.status != PeerInventoryStatus::Offline {
        1
    } else {
        2
    }
}

/// Where a peer is listed inside its group.
pub open spec fn status_rank(status: PeerInventoryStatus) -> u8 {
    match status {
        PeerInventoryStatus::Connected => 0,
        PeerInventoryStatus::Online => 1,
        PeerInventoryStatus::Offline => 2,
    }
}

/// Return the status priority used inside one peer listing group.
pub fn peer_inventory_status_rank(status: PeerInventoryStatus) -> (rank: u8)
    ensures
        rank == status_rank(status),
{
    match status {
        PeerInventoryStatus::Connected => 0,
        PeerInventoryStatus::Online => 1,
        PeerInventoryStatus::Offline => 2,
    }
}

/// Whether peer `a` is listed before peer `b`: by group, then by status, then
/// the one that answered last, then the one with more score, then by name.
pub open spec fn listed_before(a: PeerInventoryEntryView, b: PeerInventoryEntryView) -> bool {
    let group_a = group_rank(a.has_storage, a.status);
    let group_b = group_rank(b.has_storage, b.status);
    if group_a != group_b {
        group_a < group_b
    } else if status_rank(a.status) != status_rank(b.status) {
        status_rank(a.status) < status_rank(b.status)
    } else if a.last_live_at != b.last_live_at {
        a.last_live_at > b.last_live_at
    } else if a.score_seconds != b.score_seconds {
        a.score_seconds > b.score_seconds
    } else {
        text_before(a.onion_service_id, b.onion_service_id)
    }
}

/// Report whether peer `a` is listed before peer `b`.
fn entry_listed_before(a: &PeerInventoryEntry, b: &PeerInventoryEntry) -> (first: bool)
    ensures
        first == listed_before(a@, b@),
{
    let group_a = peer_inventory_group_rank(a);
    let group_b = peer_inventory_group_rank(b);
    if group_a != group_b {
        return group_a < group_b;
    }
    let status_a = peer_inventory_status_rank(a.status);
    let status_b = peer_inventory_status_rank(b.status);
    if status_a != status_b {
        return status_a < status_b;
    }
    if a.last_live_at != b.last_live_at {
        return a.last_live_at > b.last_live_at;
    }
    if a.score_seconds != b.score_seconds {
        return a.score_seconds > b.score_seconds;
    }
    text_less(a.onion_service_id.as_str(), b.onion_service_id.as_str())
}

/// The listing order on the positions of `entries`.
pub open spec fn listing_order(entries: Seq<PeerInventoryEntryView>) -> spec_fn(int, int) -> bool {
    |i: int, j: int| listed_before(entries[i], entries[j])
}

/// The listing order is a strict order.
proof fn lemma_listed_before(
    a: PeerInventoryEntryView,
    b: PeerInventoryEntryView,
    c: PeerInventoryEntryView,
)
    ensures
        !listed_before(a, a),
        listed_before(a, b) && listed_before(b, c) ==> listed_before(a, c),
        listed_before(a, c) ==> listed_before(a, b) || listed_before(b, c),
{
    lemma_text_order(a.onion_service_id, b.onion_service_id, c.onion_service_id);
    lemma_text_order(b.onion_service_id, a.onion_service_id, c.onion_service_id);
    lemma_text_order(b.onion_service_id, c.onion_service_id, a.onion_service_id);
}

/// The listing order is a strict weak order on positions.
proof fn lemma_listing_order(entries: Seq<PeerInventoryEntryView>)
    ensures
        strict_weak_order(entries.len(), listing_order(entries)),
{
    let n = entries.len();
    let before = listing_order(entries);
    assert forall|i: int| 0 <= i < n implies !#[trigger] before(i, i) by {
        lemma_listed_before(entries[i], entries[i], entries[i]);
    }
    assert forall|i: int, j: int, k: int|
        0 <= i < n && 0 <= j < n && 0 <= k < n && #[trigger] before(i, j) && #[trigger] before(j, k)
        implies before(i, k) by {
        lemma_listed_before(entries[i], entries[j], entries[k]);
    }
    assert forall|i: int, j: int, k: int|
        0 <= i < n && 0 <= j < n && 0 <= k < n && #[trigger] before(i, k) implies #[trigger] before(
        i,
        j,
    ) || before(j, k) by {
        lemma_listed_before(entries[i], entries[j], entries[k]);
    }
}

/// The contents of an inventory.
pub open spec fn inventory_views(inventory: Seq<PeerInventoryEntry>) -> Seq<PeerInventoryEntryView> {
    inventory.map_values(|entry: PeerInventoryEntry| entry@)
}

/// Whether `inventory` lists `entries` in listing order.
pub open spec fn lists_entries(
    inventory: Seq<PeerInventoryEntryView>,
    entries: Seq<PeerInventoryEntryView>,
) -> bool {
    exists|order: Seq<usize>| #[trigger]
        stable_order(order, entries.len(), listing_order(entries)) && inventory
            == order.map_values(|at: usize| entries[at as int])
}

/// Put inventory entries in listing order.
fn sort_entries(entries: &Vec<PeerInventoryEntry>) -> (inventory: Vec<PeerInventoryEntry>)
    ensures
        lists_entries(inventory_views(inventory@), inventory_views(entries@)),
{
    let ghost views = inventory_views(entries@);
    let ghost before = listing_order(views);
    proof {
        lemma_listing_order(views);
    }
    let less = |i: usize, j: usize| -> (r: bool)
        requires
            i < entries@.len(),
            j < entries@.len(),
        ensures
            r == listed_before(entries@[i as int]@, entries@[j as int]@),
        { entry_listed_before(&entries[i], &entries[j]) };
    let order = sort_positions(entries.len(), less, Ghost(before));
    let mut inventory: Vec<PeerInventoryEntry> = Vec::new();
    let mut next: usize = 0;
    while next < order.len()
        invariant
            next <= order.len(),
            views == inventory_views(entries@),
            before == listing_order(views),
            stable_order(order@, views.len(), before),
            inventory_views(inventory@) =~= order@.map_values(
                |at: usize| views[at as int],
            ).take(next as int),
        decreases order.len() - next,
    {
        let position = order[next];
        let ghost listed = inventory@;
        inventory.push(entries[position].clone());
        proof {
            let all = order@.map_values(|at: usize| views[at as int]);
            assert(inventory_views(inventory@) =~= inventory_views(listed).push(
                views[position as int],
            ));
            assert(all.take(next + 1) =~= all.take(next as int).push(views[position as int]));
        }
        next += 1;
    }
    assert(inventory_views(inventory@) =~= order@.map_values(|at: usize| views[at as int]));
    inventory
}

/// Build the current local peer inventory from what is on record.
///
/// `clients` are the peers with an open client, and `failures` the recent
/// failures, both by onion hostname.
pub fn peer_inventory(
    known_peers: &[String],
    own_onion: &str,
    local_peers: &TextMap<LocalPeerInventorySnapshot>,
    clients: &TextMap<i64>,
    failures: &TextMap<RecentPeerFailure>,
) -> (inventory: Vec<PeerInventoryEntry>)
    requires
        local_peers.wf(),
        clients.wf(),
        failures.wf(),
    ensures
        lists_entries(
            inventory_views(inventory@),
            entries_of(
                others(texts(known_peers@), own_onion@),
                local_peers@,
                clients@,
                failures@,
            ),
        ),
{
    let onions = other_peers(known_peers, own_onion);
    let ghost names = texts(onions@);
    let ghost expected = entries_of(names, local_peers@, clients@, failures@);
    let mut entries: Vec<PeerInventoryEntry> = Vec::new();
    let mut i: usize = 0;
    while i < onions.len()
        invariant
            i <= onions.len(),
            local_peers.wf(),
            clients.wf(),
            failures.wf(),
            names == texts(onions@),
            expected == entries_of(names, local_peers@, clients@, failures@),
            inventory_views(entries@) =~= expected.take(i as int),
        decreases onions.len() - i,
    {
        let onion = &onions[i];
        let ghost listed = entries@;
        let entry = build_entry(
            onion,
            local_peers.get(onion.as_str()),
            clients.get(onion.as_str()).is_some(),
            failures.get(onion.as_str()),
        );
        assert(entry@ == expected[i as int]);
        entries.push(entry);
        assert(inventory_views(entries@) =~= inventory_views(listed).push(entry@));
        assert(expected.take(i + 1) =~= expected.take(i as int).push(entry@));
        i += 1;
    }
    assert(inventory_views(entries@) =~= expected);
    sort_entries(&entries)
}

/// The hostnames of all reachable peers of an inventory.
pub open spec fn reachable(inventory: Seq<PeerInventoryEntryView>) -> Seq<Seq<char>>
    decreases inventory.len(),
{
    if inventory.len() == 0 {
        Seq::<Seq<char>>::empty()
    } else if inventory.last().status == PeerInventoryStatus::Offline {
        reachable(inventory.drop_last())
    } else {
        reachable(inventory.drop_last()).push(inventory.last().onion_service_id)
    }
}

/// Render the full built-in peer source file from built-ins plus live peers.
pub fn export_built_in_peer_source(inventory: &[PeerInventoryEntry]) -> (source: String)
    ensures
        exists|peers: Seq<Seq<char>>| #[trigger]
            strictly_ascending(peers) && peers.to_set() == built_in_texts().to_set().union(
                reachable(inventory_views(inventory@)).to_set(),
            ) && source@ == source_header() + source_lines(peers) + "];\n"@,
{
    let ghost views = inventory_views(inventory@);
    let mut live: Vec<String> = Vec::new();
    let mut i: usize = 0;
    assert(texts(live@) =~= reachable(views.take(0)));
    while i < inventory.len()
        invariant
            i <= inventory.len(),
            views == inventory_views(inventory@),
            texts(live@) == reachable(views.take(i as int)),
        decreases inventory.len() - i,
    {
        let entry = &inventory[i];
        let ghost listed = live@;
        proof {
            assert(views[i as int] == entry@);
            assert(views.take(i + 1).drop_last() =~= views.take(i as int));
        }
        if entry.status != PeerInventoryStatus::Offline {
            live.push(entry.onion_service_id.clone());
            assert(texts(live@) =~= texts(listed).push(entry@.onion_service_id));
        }
        i += 1;
    }
    assert(views.take(i as int) =~= views);
    let peers = merged_export_peers(live.as_slice());
    let ghost names = texts(peers@);
    assert(strictly_ascending(names));
    render_built_in_peer_source(peers.as_slice())
}

/// Peers with storage are listed before all others, and inside a group those
/// with an open client before those that merely answered last.
pub proof fn law_inventory_lists_storage_peers_first(
    inventory: Seq<PeerInventoryEntryView>,
    entries: Seq<PeerInventoryEntryView>,
    i: int,
    j: int,
)
    requires
        lists_entries(inventory, entries),
        0 <= i < j < inventory.len(),
    ensures
        !listed_before(inventory[j], inventory[i]),
        inventory[j].has_storage ==> inventory[i].has_storage,
{
    let order = choose|order: Seq<usize>| #[trigger]
        stable_order(order, entries.len(), listing_order(entries)) && inventory == order.map_values(
            |at: usize| entries[at as int],
        );
    let before = listing_order(entries);
    let x = order[i] as int;
    let y = order[j] as int;
    assert(precedes(before, x, y));
    assert(inventory[i] == entries[x] && inventory[j] == entries[y]);
    lemma_listed_before(entries[x], entries[y], entries[x]);
}

/// What the inventory shows of a peer is what its record says: stored bytes are
/// those of the cached revision, the cache is stale where it is not the newest
/// known revision, and storage is protected by a pin or a positive score.
pub proof fn law_snapshot_shows_the_record(peer: &Peer, snapshot: LocalPeerInventorySnapshot)
    requires
        call_ensures(peer_snapshot, (peer,), snapshot),
    ensures
        snapshot.reachability == peer.reachability,
        snapshot.pinned_by_us == peer.pinned_by_us,
        snapshot.pins_us == peer.pins_us,
        snapshot.score_seconds == peer.score_seconds,
        snapshot.score_measured_at == peer.score_measured_at,
        snapshot.last_live_at == peer.last_live_at,
        snapshot.has_storage <==> peer.score_measured_at > 0 || peer.score_seconds != 0
            || peer.latest_known_content is Some || peer.latest_cached_content is Some
            || peer.requester_latest_known_content is Some
            || peer.requester_latest_stored_content is Some,
        peer.latest_cached_content matches Some(content) ==> snapshot.stored_content_bytes
            == content.content_length,
        peer.latest_cached_content is None ==> snapshot.stored_content_bytes == 0,
        snapshot.latest_cached_content_length == snapshot.stored_content_bytes,
        peer.latest_known_content matches Some(content) ==> snapshot.latest_known_content_length
            == content.content_length,
        peer.latest_known_content is None ==> snapshot.latest_known_content_length == 0,
        !snapshot.stale_cache <==> (peer.latest_known_content is None
            && peer.latest_cached_content is None) || (peer.latest_known_content is Some
            && peer.latest_cached_content is Some && peer.latest_known_content->0.content_id@
            == peer.latest_cached_content->0.content_id@),
        snapshot.storage_protection == PeerStorageProtectionClass::Nothing
            <==> peer.latest_cached_content is None,
        snapshot.storage_protection == PeerStorageProtectionClass::Pinned
            <==> peer.latest_cached_content is Some && peer.pinned_by_us,
        snapshot.storage_protection == PeerStorageProtectionClass::Protected
            <==> peer.latest_cached_content is Some && !peer.pinned_by_us && peer.score_seconds > 0,
        snapshot.tracked_only <==> peer.latest_known_content is Some
            && peer.latest_cached_content is None,
{
}

/// Whether `peers[i]` is the last usable record under a hostname.
pub open spec fn last_named(peers: Seq<NamedPeer>, hostname: Seq<char>, i: int) -> bool {
    &&& 0 <= i < peers.len()
    &&& peers[i].hostname@ == hostname
    &&& is_public_key(peers[i].peer.onion_pubkey@)
    &&& forall|j: int|
        i < j < peers.len() && is_public_key((#[trigger] peers[j]).peer.onion_pubkey@)
            ==> peers[j].hostname@ != hostname
}

/// There is a snapshot for each hostname with a usable record, and it shows the
/// last such record; hostnames of records without a public key have none.
pub proof fn law_snapshots_show_usable_records(
    peers: &[NamedPeer],
    snapshots: TextMap<LocalPeerInventorySnapshot>,
    i: int,
    hostname: Seq<char>,
    snapshot: LocalPeerInventorySnapshot,
)
    requires
        call_ensures(local_peer_inventory_snapshot, (peers,), snapshots),
    ensures
        snapshots@.dom().contains(hostname) <==> exists|k: int| #[trigger]
            last_named(peers@, hostname, k),
        last_named(peers@, hostname, i) && call_ensures(
            peer_snapshot,
            (&peers@[i].peer,),
            snapshot,
        ) ==> snapshots@[hostname] == snapshot,
{
    lemma_snapshots(peers@, hostname);
}

/// The last usable record under a hostname counts.
pub proof fn lemma_snapshots(peers: Seq<NamedPeer>, hostname: Seq<char>)
    ensures
        snapshots_of(peers).dom().contains(hostname) <==> exists|k: int| #[trigger]
            last_named(peers, hostname, k),
        forall|k: int| #[trigger]
            last_named(peers, hostname, k) ==> snapshots_of(peers)[hostname] == snapshot_of(
                peers[k].peer@,
            ),
    decreases peers.len(),
{
    if peers.len() > 0 {
        let rest = peers.drop_last();
        let end = peers.len() - 1;
        lemma_snapshots(rest, hostname);
        if is_public_key(peers[end].peer.onion_pubkey@) && peers[end].hostname@ == hostname {
            assert(last_named(peers, hostname, end));
        } else {
            assert forall|k: int| #[trigger] last_named(peers, hostname, k) implies last_named(
                rest,
                hostname,
                k,
            ) by {
                assert(k != end);
                assert forall|j: int|
                    k < j < rest.len() && is_public_key((#[trigger] rest[j]).peer.onion_pubkey@)
                    implies rest[j].hostname@ != hostname by {
                    assert(rest[j] == peers[j]);
                }
            }
            assert forall|k: int| #[trigger] last_named(rest, hostname, k) implies last_named(
                peers,
                hostname,
                k,
            ) by {
                assert forall|j: int|
                    k < j < peers.len() && is_public_key((#[trigger] peers[j]).peer.onion_pubkey@)
                    implies peers[j].hostname@ != hostname by {
                    if j < end {
                        assert(rest[j] == peers[j]);
                    }
                }
            }
            if exists|k: int| #[trigger] last_named(rest, hostname, k) {
                let k = choose|k: int| #[trigger] last_named(rest, hostname, k);
                assert(last_named(peers, hostname, k));
            }
            if exists|k: int| #[trigger] last_named(peers, hostname, k) {
                let k = choose|k: int| #[trigger] last_named(peers, hostname, k);
                assert(last_named(rest, hostname, k));
            }
        }
    }
}

/// Whether an entry shows nothing on record.
pub open spec fn shows_nothing(entry: PeerInventoryEntry) -> bool {
    &&& !entry.pinned_by_us && !entry.pins_us && !entry.has_storage && !entry.stale_cache
        && !entry.tracked_only
    &&& entry.score_seconds == 0 && entry.score_measured_at == 0 && entry.last_live_at == 0
    &&& entry.stored_content_bytes == 0 && entry.latest_known_content_length == 0
        && entry.latest_cached_content_length == 0
    &&& entry.storage_protection == PeerStorageProtectionClass::Nothing
}

/// Whether an entry shows what is on record.
pub open spec fn shows(entry: PeerInventoryEntry, snapshot: LocalPeerInventorySnapshot) -> bool {
    &&& entry.pinned_by_us == snapshot.pinned_by_us && entry.pins_us == snapshot.pins_us
        && entry.has_storage == snapshot.has_storage && entry.stale_cache == snapshot.stale_cache
        && entry.tracked_only == snapshot.tracked_only
    &&& entry.score_seconds == snapshot.score_seconds && entry.score_measured_at
        == snapshot.score_measured_at && entry.last_live_at == snapshot.last_live_at
    &&& entry.stored_content_bytes == snapshot.stored_content_bytes
        && entry.latest_known_content_length == snapshot.latest_known_content_length
        && entry.latest_cached_content_length == snapshot.latest_cached_content_length
    &&& entry.storage_protection == snapshot.storage_protection
}

/// Each listed entry shows its peer.
pub proof fn lemma_entry_shows_its_peer(
    known: Seq<Seq<char>>,
    own: Seq<char>,
    local_peers: Map<Seq<char>, LocalPeerInventorySnapshot>,
    clients: Map<Seq<char>, i64>,
    failures: Map<Seq<char>, RecentPeerFailure>,
    inventory: Seq<PeerInventoryEntry>,
    i: int,
)
    requires
        lists_entries(
            inventory_views(inventory),
            entries_of(others(known, own), local_peers, clients, failures),
        ),
        0 <= i < inventory.len(),
    ensures
        ({
            let entry = inventory[i];
            let onion = entry.onion_service_id@;
            let online = local_peers.dom().contains(onion) && local_peers[onion].reachability
                == PeerReachability::Online;
            &&& onion != own
            &&& exists|k: int| 0 <= k < known.len() && #[trigger] known[k] == onion
            &&& local_peers.dom().contains(onion) ==> shows(entry, local_peers[onion])
            &&& !local_peers.dom().contains(onion) ==> shows_nothing(entry)
            &&& entry.status == PeerInventoryStatus::Connected <==> clients.dom().contains(onion)
            &&& entry.status == PeerInventoryStatus::Online <==> !clients.dom().contains(onion)
                && online
            &&& failures.dom().contains(onion) ==> {
                &&& entry.last_failure_at == failures[onion].last_failure_at
                &&& entry.last_error_class == failures[onion].last_error_class
                &&& entry.last_error_message@ == failures[onion].last_error_message@
            }
            &&& !failures.dom().contains(onion) ==> {
                &&& entry.last_failure_at == 0
                &&& entry.last_error_class == PeerFailureClass::Unknown
                &&& entry.last_error_message@.len() == 0
            }
            &&& entry.consecutive_failures == 0 && entry.next_retry_at == 0
        }),
{
    let names = others(known, own);
    let entries = entries_of(names, local_peers, clients, failures);
    let views = inventory_views(inventory);
    assert(lists_entries(views, entries));
    let order = choose|order: Seq<usize>| #[trigger]
        stable_order(order, entries.len(), listing_order(entries)) && views == order.map_values(
            |at: usize| entries[at as int],
        );
    assert(views.len() == inventory.len());
    assert(views[i] == inventory[i]@);
    let below = |p: int| 0 <= p < entries.len();
    let at = order[i] as int;
    assert(below(at));
    assert(views[i] == entries[at]);
    assert(entries[at].onion_service_id == names[at]);
    lemma_other_is_known(known, own, at);
    let k = choose|k: int| 0 <= k < known.len() && #[trigger] known[k] == names[at];
}

/// Each entry shows what is on record under its hostname, whether a client is
/// open or the peer answered last, and the recent failure if there is one.
pub proof fn law_inventory_entry_shows_its_peer(
    known: &[String],
    own: &str,
    local_peers: &TextMap<LocalPeerInventorySnapshot>,
    clients: &TextMap<i64>,
    failures: &TextMap<RecentPeerFailure>,
    inventory: Vec<PeerInventoryEntry>,
    i: int,
)
    requires
        call_ensures(peer_inventory, (known, own, local_peers, clients, failures), inventory),
        0 <= i < inventory@.len(),
    ensures
        ({
            let entry = inventory@[i];
            let onion = entry.onion_service_id@;
            let online = local_peers@.dom().contains(onion) && local_peers@[onion].reachability
                == PeerReachability::Online;
            &&& onion != own@
            &&& exists|k: int| 0 <= k < known@.len() && (#[trigger] known@[k])@ == onion
            &&& local_peers@.dom().contains(onion) ==> shows(entry, local_peers@[onion])
            &&& !local_peers@.dom().contains(onion) ==> shows_nothing(entry)
            &&& entry.status == PeerInventoryStatus::Connected <==> clients@.dom().contains(onion)
            &&& entry.status == PeerInventoryStatus::Online <==> !clients@.dom().contains(onion)
                && online
            &&& failures@.dom().contains(onion) ==> {
                &&& entry.last_failure_at == failures@[onion].last_failure_at
                &&& entry.last_error_class == failures@[onion].last_error_class
                &&& entry.last_error_message@ == failures@[onion].last_error_message@
            }
            &&& !failures@.dom().contains(onion) ==> {
                &&& entry.last_failure_at == 0
                &&& entry.last_error_class == PeerFailureClass::Unknown
                &&& entry.last_error_message@.len() == 0
            }
            &&& entry.consecutive_failures == 0 && entry.next_retry_at == 0
        }),
{
    let all = texts(known@);
    lemma_entry_shows_its_peer(all, own@, local_peers@, clients@, failures@, inventory@, i);
    let k = choose|k: int| 0 <= k < all.len() && #[trigger] all[k] == inventory@[i].onion_service_id@;
    assert(known@[k]@ == all[k]);
}

/// Every other peer is a known one.
pub proof fn lemma_other_is_known(items: Seq<Seq<char>>, own: Seq<char>, at: int)
    requires
        0 <= at < others(items, own).len(),
    ensures
        others(items, own)[at] != own,
        exists|k: int| 0 <= k < items.len() && #[trigger] items[k] == others(items, own)[at],
    decreases items.len(),
{
    let rest = items.drop_last();
    if at < others(rest, own).len() {
        lemma_other_is_known(rest, own, at);
        let k = choose|k: int| 0 <= k < rest.len() && #[trigger] rest[k] == others(rest, own)[at];
        assert(items[k] == rest[k]);
        assert(others(items, own)[at] == others(rest, own)[at]);
    } else {
        assert(items[items.len() - 1] == others(items, own)[at]);
    }
}

/// Picks every hostname but one.
pub open spec fn is_not(own: Seq<char>) -> spec_fn(Seq<char>) -> bool {
    |name: Seq<char>| name != own
}

/// The other peers are those that are not `own`.
pub proof fn lemma_others_filter(items: Seq<Seq<char>>, own: Seq<char>)
    ensures
        others(items, own) == items.filter(is_not(own)),
        forall|k: int|
            0 <= k < items.len() && #[trigger] items[k] != own ==> others(items, own).contains(
                items[k],
            ),
    decreases items.len(),
{
    reveal(Seq::filter);
    if items.len() > 0 {
        let rest = items.drop_last();
        let end = items.len() - 1;
        lemma_others_filter(rest, own);
        assert forall|k: int| 0 <= k < items.len() && #[trigger] items[k] != own implies others(
            items,
            own,
        ).contains(items[k]) by {
            if k < end {
                assert(rest[k] == items[k]);
                let a = choose|a: int|
                    0 <= a < others(rest, own).len() && others(rest, own)[a] == rest[k];
                assert(others(items, own)[a] == items[k]);
            } else {
                assert(others(items, own)[others(rest, own).len() as int] == items[k]);
            }
        }
    }
}

/// Every other known peer is listed.
pub proof fn lemma_lists_every_other_peer(
    known: Seq<Seq<char>>,
    own: Seq<char>,
    local_peers: Map<Seq<char>, LocalPeerInventorySnapshot>,
    clients: Map<Seq<char>, i64>,
    failures: Map<Seq<char>, RecentPeerFailure>,
    inventory: Seq<PeerInventoryEntry>,
)
    requires
        lists_entries(
            inventory_views(inventory),
            entries_of(others(known, own), local_peers, clients, failures),
        ),
    ensures
        inventory.len() == known.filter(is_not(own)).len(),
        forall|k: int|
            0 <= k < known.len() && #[trigger] known[k] != own ==> is_listed(inventory, known[k]),
{
    let all = known;
    let names = others(all, own);
    let entries = entries_of(names, local_peers, clients, failures);
    let views = inventory_views(inventory);
    assert(lists_entries(views, entries));
    let order = choose|order: Seq<usize>| #[trigger]
        stable_order(order, entries.len(), listing_order(entries)) && views == order.map_values(
            |at: usize| entries[at as int],
        );
    lemma_others_filter(all, own);
    assert(views.len() == inventory.len());
    let below = |p: int| 0 <= p < entries.len();
    assert forall|k: int| 0 <= k < known.len() && #[trigger] known[k] != own implies is_listed(
        inventory,
        known[k],
    ) by {
        assert(names.contains(all[k]));
        let a = choose|a: int| 0 <= a < names.len() && names[a] == all[k];
        assert(below(a));
        let b = choose|b: int| 0 <= b < order.len() && order[b] as int == a;
        assert(views[b] == entries[a]);
        assert(views[b] == inventory[b]@);
        assert(inventory[b].onion_service_id@ == known[k]);
    }
}

/// Every known peer but ourselves is listed, as often as it is known.
pub proof fn law_inventory_lists_every_other_peer(
    known: &[String],
    own: &str,
    local_peers: &TextMap<LocalPeerInventorySnapshot>,
    clients: &TextMap<i64>,
    failures: &TextMap<RecentPeerFailure>,
    inventory: Vec<PeerInventoryEntry>,
)
    requires
        call_ensures(peer_inventory, (known, own, local_peers, clients, failures), inventory),
    ensures
        inventory@.len() == known@.map_values(|name: String| name@).filter(
            is_not(own@),
        ).len(),
        forall|k: int|
            0 <= k < known@.len() && (#[trigger] known@[k])@ != own@ ==> is_listed(
                inventory@,
                known@[k]@,
            ),
{
    let all = texts(known@);
    assert(all =~= known@.map_values(|name: String| name@));
    lemma_lists_every_other_peer(all, own@, local_peers@, clients@, failures@, inventory@);
    assert forall|k: int| 0 <= k < known@.len() && (#[trigger] known@[k])@ != own@ implies is_listed(
        inventory@,
        known@[k]@,
    ) by {
        assert(all[k] == known@[k]@);
    }
}

/// Whether an inventory lists a hostname.
pub open spec fn is_listed(inventory: Seq<PeerInventoryEntry>, onion: Seq<char>) -> bool {
    exists|i: int| 0 <= i < inventory.len() && (#[trigger] inventory[i]).onion_service_id@ == onion
}

/// Peers with storage come first, then reachable ones, then all others; inside
/// a group open clients come before peers that answered last and those before
/// all others; then whoever answered later, then whoever has more score, and
/// equals stand in the order of their names.
pub proof fn law_inventory_order(
    known: &[String],
    own: &str,
    local_peers: &TextMap<LocalPeerInventorySnapshot>,
    clients: &TextMap<i64>,
    failures: &TextMap<RecentPeerFailure>,
    inventory: Vec<PeerInventoryEntry>,
    i: int,
    j: int,
)
    requires
        call_ensures(peer_inventory, (known, own, local_peers, clients, failures), inventory),
        0 <= i < j < inventory@.len(),
    ensures
        ({
            let a = inventory@[i];
            let b = inventory@[j];
            let offline = PeerInventoryStatus::Offline;
            &&& b.has_storage ==> a.has_storage
            &&& a.has_storage == b.has_storage ==> {
                &&& a.status == offline ==> b.status == offline
                &&& b.status == PeerInventoryStatus::Connected ==> a.status
                    == PeerInventoryStatus::Connected
                &&& a.status == b.status ==> {
                    &&& a.last_live_at >= b.last_live_at
                    &&& a.last_live_at == b.last_live_at ==> {
                        &&& a.score_seconds >= b.score_seconds
                        &&& a.score_seconds == b.score_seconds ==> !text_before(
                            b.onion_service_id@,
                            a.onion_service_id@,
                        )
                    }
                }
            }
        }),
{
    let names = others(texts(known@), own@);
    let entries = entries_of(names, local_peers@, clients@, failures@);
    let views = inventory_views(inventory@);
    law_inventory_lists_storage_peers_first(views, entries, i, j);
    assert(views[i] == inventory@[i]@ && views[j] == inventory@[j]@);
}

/// Storage ranks before reachability, and both before neither; an open client
/// ranks before an answer, and an answer before none.
pub proof fn law_ranks_put_the_useful_first(
    a: &PeerInventoryEntry,
    b: &PeerInventoryEntry,
    rank_a: u8,
    rank_b: u8,
    first: PeerInventoryStatus,
    second: PeerInventoryStatus,
    first_rank: u8,
    second_rank: u8,
)
    requires
        call_ensures(peer_inventory_group_rank, (a,), rank_a),
        call_ensures(peer_inventory_group_rank, (b,), rank_b),
        call_ensures(peer_inventory_status_rank, (first,), first_rank),
        call_ensures(peer_inventory_status_rank, (second,), second_rank),
    ensures
        a.has_storage && b.has_storage ==> rank_a == rank_b,
        a.has_storage && !b.has_storage ==> rank_a < rank_b,
        !a.has_storage && !b.has_storage ==> {
            &&& a.status == PeerInventoryStatus::Offline && b.status == PeerInventoryStatus::Offline
                ==> rank_a == rank_b
            &&& a.status != PeerInventoryStatus::Offline && b.status != PeerInventoryStatus::Offline
                ==> rank_a == rank_b
            &&& a.status != PeerInventoryStatus::Offline && b.status == PeerInventoryStatus::Offline
                ==> rank_a < rank_b
        },
        first_rank == second_rank <==> first == second,
        first == PeerInventoryStatus::Connected ==> first_rank <= second_rank,
        first == PeerInventoryStatus::Offline ==> first_rank >= second_rank,
{
}

/// The exported source lists each built-in peer and each reachable peer once,
/// in the order of their names, and nothing else.
pub proof fn law_export_lists_built_in_and_reachable_peers(
    inventory: &[PeerInventoryEntry],
    source: String,
)
    requires
        call_ensures(export_built_in_peer_source, (inventory,), source),
    ensures
        exists|peers: Seq<Seq<char>>|
            {
                &&& source@ == source_header() + #[trigger] source_lines(peers) + "];\n"@
                &&& strictly_ascending(peers)
                &&& forall|name: Seq<char>| #[trigger]
                    peers.contains(name) <==> built_in_texts().contains(name) || is_reachable(
                        inventory@,
                        name,
                    )
            },
{
    let views = inventory_views(inventory@);
    let live = reachable(views);
    let peers = choose|peers: Seq<Seq<char>>| #[trigger]
        strictly_ascending(peers) && peers.to_set() == built_in_texts().to_set().union(
            live.to_set(),
        ) && source@ == source_header() + source_lines(peers) + "];\n"@;
    lemma_reachable(inventory@);
    assert forall|name: Seq<char>| #[trigger] peers.contains(name) <==> built_in_texts().contains(
        name,
    ) || is_reachable(inventory@, name) by {
        assert(peers.contains(name) <==> peers.to_set().contains(name));
        assert(live.contains(name) <==> live.to_set().contains(name));
        assert(built_in_texts().contains(name) <==> built_in_texts().to_set().contains(name));
    }
    assert(source@ == source_header() + source_lines(peers) + "];\n"@);
}

/// Whether an inventory lists a hostname as reachable.
pub open spec fn is_reachable(inventory: Seq<PeerInventoryEntry>, onion: Seq<char>) -> bool {
    exists|i: int|
        0 <= i < inventory.len() && (#[trigger] inventory[i]).onion_service_id@ == onion
            && inventory[i].status != PeerInventoryStatus::Offline
}

/// Reachable hostnames are those of entries that are not offline.
pub proof fn lemma_reachable(inventory: Seq<PeerInventoryEntry>)
    ensures
        forall|name: Seq<char>| #[trigger]
            reachable(inventory_views(inventory)).contains(name) <==> is_reachable(inventory, name),
    decreases inventory.len(),
{
    let live = reachable(inventory_views(inventory));
    if inventory.len() > 0 {
        let rest = inventory.drop_last();
        let end = inventory.len() - 1;
        let before = reachable(inventory_views(rest));
        lemma_reachable(rest);
        assert(inventory_views(inventory).drop_last() =~= inventory_views(rest));
        assert(inventory_views(inventory).last() == inventory[end]@);
        assert forall|name: Seq<char>| #[trigger] live.contains(name) <==> is_reachable(
            inventory,
            name,
        ) by {
            if live.contains(name) {
                let a = choose|a: int| 0 <= a < live.len() && live[a] == name;
                if a < before.len() {
                    assert(before[a] == name);
                    assert(before.contains(name));
                    let i = choose|i: int|
                        0 <= i < rest.len() && (#[trigger] rest[i]).onion_service_id@ == name
                            && rest[i].status != PeerInventoryStatus::Offline;
                    assert(inventory[i] == rest[i]);
                } else {
                    assert(inventory[end].onion_service_id@ == name);
                }
            }
            if is_reachable(inventory, name) {
                let i = choose|i: int|
                    0 <= i < inventory.len() && (#[trigger] inventory[i]).onion_service_id@ == name
                        && inventory[i].status != PeerInventoryStatus::Offline;
                if i < end {
                    assert(rest[i] == inventory[i]);
                    assert(before.contains(name));
                    let a = choose|a: int| 0 <= a < before.len() && before[a] == name;
                    assert(live[a] == name);
                } else {
                    assert(live[before.len() as int] == name);
                }
            }
        }
    }
}

/// Leaving one item out leaves the others different.
proof fn lemma_others_distinct(items: Seq<Seq<char>>, own: Seq<char>)
    requires
        items.no_duplicates(),
    ensures
        others(items, own).no_duplicates(),
    decreases items.len(),
{
    if items.len() > 0 {
        let rest = items.drop_last();
        let end = items.len() - 1;
        assert(rest.no_duplicates()) by {
            assert forall|i: int, j: int|
                0 <= i < rest.len() && 0 <= j < rest.len() && i != j implies rest[i] != rest[j] by {
                assert(items[i] != items[j]);
            }
        }
        lemma_others_distinct(rest, own);
        let before = others(rest, own);
        let all = others(items, own);
        assert forall|i: int, j: int| 0 <= i < j < all.len() implies all[i] != all[j] by {
            assert(all[i] == before[i]);
            if j < before.len() {
                assert(all[j] == before[j]);
            } else {
                lemma_other_is_known(rest, own, i);
                let k = choose|k: int| 0 <= k < rest.len() && #[trigger] rest[k] == before[i];
                assert(items[k] != items[end]);
            }
        }
    }
}

/// An inventory of known peers lists no peer twice.
pub proof fn lemma_inventory_distinct(
    known: Seq<Seq<char>>,
    own: Seq<char>,
    local_peers: Map<Seq<char>, LocalPeerInventorySnapshot>,
    clients: Map<Seq<char>, i64>,
    failures: Map<Seq<char>, RecentPeerFailure>,
    inventory: Seq<PeerInventoryEntry>,
)
    requires
        strictly_ascending(known),
        lists_entries(
            inventory_views(inventory),
            entries_of(others(known, own), local_peers, clients, failures),
        ),
    ensures
        inventory.map_values(|entry: PeerInventoryEntry| entry.onion_service_id@).no_duplicates(),
{
    let names = others(known, own);
    let entries = entries_of(names, local_peers, clients, failures);
    let views = inventory_views(inventory);
    let listed = inventory.map_values(|entry: PeerInventoryEntry| entry.onion_service_id@);
    crate::collections::lemma_ascending_no_duplicates(known);
    lemma_others_distinct(known, own);
    let before = listing_order(entries);
    let order = choose|order: Seq<usize>| #[trigger]
        stable_order(order, entries.len(), before) && views == order.map_values(
            |at: usize| entries[at as int],
        );
    assert(views.len() == inventory.len() && listed.len() == inventory.len());
    let below = |p: int| 0 <= p < entries.len();
    assert forall|i: int, j: int| 0 <= i < j < listed.len() implies listed[i] != listed[j] by {
        let x = order[i] as int;
        let y = order[j] as int;
        assert(below(x) && below(y));
        assert(precedes(before, x, y));
        lemma_listed_before(entries[x], entries[x], entries[x]);
        assert(x != y);
        assert(views[i] == inventory[i]@ && views[j] == inventory[j]@);
        assert(views[i] == entries[x] && views[j] == entries[y]);
        assert(entries[x].onion_service_id == names[x]);
        assert(entries[y].onion_service_id == names[y]);
    }
}

} // verus!

//! The in-memory state of one node.

use crate::admission::{
    admission_rule, priority, track_peer_identity_with_capacity,
    track_rule, trimmed_peer, trims, PeerAdmissionPlan, TrackPeerPlan, TrimmedPeer,
    MAX_TRACKED_PEERS,
};
use crate::arith::{
    at_least_zero, at_least_zero_i64, clamp_i64, i64_from_usize, saturating_sub_i64,
};
use crate::builtin::{built_in_peers, built_in_texts, insert_all};
use crate::collections::{retained, strictly_ascending, texts, TextMap, TextSet};
use crate::content::{
    ensure_owner_publication_allowed, publication_block, responder_content, responder_rule,
    CurrentContent, Limits,
};
use crate::exchange::PEER_EXCHANGE_COOLDOWN_SECS;
use crate::inventory::{
    entries_of, inventory_views, lists_entries, local_peer_inventory_snapshot, peer_inventory,
    snapshots_of, LocalPeerInventorySnapshot, NamedPeer, PeerInventoryEntry,
    PeerInventoryEntryView, RecentPeerFailure,
};
use crate::lineage::{known_view, stored_view, time_before, time_less, ParsedRevision, PeerRevision};
use crate::model::{
    content_view, peer_views, ContentInfo, Duration, FirstContactDirection, Peer, PeerOrigin, PeerReachability,
    PeerView, Timestamp,
};
use crate::outside::{is_public_key, public_key_is_valid};
use crate::publish::{fresh_attempt, PublishAttempt};
use crate::records::{
    cached_content, find_peer, is_tracked_peer, peer_origin_code, peer_with_key,
};
use crate::recovery::empty_scan;
use crate::recovery_pass::{others, RecoveryPass};
use crate::retry::{classify_recent_peer_failure, failure_class};
use crate::score::{
    observed_seconds, score_after, update_peer_score, ScoreUpdate,
};
use crate::status::{
    failed_precondition, fails_with, invalid_argument, invalid_onion, invalid_onion_error, no_store,
    no_store_error, self_peer, self_peer_error, Status,
};
use crate::text::{bytes_copy, bytes_eq, text_before, text_eq};
use crate::timestamps::{duration_to_millis_i64, millis_of, now_secs, seconds_of};
use crate::verification::{begins_verification, VerificationAttempt};
use vstd::prelude::*;

verus! {

/// DEFAULT_ALLOCATED_STORAGE_FOR_PEERS is the default peer-cache budget.
pub const DEFAULT_ALLOCATED_STORAGE_FOR_PEERS: i64 = 1024 * 1024 * 1024;

/// DEFAULT_MIN_REPLICAS is the default fresh-replica target for our content.
pub const DEFAULT_MIN_REPLICAS: i64 = 100;

/// MAX_CACHED_PEER_CLIENTS bounds the in-memory outbound peer client cache.
pub const MAX_CACHED_PEER_CLIENTS: usize = 32;

/// PEER_CLIENT_CACHE_IDLE_TTL_SECS expires idle cached peer clients.
pub const PEER_CLIENT_CACHE_IDLE_TTL_SECS: i64 = 300;

/// StorageConfig is the local storage policy.
#[derive(Clone, Copy, Debug, PartialEq, Eq, Structural)]
pub struct StorageConfig {
    /// allocated_storage_for_peers is how many bytes may be held for peers.
    pub allocated_storage_for_peers: i64,
    /// min_replicas is how many fresh replicas of our content there should be.
    pub min_replicas: i64,
}

/// The default local storage policy.
pub open spec fn default_config() -> StorageConfig {
    StorageConfig {
        allocated_storage_for_peers: DEFAULT_ALLOCATED_STORAGE_FOR_PEERS,
        min_replicas: DEFAULT_MIN_REPLICAS,
    }
}

/// Build the default local storage policy.
pub fn default_storage_config() -> (config: StorageConfig)
    ensures
        config == default_config(),
{
    StorageConfig {
        allocated_storage_for_peers: DEFAULT_ALLOCATED_STORAGE_FOR_PEERS,
        min_replicas: DEFAULT_MIN_REPLICAS,
    }
}

/// PeerRetryPolicy bounds one operation on a peer.
#[derive(Clone, Copy, Debug, PartialEq, Eq, Structural)]
pub struct PeerRetryPolicy {
    /// connect_timeout bounds one dial.
    pub connect_timeout: Duration,
    /// rpc_timeout bounds one RPC.
    pub rpc_timeout: Duration,
    /// total_budget bounds the whole operation.
    pub total_budget: Duration,
    /// initial_backoff is the first wait between attempts.
    pub initial_backoff: Duration,
    /// max_backoff is the longest wait between attempts.
    pub max_backoff: Duration,
}

/// ResourcePolicy is the read-only peer resource policy exposed to operators.
#[derive(Clone, Copy, Debug, PartialEq, Eq, Structural)]
pub struct ResourcePolicy {
    /// max_peer_content_bytes is the largest revision that peers exchange.
    pub max_peer_content_bytes: i64,
    /// peer_grpc_message_limit_bytes is the largest message that peers exchange.
    pub peer_grpc_message_limit_bytes: i64,
    /// peer_connect_timeout_ms bounds one dial.
    pub peer_connect_timeout_ms: i64,
    /// peer_rpc_timeout_ms bounds one RPC.
    pub peer_rpc_timeout_ms: i64,
    /// peer_operation_total_budget_ms bounds a whole operation.
    pub peer_operation_total_budget_ms: i64,
    /// peer_retry_initial_backoff_ms is the first wait between attempts.
    pub peer_retry_initial_backoff_ms: i64,
    /// peer_retry_max_backoff_ms is the longest wait between attempts.
    pub peer_retry_max_backoff_ms: i64,
    /// max_tracked_peers is how many peers are tracked at most.
    pub max_tracked_peers: i64,
    /// max_cached_peer_clients is how many clients are kept open at most.
    pub max_cached_peer_clients: i64,
    /// chunking_supported reports whether revisions may be split.
    pub chunking_supported: bool,
}

/// Return the current read-only peer resource policy exposed to operators.
pub fn resource_policy(limits: &Limits, retry_policy: &PeerRetryPolicy) -> (policy: ResourcePolicy)
    ensures
        policy == (ResourcePolicy {
            max_peer_content_bytes: limits.max_content() as i64,
            peer_grpc_message_limit_bytes: clamp_i64(
                limits.peer_grpc_message_limit_bytes as int,
            ) as i64,
            peer_connect_timeout_ms: clamp_i64(millis_of(retry_policy.connect_timeout)) as i64,
            peer_rpc_timeout_ms: clamp_i64(millis_of(retry_policy.rpc_timeout)) as i64,
            peer_operation_total_budget_ms: clamp_i64(millis_of(retry_policy.total_budget)) as i64,
            peer_retry_initial_backoff_ms: clamp_i64(
                millis_of(retry_policy.initial_backoff),
            ) as i64,
            peer_retry_max_backoff_ms: clamp_i64(millis_of(retry_policy.max_backoff)) as i64,
            max_tracked_peers: 1024,
            max_cached_peer_clients: 32,
            chunking_supported: false,
        }),
{
    ResourcePolicy {
        max_peer_content_bytes: limits.max_peer_content_bytes_i64(),
        peer_grpc_message_limit_bytes: i64_from_usize(limits.peer_grpc_message_limit_bytes),
        peer_connect_timeout_ms: duration_to_millis_i64(retry_policy.connect_timeout),
        peer_rpc_timeout_ms: duration_to_millis_i64(retry_policy.rpc_timeout),
        peer_operation_total_budget_ms: duration_to_millis_i64(retry_policy.total_budget),
        peer_retry_initial_backoff_ms: duration_to_millis_i64(retry_policy.initial_backoff),
        peer_retry_max_backoff_ms: duration_to_millis_i64(retry_policy.max_backoff),
        max_tracked_peers: i64_from_usize(MAX_TRACKED_PEERS),
        max_cached_peer_clients: i64_from_usize(MAX_CACHED_PEER_CLIENTS),
        chunking_supported: false,
    }
}

/// LiveRecoveryProbeState records whether one peer already triggered the
/// best-effort live-contact recovery probe for the current in-memory session.
#[derive(Clone, Copy, Debug, PartialEq, Eq, Structural)]
pub struct LiveRecoveryProbeState {
    /// last_contact_at_secs is when the peer most recently had one live
    /// contact that refreshed this in-memory session state.
    pub last_contact_at_secs: i64,
    /// probe_in_progress reports whether one background or inline probe is
    /// already running for this peer session.
    pub probe_in_progress: bool,
    /// probe_completed reports whether one full probe already analyzed this
    /// peer session successfully.
    pub probe_completed: bool,
}

/// Node represents a single BarterBackup instance.
#[derive(Debug)]
pub struct Node {
    onion_address: String,
    public_key: Vec<u8>,
    limits: Limits,
    started_at: Option<Timestamp>,
    peer_score_observation_started_at: Option<Timestamp>,
    known_peers: TextSet,
    storage_config: StorageConfig,
    peer_clients: TextMap<i64>,
    peer_exchange_last_attempt: TextMap<i64>,
    peer_live_recovery_probe_state: TextMap<LiveRecoveryProbeState>,
    recent_peer_failures: TextMap<RecentPeerFailure>,
}

/// NodeView is the mathematical content of a `Node`.
pub struct NodeView {
    /// onion_address is the node's own hostname.
    pub onion_address: Seq<char>,
    /// public_key is the node's own public key.
    pub public_key: Seq<u8>,
    /// limits holds the fixed sizes of the peer protocol.
    pub limits: Limits,
    /// started_at is when the node was started, if it was.
    pub started_at: Option<Timestamp>,
    /// observation is when local peer observation most recently became valid
    /// for score accounting, unless it is suspended.
    pub observation: Option<Timestamp>,
    /// known_peers holds the hostnames of all known peers.
    pub known_peers: Set<Seq<char>>,
    /// storage_config is the current local storage policy.
    pub storage_config: StorageConfig,
    /// clients tells for every cached client when it was last used.
    pub clients: Map<Seq<char>, i64>,
    /// exchanges tells for every peer when an exchange was last attempted.
    pub exchanges: Map<Seq<char>, i64>,
    /// probes tells for every peer session how its live recovery probe stands.
    pub probes: Map<Seq<char>, LiveRecoveryProbeState>,
    /// failures holds the latest failure of each peer.
    pub failures: Map<Seq<char>, RecentPeerFailure>,
}

impl View for Node {
    type V = NodeView;

    closed spec fn view(&self) -> NodeView {
        NodeView {
            onion_address: self.onion_address@,
            public_key: self.public_key@,
            limits: self.limits,
            started_at: self.started_at,
            observation: self.peer_score_observation_started_at,
            known_peers: self.known_peers@,
            storage_config: self.storage_config,
            clients: self.peer_clients@,
            exchanges: self.peer_exchange_last_attempt@,
            probes: self.peer_live_recovery_probe_state@,
            failures: self.recent_peer_failures@,
        }
    }
}

/// The node before anything has happened.
pub open spec fn fresh_node(
    onion_address: Seq<char>,
    public_key: Seq<u8>,
    limits: Limits,
    now: Timestamp,
    known_peers: Set<Seq<char>>,
) -> NodeView {
    NodeView {
        onion_address,
        public_key,
        limits,
        started_at: None,
        observation: Some(now),
        known_peers,
        storage_config: default_config(),
        clients: Map::empty(),
        exchanges: Map::empty(),
        probes: Map::empty(),
        failures: Map::empty(),
    }
}

/// The hostnames of the peers on record that are not our own, among those
/// whose recorded key is a public key.
pub open spec fn recorded_onions(peers: Seq<NamedPeer>, own: Seq<char>) -> Set<Seq<char>>
    decreases peers.len(),
{
    if peers.len() == 0 {
        Set::<Seq<char>>::empty()
    } else {
        let rest = recorded_onions(peers.drop_last(), own);
        if is_public_key(peers.last().peer@.onion_pubkey) && peers.last().hostname@ != own {
            rest.insert(peers.last().hostname@)
        } else {
            rest
        }
    }
}

/// Whether a cached client is still fresh at `now`.
pub open spec fn client_kept(now: int) -> spec_fn(i64) -> bool {
    |last_used: i64| clamp_i64(now - last_used) <= PEER_CLIENT_CACHE_IDLE_TTL_SECS
}

/// Whether an exchange attempt still matters at `now`.
pub open spec fn exchange_kept(now: int) -> spec_fn(i64) -> bool {
    |attempted: i64| clamp_i64(now - attempted) <= PEER_EXCHANGE_COOLDOWN_SECS
}

/// Whether a probe session goes on at `now`.
pub open spec fn probe_kept(now: int) -> spec_fn(LiveRecoveryProbeState) -> bool {
    |state: LiveRecoveryProbeState|
        state.probe_in_progress || clamp_i64(now - state.last_contact_at_secs)
            <= PEER_CLIENT_CACHE_IDLE_TTL_SECS
}

/// The node once expired clients, exchange attempts and probe sessions are gone.
pub open spec fn pruned(node: NodeView, now: int) -> NodeView {
    NodeView {
        clients: retained(node.clients, client_kept(now)),
        exchanges: retained(node.exchanges, exchange_kept(now)),
        probes: retained(node.probes, probe_kept(now)),
        ..node
    }
}

/// Whether `key` is the longest unused of the clients that `among` picks, the
/// first by name among equals.
pub open spec fn longest_unused(
    clients: Map<Seq<char>, i64>,
    among: spec_fn(Seq<char>) -> bool,
    key: Seq<char>,
) -> bool {
    &&& clients.dom().contains(key)
    &&& among(key)
    &&& forall|other: Seq<char>| #[trigger]
        clients.dom().contains(other) && among(other) && other != key ==> clients[key]
            < clients[other] || (clients[key] == clients[other] && text_before(key, other))
}

/// Picks the names that are not pinned.
pub open spec fn not_pinned(pinned: Set<Seq<char>>) -> spec_fn(Seq<char>) -> bool {
    |onion: Seq<char>| !pinned.contains(onion)
}

/// Picks every name.
pub open spec fn anyone() -> spec_fn(Seq<char>) -> bool {
    |onion: Seq<char>| true
}

/// Whether `key` is the client that has to go: the longest unused one of the
/// peers that are not pinned, or of all where every one is pinned.
pub open spec fn is_victim(
    clients: Map<Seq<char>, i64>,
    pinned: Set<Seq<char>>,
    key: Seq<char>,
) -> bool {
    if exists|other: Seq<char>| #[trigger]
        clients.dom().contains(other) && !pinned.contains(other) {
        longest_unused(clients, not_pinned(pinned), key)
    } else {
        longest_unused(clients, anyone(), key)
    }
}

/// Whether `after` is the cache once it is back within its bound.
pub open spec fn trimmed_cache(
    clients: Map<Seq<char>, i64>,
    pinned: Set<Seq<char>>,
    after: Map<Seq<char>, i64>,
) -> bool {
    if clients.dom().len() <= MAX_CACHED_PEER_CLIENTS {
        after == clients
    } else {
        exists|victim: Seq<char>| #[trigger]
            is_victim(clients, pinned, victim) && after == clients.remove(victim)
    }
}

/// AddPeerPlan tells how one more peer becomes known.
#[derive(Debug)]
pub enum AddPeerPlan {
    /// Remember keeps the peer in memory only, as there is no store.
    Remember,
    /// Track puts the peer on record.
    Track(TrackPeerPlan),
}

/// Whether `outcome` is how the peer with `key` is admitted on record or,
/// without a store, in memory.
pub open spec fn add_rule(
    peers: Option<Seq<PeerView>>,
    key: Seq<u8>,
    onion: Seq<char>,
    origin: PeerOrigin,
    direction: FirstContactDirection,
    outcome: Result<AddPeerPlan, Status>,
) -> bool {
    match peers {
        None => outcome matches Ok(plan) && plan is Remember,
        Some(records) => exists|track: Result<TrackPeerPlan, Status>| #[trigger]
            follows_track(track, outcome) && tracks(records, key, onion, origin, direction, track),
    }
}

/// Whether `track` is how the peer with `key` is admitted on record.
pub open spec fn tracks(
    records: Seq<PeerView>,
    key: Seq<u8>,
    onion: Seq<char>,
    origin: PeerOrigin,
    direction: FirstContactDirection,
    track: Result<TrackPeerPlan, Status>,
) -> bool {
    exists|admission: PeerAdmissionPlan| #[trigger]
        admission_rule(
            records,
            key,
            priority(false, origin, 0, direction),
            MAX_TRACKED_PEERS as nat,
            admission,
        ) && track_rule(records, admission, onion, direction, track)
}

/// Whether `outcome` passes on what `track` says.
pub open spec fn follows_track(
    track: Result<TrackPeerPlan, Status>,
    outcome: Result<AddPeerPlan, Status>,
) -> bool {
    match track {
        Ok(plan) => outcome == Ok::<AddPeerPlan, Status>(AddPeerPlan::Track(plan)),
        Err(status) => outcome == Err::<AddPeerPlan, Status>(status),
    }
}

/// Whether `outcome` passes on how a peer is admitted.
pub open spec fn passes_on(
    given: Result<AddPeerPlan, Status>,
    outcome: Result<Option<AddPeerPlan>, Status>,
) -> bool {
    match given {
        Ok(plan) => outcome == Ok::<Option<AddPeerPlan>, Status>(Some(plan)),
        Err(status) => outcome == Err::<Option<AddPeerPlan>, Status>(status),
    }
}

/// Whether `outcome` is how the peer with `key` is admitted after a contact.
pub open spec fn contact_added(
    peers: Option<Seq<PeerView>>,
    key: Seq<u8>,
    onion: Seq<char>,
    direction: FirstContactDirection,
    outcome: Result<Option<AddPeerPlan>, Status>,
) -> bool {
    exists|given: Result<AddPeerPlan, Status>| #[trigger]
        passes_on(given, outcome) && add_rule(
            peers,
            key,
            onion,
            PeerOrigin::Discovered,
            direction,
            given,
        )
}

/// RequesterRevisionState is what a peer reported of our revisions.
#[derive(Debug)]
pub struct RequesterRevisionState {
    /// latest_stored is the newest revision that the peer holds.
    pub latest_stored: Option<ContentInfo>,
    /// latest_known is the newest revision that the peer knows of.
    pub latest_known: Option<ContentInfo>,
}

/// VerifiedContent is what a verification showed of a peer.
#[derive(Debug)]
pub struct VerifiedContent {
    /// content_id names the revision that the peer proved to hold.
    pub content_id: Option<Vec<u8>>,
    /// verified_at is when it did.
    pub verified_at: Option<i64>,
}

/// Copy the summary of a reported revision.
fn reported_content(revision: &Option<ParsedRevision>) -> (content: Option<ContentInfo>)
    ensures
        content_view(content) == match *revision {
            Some(parsed) => Some(parsed.content@),
            None => None,
        },
{
    match revision {
        Some(parsed) => Some(parsed.content.clone()),
        None => None,
    }
}

/// PinChange is one change of an operator pin.
#[derive(Debug)]
pub struct PinChange {
    /// public_key identifies the peer.
    pub public_key: Vec<u8>,
    /// pinned_by_us is the pin to put on record.
    pub pinned_by_us: bool,
}

/// Whether `outcome` is how a pin is changed.
pub open spec fn pin_rule(
    onion: Seq<char>,
    own: Seq<char>,
    key: Option<Vec<u8>>,
    peers: Option<Seq<PeerView>>,
    pinned: bool,
    outcome: Result<PinChange, Status>,
) -> bool {
    if onion == own {
        fails_with(outcome, self_peer())
    } else {
        match key {
            None => fails_with(outcome, invalid_onion()),
            Some(public_key) => match peers {
                None => fails_with(outcome, no_store()),
                Some(records) => if find_peer(records, public_key@) is None {
                    fails_with(outcome, failed_precondition("peer is not tracked; connect it first"@))
                } else {
                    outcome matches Ok(change) && change.public_key@ == public_key@
                        && change.pinned_by_us == pinned
                },
            },
        }
    }
}

/// ReachabilityUpdate is one contact with a peer to put on record.
#[derive(Debug)]
pub struct ReachabilityUpdate {
    /// public_key identifies the peer.
    pub public_key: Vec<u8>,
    /// reachability is how the contact went.
    pub reachability: PeerReachability,
    /// last_live_at is when the peer answered, if it did.
    pub last_live_at: Option<i64>,
}

/// Whether `outcome` is what a contact with a peer puts on record: nothing for
/// ourselves, without a store, or for a peer that is not tracked.
pub open spec fn contact_rule(
    onion: Seq<char>,
    own: Seq<char>,
    key: Option<Vec<u8>>,
    peers: Option<Seq<PeerView>>,
    live_at: Option<i64>,
    outcome: Result<Option<ReachabilityUpdate>, Status>,
) -> bool {
    if onion == own || peers is None {
        outcome matches Ok(update) && update is None
    } else {
        match key {
            None => fails_with(outcome, invalid_onion()),
            Some(public_key) => if find_peer(peers->0, public_key@) is None {
                outcome matches Ok(update) && update is None
            } else {
                outcome matches Ok(Some(update)) && update.public_key@ == public_key@
                    && update.last_live_at == live_at && update.reachability == if live_at is Some {
                    PeerReachability::Online
                } else {
                    PeerReachability::Offline
                }
            },
        }
    }
}

/// RollupDecision tells whether peer metadata is rolled up into the content.
#[derive(Clone, Copy, Debug, PartialEq, Eq, Structural)]
pub enum RollupDecision {
    /// NotPending means that nothing is to be rolled up.
    NotPending,
    /// NotDue means that it is not time yet.
    NotDue,
    /// RollUp flushes pending metadata and rewrites the content.
    RollUp,
}

/// The peers on record, where there is a store.
pub open spec fn record_views(peers: Option<&[Peer]>) -> Option<Seq<PeerView>> {
    match peers {
        Some(records) => Some(peer_views(records@)),
        None => None,
    }
}

/// The named peers on record, where there is a store.
pub open spec fn named_views(peers: Option<&[NamedPeer]>) -> Map<
    Seq<char>,
    LocalPeerInventorySnapshot,
> {
    match peers {
        Some(records) => snapshots_of(records@),
        None => Map::empty(),
    }
}

impl Node {
    /// All collections are well formed, and the client cache is within its bound.
    pub closed spec fn wf(&self) -> bool {
        &&& self.known_peers.wf()
        &&& self.peer_clients.wf()
        &&& self.peer_exchange_last_attempt.wf()
        &&& self.peer_live_recovery_probe_state.wf()
        &&& self.recent_peer_failures.wf()
        &&& self.peer_clients@.dom().len() <= MAX_CACHED_PEER_CLIENTS
    }

    /// The client cache of a well-formed node never exceeds its bound.
    pub proof fn law_client_cache_stays_bounded(&self)
        requires
            self.wf(),
        ensures
            self@.clients.dom().len() <= MAX_CACHED_PEER_CLIENTS,
    {
    }

    /// Create a node without a local encrypted store.
    pub fn new(onion_address: String, public_key: Vec<u8>, limits: Limits, now: Timestamp) -> (node:
        Self)
        ensures
            node.wf(),
            node@ == fresh_node(
                onion_address@,
                public_key@,
                limits,
                now,
                built_in_texts().to_set(),
            ),
    {
        let mut known_peers = TextSet::new();
        let built_in = built_in_peers();
        insert_all(&mut known_peers, built_in.as_slice());
        assert(known_peers@ =~= built_in_texts().to_set());
        Node {
            onion_address,
            public_key,
            limits,
            started_at: None,
            peer_score_observation_started_at: Some(now),
            known_peers,
            storage_config: default_storage_config(),
            peer_clients: TextMap::new(),
            peer_exchange_last_attempt: TextMap::new(),
            peer_live_recovery_probe_state: TextMap::new(),
            recent_peer_failures: TextMap::new(),
        }
    }

    /// Create a node with a local encrypted store that has `peers` on record.
    pub fn with_local_storage(
        onion_address: String,
        public_key: Vec<u8>,
        limits: Limits,
        now: Timestamp,
        peers: &[NamedPeer],
    ) -> (node: Self)
        ensures
            node.wf(),
            node@ == fresh_node(
                onion_address@,
                public_key@,
                limits,
                now,
                recorded_onions(peers@, onion_address@).union(built_in_texts().to_set()),
            ),
    {
        let mut node = Node::new(onion_address, public_key, limits, now);
        node.refresh_known_peers_from_store(peers);
        node
    }

    /// Return the node onion hostname.
    pub fn address(&self) -> (onion: &str)
        ensures
            onion@ == self@.onion_address,
    {
        self.onion_address.as_str()
    }

    /// Mark the node as started so uptime can be reported.
    pub fn mark_started(&mut self, now: Timestamp)
        requires
            old(self).wf(),
        ensures
            final(self).wf(),
            final(self)@ == (NodeView { started_at: Some(now), ..old(self)@ }),
    {
        self.started_at = Some(now);
    }

    /// Start a new local observation window for peer score accounting.
    pub fn start_peer_score_observation_window(&mut self, now: Timestamp)
        requires
            old(self).wf(),
        ensures
            final(self).wf(),
            final(self)@ == (NodeView { observation: Some(now), ..old(self)@ }),
    {
        self.peer_score_observation_started_at = Some(now);
    }

    /// Suspend local observation for peer score accounting.
    pub fn suspend_peer_score_observation_window(&mut self)
        requires
            old(self).wf(),
        ensures
            final(self).wf(),
            final(self)@ == (NodeView { observation: None, ..old(self)@ }),
    {
        self.peer_score_observation_started_at = None;
    }

    /// Return the current peer-score observation-window start in seconds.
    pub fn peer_score_observation_started_at_secs(&self) -> (secs: Option<i64>)
        ensures
            secs == observation_secs(self@),
    {
        match self.peer_score_observation_started_at {
            Some(at) => Some(now_secs(at)),
            None => None,
        }
    }

    /// Return node uptime in whole seconds.
    pub fn uptime_seconds(&self, now: Timestamp) -> (secs: i64)
        ensures
            secs == uptime_of(self@, now),
    {
        match self.started_at {
            Some(at) => now.secs.saturating_sub(at.secs) as i64,
            None => 0,
        }
    }

    /// Report whether `peer_onion` identifies the local node itself.
    pub fn is_our_onion(&self, peer_onion: &str) -> (ours: bool)
        ensures
            ours == (peer_onion@ == self@.onion_address),
    {
        text_eq(peer_onion, self.onion_address.as_str())
    }

    /// Report whether `peer_public_key` belongs to the local node itself.
    pub fn is_our_public_key(&self, peer_public_key: &[u8]) -> (ours: bool)
        ensures
            ours == (peer_public_key@ == self@.public_key),
    {
        bytes_eq(peer_public_key, self.public_key.as_slice())
    }

    /// Return the node's own public key.
    pub fn public_key(&self) -> (key: &[u8])
        ensures
            key@ == self@.public_key,
    {
        self.public_key.as_slice()
    }

    /// Return the fixed sizes of the peer protocol.
    pub fn limits(&self) -> (limits: Limits)
        ensures
            limits == self@.limits,
    {
        self.limits
    }

    /// Return the current local storage policy.
    pub fn storage_config(&self) -> (config: StorageConfig)
        ensures
            config == self@.storage_config,
    {
        self.storage_config
    }

    /// Return the configured peer-storage budget in bytes.
    pub fn storage_budget_bytes(&self) -> (budget: i64)
        ensures
            budget == at_least_zero(self@.storage_config.allocated_storage_for_peers as int),
    {
        at_least_zero_i64(self.storage_config.allocated_storage_for_peers)
    }

    /// Replace the local storage policy.
    pub fn set_storage_config(&mut self, config: Option<StorageConfig>) -> (outcome: Result<
        (),
        Status,
    >)
        requires
            old(self).wf(),
        ensures
            final(self).wf(),
            configures(old(self)@, config, outcome, final(self)@),
    {
        let config = match config {
            None => return Err(Status::invalid_argument("config is required")),
            Some(config) => config,
        };
        if config.allocated_storage_for_peers < 0 {
            return Err(
                Status::invalid_argument("allocated_storage_for_peers must be non-negative"),
            );
        }
        if config.min_replicas < 0 {
            return Err(Status::invalid_argument("min_replicas must be non-negative"));
        }
        self.storage_config = config;
        Ok(())
    }

    /// Drop every cached peer session.
    pub fn clear_peer_runtime_transport(&mut self)
        requires
            old(self).wf(),
        ensures
            final(self).wf(),
            final(self)@ == (NodeView {
                clients: Map::empty(),
                exchanges: Map::empty(),
                probes: Map::empty(),
                ..old(self)@
            }),
    {
        self.peer_clients = TextMap::new();
        self.peer_exchange_last_attempt = TextMap::new();
        self.peer_live_recovery_probe_state = TextMap::new();
    }

    /// Replace the known-peer list with the peers on record plus built-ins.
    pub fn refresh_known_peers_from_store(&mut self, peers: &[NamedPeer])
        requires
            old(self).wf(),
        ensures
            final(self).wf(),
            final(self)@ == (NodeView {
                known_peers: recorded_onions(peers@, old(self)@.onion_address).union(
                    built_in_texts().to_set(),
                ),
                ..old(self)@
            }),
    {
        let mut known_peers = TextSet::new();
        let mut i: usize = 0;
        let ghost own = self.onion_address@;
        assert(known_peers@ =~= recorded_onions(peers@.take(0), own));
        while i < peers.len()
            invariant
                i <= peers.len(),
                own == self.onion_address@,
                known_peers.wf(),
                known_peers@ == recorded_onions(peers@.take(i as int), own),
            decreases peers.len() - i,
        {
            let named = &peers[i];
            assert(peers@.take(i + 1).drop_last() =~= peers@.take(i as int));
            if public_key_is_valid(named.peer.onion_pubkey.as_slice()) && !text_eq(
                named.hostname.as_str(),
                self.onion_address.as_str(),
            ) {
                known_peers.insert(named.hostname.clone());
            }
            i += 1;
        }
        assert(peers@.take(i as int) =~= peers@);
        let built_in = built_in_peers();
        insert_all(&mut known_peers, built_in.as_slice());
        self.known_peers = known_peers;
    }

    /// Return the configured peer onion hostnames in deterministic order.
    pub fn known_peers(&self) -> (peers: Vec<String>)
        requires
            self.wf(),
        ensures
            strictly_ascending(texts(peers@)),
            texts(peers@).to_set() == self@.known_peers,
    {
        self.known_peers.to_vec()
    }

    /// Decide how a peer is admitted on record or, without a store, in memory.
    pub fn track_peer_identity(
        &self,
        peer_onion: &str,
        peer_public_key: &[u8],
        origin: PeerOrigin,
        first_contact_direction: FirstContactDirection,
        peers: Option<&[Peer]>,
    ) -> (outcome: Result<AddPeerPlan, Status>)
        ensures
            add_rule(
                record_views(peers),
                peer_public_key@,
                peer_onion@,
                origin,
                first_contact_direction,
                outcome,
            ),
    {
        match peers {
            None => Ok(AddPeerPlan::Remember),
            Some(records) => {
                let track = track_peer_identity_with_capacity(
                    records,
                    peer_public_key,
                    peer_onion,
                    origin,
                    first_contact_direction,
                    MAX_TRACKED_PEERS,
                );
                let ghost tracking = track;
                assert(tracks(
                    peer_views(records@),
                    peer_public_key@,
                    peer_onion@,
                    origin,
                    first_contact_direction,
                    tracking,
                ));
                let outcome = match track {
                    Ok(plan) => Ok(AddPeerPlan::Track(plan)),
                    Err(status) => Err(status),
                };
                assert(follows_track(tracking, outcome));
                outcome
            },
        }
    }

    /// Decide how a peer that authenticated itself on an inbound contact is
    /// put on record. Nothing is done for ourselves.
    pub fn note_authenticated_inbound_peer_contact(
        &self,
        peer_onion: &str,
        peer_public_key: &[u8],
        peers: Option<&[Peer]>,
    ) -> (outcome: Result<Option<AddPeerPlan>, Status>)
        ensures
            if peer_public_key@ == self@.public_key {
                outcome matches Ok(plan) && plan is None
            } else {
                contact_added(
                    record_views(peers),
                    peer_public_key@,
                    peer_onion@,
                    FirstContactDirection::Inbound,
                    outcome,
                )
            },
    {
        if self.is_our_public_key(peer_public_key) {
            return Ok(None);
        }
        self.track_contact(peer_onion, peer_public_key, FirstContactDirection::Inbound, peers)
    }

    /// Decide how a peer that was just dialed is put on record. Nothing is done
    /// for ourselves, nor where the contact is only a probe.
    pub fn note_outbound_peer_contact(
        &self,
        peer_onion: &str,
        peer_public_key: &Option<Vec<u8>>,
        track_peer: bool,
        peers: Option<&[Peer]>,
    ) -> (outcome: Result<Option<AddPeerPlan>, Status>)
        ensures
            if !track_peer || peer_onion@ == self@.onion_address {
                outcome matches Ok(plan) && plan is None
            } else {
                match *peer_public_key {
                    None => fails_with(outcome, invalid_onion()),
                    Some(key) => contact_added(
                        record_views(peers),
                        key@,
                        peer_onion@,
                        FirstContactDirection::Outbound,
                        outcome,
                    ),
                }
            },
    {
        if !track_peer || self.is_our_onion(peer_onion) {
            return Ok(None);
        }
        match peer_public_key {
            None => Err(invalid_onion_error()),
            Some(key) => self.track_contact(
                peer_onion,
                key.as_slice(),
                FirstContactDirection::Outbound,
                peers,
            ),
        }
    }

    /// Decide how a discovered peer is put on record after a contact.
    fn track_contact(
        &self,
        peer_onion: &str,
        peer_public_key: &[u8],
        direction: FirstContactDirection,
        peers: Option<&[Peer]>,
    ) -> (outcome: Result<Option<AddPeerPlan>, Status>)
        ensures
            contact_added(
                record_views(peers),
                peer_public_key@,
                peer_onion@,
                direction,
                outcome,
            ),
    {
        let added = self.track_peer_identity(
            peer_onion,
            peer_public_key,
            peer_origin_code(false, false),
            direction,
            peers,
        );
        let ghost given = added;
        let outcome = match added {
            Ok(plan) => Ok(Some(plan)),
            Err(status) => Err(status),
        };
        assert(passes_on(given, outcome));
        outcome
    }

    /// Decide what a peer's claim about pinning us puts on record: nothing
    /// where the peer is not tracked.
    pub fn record_remote_pin_claim(
        &self,
        peer_public_key: &[u8],
        pins_us: bool,
        peers: Option<&[Peer]>,
    ) -> (outcome: Result<Option<bool>, Status>)
        ensures
            match record_views(peers) {
                None => fails_with(outcome, no_store()),
                Some(records) => outcome matches Ok(claim) && claim == if find_peer(
                    records,
                    peer_public_key@,
                ) is Some {
                    Some(pins_us)
                } else {
                    None
                },
            },
    {
        match peers {
            None => Err(no_store_error()),
            Some(records) => if is_tracked_peer(records, peer_public_key) {
                Ok(Some(pins_us))
            } else {
                Ok(None)
            },
        }
    }

    /// Decide what a peer's report of our revisions puts on record: nothing
    /// where the peer is not tracked.
    pub fn record_requester_revision_observation(
        &self,
        peer_public_key: &[u8],
        revision: &PeerRevision,
        peers: Option<&[Peer]>,
    ) -> (outcome: Result<Option<RequesterRevisionState>, Status>)
        ensures
            match record_views(peers) {
                None => fails_with(outcome, no_store()),
                Some(records) => if find_peer(records, peer_public_key@) is Some {
                    &&& outcome matches Ok(Some(state))
                    &&& content_view(state.latest_stored) == stored_view(*revision)
                    &&& content_view(state.latest_known) == known_view(*revision)
                } else {
                    outcome matches Ok(state) && state is None
                },
            },
    {
        match peers {
            None => Err(no_store_error()),
            Some(records) => if is_tracked_peer(records, peer_public_key) {
                Ok(
                    Some(
                        RequesterRevisionState {
                            latest_stored: reported_content(&revision.latest_stored),
                            latest_known: reported_content(&revision.latest_known),
                        },
                    ),
                )
            } else {
                Ok(None)
            },
        }
    }

    /// Decide what a verification puts on record: the revision that the peer
    /// proved to hold and when, or that it proved none. Nothing is recorded
    /// where the peer is not tracked.
    pub fn record_verified_our_content(
        &self,
        peer_public_key: &[u8],
        content_id: &Option<Vec<u8>>,
        peers: Option<&[Peer]>,
        now: Timestamp,
    ) -> (outcome: Result<Option<VerifiedContent>, Status>)
        ensures
            match record_views(peers) {
                None => fails_with(outcome, no_store()),
                Some(records) => if find_peer(records, peer_public_key@) is Some {
                    &&& outcome matches Ok(Some(verified))
                    &&& match *content_id {
                        Some(id) => verified.content_id matches Some(recorded) && recorded@ == id@
                            && verified.verified_at == Some(seconds_of(now) as i64),
                        None => verified.content_id is None && verified.verified_at is None,
                    }
                } else {
                    outcome matches Ok(verified) && verified is None
                },
            },
    {
        match peers {
            None => Err(no_store_error()),
            Some(records) => if is_tracked_peer(records, peer_public_key) {
                Ok(
                    Some(
                        match content_id {
                            Some(id) => VerifiedContent {
                                content_id: Some(bytes_copy(id.as_slice())),
                                verified_at: Some(now_secs(now)),
                            },
                            None => VerifiedContent { content_id: None, verified_at: None },
                        },
                    ),
                )
            } else {
                Ok(None)
            },
        }
    }

    /// Find stale metadata about ourselves among the peers on record.
    pub fn purge_self_peer_metadata(&self, peers: &[Peer]) -> (stale: Option<TrimmedPeer>)
        ensures
            match find_peer(peer_views(peers@), self@.public_key) {
                None => stale is None,
                Some(peer) => stale matches Some(found) && trims(found, peer),
            },
    {
        match peer_with_key(peers, self.public_key.as_slice()) {
            None => None,
            Some(peer) => Some(trimmed_peer(peer)),
        }
    }

    /// Take note that a peer was admitted, and that another one had to leave for it.
    pub fn peer_admitted(&mut self, peer_onion: &str, evicted_onion: Option<&str>)
        requires
            old(self).wf(),
        ensures
            final(self).wf(),
            final(self)@ == (NodeView {
                known_peers: match evicted_onion {
                    Some(evicted) => old(self)@.known_peers.remove(evicted@).insert(peer_onion@),
                    None => old(self)@.known_peers.insert(peer_onion@),
                },
                ..old(self)@
            }),
    {
        if let Some(evicted) = evicted_onion {
            self.known_peers.remove(evicted);
        }
        self.known_peers.insert(peer_onion.to_owned());
    }

    /// Decide how a peer with an explicit origin is added to the configured set.
    pub fn add_known_peer_with_origin(
        &self,
        peer_onion: &str,
        peer_public_key: &Option<Vec<u8>>,
        origin: PeerOrigin,
        peers: Option<&[Peer]>,
    ) -> (outcome: Result<AddPeerPlan, Status>)
        ensures
            if peer_onion@ == self@.onion_address {
                fails_with(outcome, self_peer())
            } else {
                match *peer_public_key {
                    None => fails_with(outcome, invalid_onion()),
                    Some(key) => add_rule(
                        record_views(peers),
                        key@,
                        peer_onion@,
                        origin,
                        FirstContactDirection::Unknown,
                        outcome,
                    ),
                }
            },
    {
        if self.is_our_onion(peer_onion) {
            return Err(self_peer_error());
        }
        match peer_public_key {
            None => Err(invalid_onion_error()),
            Some(key) => self.track_peer_identity(
                peer_onion,
                key.as_slice(),
                origin,
                FirstContactDirection::Unknown,
                peers,
            ),
        }
    }

    /// Decide how an operator's peer is added to the configured peer set.
    pub fn add_known_peer(
        &self,
        peer_onion: &str,
        peer_public_key: &Option<Vec<u8>>,
        peers: Option<&[Peer]>,
    ) -> (outcome: Result<AddPeerPlan, Status>)
        ensures
            if peer_onion@ == self@.onion_address {
                fails_with(outcome, self_peer())
            } else {
                match *peer_public_key {
                    None => fails_with(outcome, invalid_onion()),
                    Some(key) => add_rule(
                        record_views(peers),
                        key@,
                        peer_onion@,
                        PeerOrigin::Manual,
                        FirstContactDirection::Unknown,
                        outcome,
                    ),
                }
            },
    {
        self.add_known_peer_with_origin(
            peer_onion,
            peer_public_key,
            peer_origin_code(false, true),
            peers,
        )
    }

    /// Decide how an operator pin is changed.
    fn change_pin(
        &self,
        peer_onion: &str,
        peer_public_key: &Option<Vec<u8>>,
        peers: Option<&[Peer]>,
        pinned_by_us: bool,
    ) -> (outcome: Result<PinChange, Status>)
        ensures
            pin_rule(
                peer_onion@,
                self@.onion_address,
                *peer_public_key,
                record_views(peers),
                pinned_by_us,
                outcome,
            ),
    {
        if self.is_our_onion(peer_onion) {
            return Err(self_peer_error());
        }
        let key = match peer_public_key {
            None => return Err(invalid_onion_error()),
            Some(key) => key,
        };
        let records = match peers {
            None => return Err(no_store_error()),
            Some(records) => records,
        };
        if peer_with_key(records, key.as_slice()).is_none() {
            return Err(Status::failed_precondition("peer is not tracked; connect it first"));
        }
        Ok(PinChange { public_key: bytes_copy(key.as_slice()), pinned_by_us })
    }

    /// Decide how one operator pin for a tracked peer is put on record.
    pub fn pin_peer(
        &self,
        peer_onion: &str,
        peer_public_key: &Option<Vec<u8>>,
        peers: Option<&[Peer]>,
    ) -> (outcome: Result<PinChange, Status>)
        ensures
            pin_rule(
                peer_onion@,
                self@.onion_address,
                *peer_public_key,
                record_views(peers),
                true,
                outcome,
            ),
    {
        self.change_pin(peer_onion, peer_public_key, peers, true)
    }

    /// Decide how one operator pin is removed from a tracked peer.
    pub fn unpin_peer(
        &self,
        peer_onion: &str,
        peer_public_key: &Option<Vec<u8>>,
        peers: Option<&[Peer]>,
    ) -> (outcome: Result<PinChange, Status>)
        ensures
            pin_rule(
                peer_onion@,
                self@.onion_address,
                *peer_public_key,
                record_views(peers),
                false,
                outcome,
            ),
    {
        self.change_pin(peer_onion, peer_public_key, peers, false)
    }

    /// Return the mirrored content id currently tracked for one peer.
    pub fn mirrored_peer_content_id(
        &self,
        peer_public_key: &Option<Vec<u8>>,
        peers: Option<&[Peer]>,
    ) -> (outcome: Result<Option<Vec<u8>>, Status>)
        ensures
            match *peer_public_key {
                None => fails_with(outcome, invalid_onion()),
                Some(key) => match peers {
                    None => fails_with(outcome, no_store()),
                    Some(records) => match cached_content(peer_views(records@), key@) {
                        None => outcome matches Ok(found) && found is None,
                        Some(content) => outcome matches Ok(Some(id)) && id@ == content.content_id,
                    },
                },
            },
    {
        let key = match peer_public_key {
            None => return Err(invalid_onion_error()),
            Some(key) => key,
        };
        let records = match peers {
            None => return Err(no_store_error()),
            Some(records) => records,
        };
        match peer_with_key(records, key.as_slice()) {
            None => Ok(None),
            Some(peer) => match &peer.latest_cached_content {
                None => Ok(None),
                Some(content) => Ok(Some(bytes_copy(content.content_id.as_slice()))),
            },
        }
    }

    /// Return the current local content info, if one exists.
    pub fn current_content_info(&self, current: &Option<CurrentContent>) -> (outcome: Result<
        Option<ContentInfo>,
        Status,
    >)
        ensures
            responder_rule(*current, self@.limits, outcome),
    {
        responder_content(current, &self.limits)
    }

    /// Drop expired outbound peer clients and stale peer-exchange cooldown entries.
    pub fn prune_peer_runtime_state(&mut self, now: i64)
        requires
            old(self).wf(),
        ensures
            final(self).wf(),
            final(self)@ == pruned(old(self)@, now as int),
    {
        let ghost before = self@;
        let keep_client = |last_used: &i64| -> (keep: bool)
            ensures
                keep == (clamp_i64(now - *last_used) <= PEER_CLIENT_CACHE_IDLE_TTL_SECS),
            { saturating_sub_i64(now, *last_used) <= PEER_CLIENT_CACHE_IDLE_TTL_SECS };
        self.peer_clients.retain(keep_client, Ghost(client_kept(now as int)));
        let keep_exchange = |attempted: &i64| -> (keep: bool)
            ensures
                keep == (clamp_i64(now - *attempted) <= PEER_EXCHANGE_COOLDOWN_SECS),
            { saturating_sub_i64(now, *attempted) <= PEER_EXCHANGE_COOLDOWN_SECS };
        self.peer_exchange_last_attempt.retain(keep_exchange, Ghost(exchange_kept(now as int)));
        let keep_probe = |state: &LiveRecoveryProbeState| -> (keep: bool)
            ensures
                keep == (state.probe_in_progress || clamp_i64(now - state.last_contact_at_secs)
                    <= PEER_CLIENT_CACHE_IDLE_TTL_SECS),
            {
                state.probe_in_progress || saturating_sub_i64(now, state.last_contact_at_secs)
                    <= PEER_CLIENT_CACHE_IDLE_TTL_SECS
            };
        self.peer_live_recovery_probe_state.retain(keep_probe, Ghost(probe_kept(now as int)));
        proof {
            let kept = self@.clients;
            assert(kept.dom().subset_of(before.clients.dom()));
            old(self).peer_clients.lemma_ordered();
            vstd::set_lib::lemma_len_subset(kept.dom(), before.clients.dom());
        }
    }

    /// Mark one peer live-contact session and report whether one best-effort
    /// recovery probe should run for it now.
    pub fn begin_live_recovery_probe_if_due(&mut self, peer_onion: &str, now: i64) -> (due: bool)
        requires
            old(self).wf(),
        ensures
            final(self).wf(),
            begins_probe(old(self)@, peer_onion@, now, due, final(self)@),
    {
        if self.is_our_onion(peer_onion) {
            return false;
        }
        self.prune_peer_runtime_state(now);
        let (in_progress, completed) = match self.peer_live_recovery_probe_state.get(peer_onion) {
            Some(state) => (state.probe_in_progress, state.probe_completed),
            None => (false, false),
        };
        let due = !(in_progress || completed);
        self.peer_live_recovery_probe_state.insert(
            peer_onion.to_owned(),
            LiveRecoveryProbeState {
                last_contact_at_secs: now,
                probe_in_progress: in_progress || due,
                probe_completed: completed,
            },
        );
        due
    }

    /// Record that one live-contact recovery probe finished for the peer's
    /// current in-memory session.
    pub fn finish_live_recovery_probe(&mut self, peer_onion: &str, completed: bool, now: i64)
        requires
            old(self).wf(),
        ensures
            final(self).wf(),
            finishes_probe(old(self)@, peer_onion@, completed, now, final(self)@),
    {
        if self.is_our_onion(peer_onion) {
            return;
        }
        self.prune_peer_runtime_state(now);
        if self.peer_live_recovery_probe_state.get(peer_onion).is_some() {
            self.peer_live_recovery_probe_state.insert(
                peer_onion.to_owned(),
                LiveRecoveryProbeState {
                    last_contact_at_secs: now,
                    probe_in_progress: false,
                    probe_completed: completed,
                },
            );
        }
    }

    /// Report whether a cached client may be reused, and take note that it is.
    pub fn cached_peer_client(&mut self, peer_onion: &str, now: i64) -> (found: bool)
        requires
            old(self).wf(),
        ensures
            final(self).wf(),
            reuses_client(old(self)@, peer_onion@, now, found, final(self)@),
    {
        self.prune_peer_runtime_state(now);
        if self.peer_clients.get(peer_onion).is_none() {
            return false;
        }
        let ghost before = self.peer_clients@;
        proof {
            self.peer_clients.lemma_ordered();
        }
        self.peer_clients.insert(peer_onion.to_owned(), now);
        assert(self.peer_clients@.dom() =~= before.dom());
        true
    }

    /// Report whether one cached outbound peer client is currently open.
    pub fn has_cached_peer_client(&mut self, peer_onion: &str, now: i64) -> (found: bool)
        requires
            old(self).wf(),
        ensures
            final(self).wf(),
            final(self)@ == pruned(old(self)@, now as int),
            found == final(self)@.clients.dom().contains(peer_onion@),
    {
        self.prune_peer_runtime_state(now);
        self.peer_clients.get(peer_onion).is_some()
    }

    /// Remember one outbound peer client in the bounded in-memory cache, where
    /// clients of pinned peers are the last to go.
    pub fn remember_peer_client(&mut self, peer_onion: &str, pinned: &TextSet, now: i64)
        requires
            old(self).wf(),
            pinned.wf(),
        ensures
            final(self).wf(),
            remembers_client(old(self)@, peer_onion@, pinned@, now, final(self)@),
    {
        self.prune_peer_runtime_state(now);
        let ghost before = self.peer_clients@;
        proof {
            self.peer_clients.lemma_ordered();
        }
        self.peer_clients.insert(peer_onion.to_owned(), now);
        let ghost full = self.peer_clients@;
        if self.peer_clients.len() > MAX_CACHED_PEER_CLIENTS {
            let at = cache_victim(&self.peer_clients, pinned);
            let ghost victim = self.peer_clients.ordered()[at as int];
            assert(full.dom().contains(victim)) by {
                self.peer_clients.lemma_ordered();
                assert(self.peer_clients.ordered().contains(victim));
            }
            self.peer_clients.remove_at(at);
            assert(is_victim(full, pinned@, victim));
            assert(full.dom() =~= before.dom().insert(peer_onion@));
            assert(full.remove(victim).dom() =~= full.dom().remove(victim));
        }
    }

    /// Evict one cached outbound peer client immediately.
    pub fn evict_cached_peer_client(&mut self, peer_onion: &str)
        requires
            old(self).wf(),
        ensures
            final(self).wf(),
            final(self)@ == (NodeView {
                clients: old(self)@.clients.remove(peer_onion@),
                ..old(self)@
            }),
    {
        let ghost before = self.peer_clients@;
        proof {
            self.peer_clients.lemma_ordered();
        }
        self.peer_clients.remove(peer_onion);
        assert(self.peer_clients@.dom() =~= before.dom().remove(peer_onion@));
    }

    /// Decide what a successful contact with one peer puts on record.
    pub fn note_peer_live(
        &self,
        peer_onion: &str,
        peer_public_key: &Option<Vec<u8>>,
        peers: Option<&[Peer]>,
        now: Timestamp,
    ) -> (outcome: Result<Option<ReachabilityUpdate>, Status>)
        ensures
            contact_rule(
                peer_onion@,
                self@.onion_address,
                *peer_public_key,
                record_views(peers),
                Some(seconds_of(now) as i64),
                outcome,
            ),
    {
        self.note_contact(peer_onion, peer_public_key, peers, Some(now_secs(now)))
    }

    /// Decide what a failed contact with one peer puts on record.
    pub fn note_peer_offline(
        &self,
        peer_onion: &str,
        peer_public_key: &Option<Vec<u8>>,
        peers: Option<&[Peer]>,
    ) -> (outcome: Result<Option<ReachabilityUpdate>, Status>)
        ensures
            contact_rule(
                peer_onion@,
                self@.onion_address,
                *peer_public_key,
                record_views(peers),
                None,
                outcome,
            ),
    {
        self.note_contact(peer_onion, peer_public_key, peers, None)
    }

    /// Decide what a contact with one peer puts on record.
    fn note_contact(
        &self,
        peer_onion: &str,
        peer_public_key: &Option<Vec<u8>>,
        peers: Option<&[Peer]>,
        live_at: Option<i64>,
    ) -> (outcome: Result<Option<ReachabilityUpdate>, Status>)
        ensures
            contact_rule(
                peer_onion@,
                self@.onion_address,
                *peer_public_key,
                record_views(peers),
                live_at,
                outcome,
            ),
    {
        if self.is_our_onion(peer_onion) {
            return Ok(None);
        }
        let records = match peers {
            None => return Ok(None),
            Some(records) => records,
        };
        let key = match peer_public_key {
            None => return Err(invalid_onion_error()),
            Some(key) => key,
        };
        if peer_with_key(records, key.as_slice()).is_none() {
            return Ok(None);
        }
        let reachability = if live_at.is_some() {
            PeerReachability::Online
        } else {
            PeerReachability::Offline
        };
        Ok(
            Some(
                ReachabilityUpdate {
                    public_key: bytes_copy(key.as_slice()),
                    reachability,
                    last_live_at: live_at,
                },
            ),
        )
    }

    /// Record one recent peer-operation failure for local operator status.
    pub fn note_recent_peer_failure(&mut self, peer_onion: &str, error: &Status, now: Timestamp)
        requires
            old(self).wf(),
        ensures
            final(self).wf(),
            notes_failure(old(self)@, peer_onion@, *error, now, final(self)@),
    {
        if self.is_our_onion(peer_onion) {
            return;
        }
        let failure = RecentPeerFailure {
            last_failure_at: now_secs(now),
            last_error_class: classify_recent_peer_failure(error),
            last_error_message: error.message.clone(),
        };
        assert(describes_failure(failure, *error, now));
        self.recent_peer_failures.insert(peer_onion.to_owned(), failure);
    }

    /// Clear one recent peer-operation failure after a successful interaction.
    pub fn clear_recent_peer_failure(&mut self, peer_onion: &str)
        requires
            old(self).wf(),
        ensures
            final(self).wf(),
            final(self)@ == (NodeView {
                failures: old(self)@.failures.remove(peer_onion@),
                ..old(self)@
            }),
    {
        self.recent_peer_failures.remove(peer_onion);
    }

    /// Return whether the peer-exchange cooldown has elapsed for one peer.
    pub fn peer_exchange_due(&mut self, peer_onion: &str, now: i64) -> (due: bool)
        requires
            old(self).wf(),
        ensures
            final(self).wf(),
            checks_exchange(old(self)@, peer_onion@, now, due, final(self)@),
    {
        self.prune_peer_runtime_state(now);
        match self.peer_exchange_last_attempt.get(peer_onion) {
            None => true,
            Some(last) => saturating_sub_i64(now, *last) >= PEER_EXCHANGE_COOLDOWN_SECS,
        }
    }

    /// Record one peer-exchange attempt for cooldown tracking.
    pub fn note_peer_exchange_attempt(&mut self, peer_onion: &str, now: i64)
        requires
            old(self).wf(),
        ensures
            final(self).wf(),
            final(self)@ == (NodeView {
                exchanges: old(self)@.exchanges.insert(peer_onion@, now),
                ..old(self)@
            }),
    {
        self.peer_exchange_last_attempt.insert(peer_onion.to_owned(), now);
    }

    /// Decide whether delayed peer metadata is rolled up into the content now.
    pub fn run_metadata_rollup_pass(&self, due_at: Option<(i64, i64)>, now: Timestamp) -> (decision:
        RollupDecision)
        ensures
            decision == match due_at {
                None => RollupDecision::NotPending,
                Some(due) => if time_before(
                    (seconds_of(now) as i64, now.nanos as i64),
                    due,
                ) {
                    RollupDecision::NotDue
                } else {
                    RollupDecision::RollUp
                },
            },
    {
        match due_at {
            None => RollupDecision::NotPending,
            Some(due) => if time_less((now_secs(now), now.nanos as i64), due) {
                RollupDecision::NotDue
            } else {
                RollupDecision::RollUp
            },
        }
    }

    /// Build the local peer inventory without dialing peers live.
    pub fn peers_response(&mut self, peers: Option<&[NamedPeer]>, now: i64) -> (inventory: Vec<
        PeerInventoryEntry,
    >)
        requires
            old(self).wf(),
        ensures
            final(self).wf(),
            final(self)@ == pruned(old(self)@, now as int),
            is_inventory(final(self)@, peers, inventory_views(inventory@)),
    {
        self.prune_peer_runtime_state(now);
        let snapshots = match peers {
            Some(records) => local_peer_inventory_snapshot(records),
            None => TextMap::new(),
        };
        let known = self.known_peers();
        let ghost names = texts(known@);
        assert(strictly_ascending(names));
        peer_inventory(
            known.as_slice(),
            self.onion_address.as_str(),
            &snapshots,
            &self.peer_clients,
            &self.recent_peer_failures,
        )
    }

    /// Compute the updated score state of a tracked peer after a verification.
    pub fn update_peer_score(
        &self,
        peers: Option<&[Peer]>,
        peer_key: &[u8],
        passed: bool,
        now: Timestamp,
    ) -> (outcome: Result<ScoreUpdate, Status>)
        ensures
            match peers {
                None => fails_with(outcome, no_store()),
                Some(records) => match find_peer(peer_views(records@), peer_key@) {
                    None => fails_with(outcome, failed_precondition("peer is not tracked"@)),
                    Some(peer) => outcome matches Ok(update) && update.score_measured_at
                        == seconds_of(now) && update.score_seconds == score_after(
                        peer.score_seconds as int,
                        observed_seconds(
                            peer.score_measured_at as int,
                            observation_secs(self@),
                            seconds_of(now),
                        ),
                        passed,
                    ),
                },
            },
    {
        match peers {
            None => Err(no_store_error()),
            Some(records) => update_peer_score(
                records,
                peer_key,
                passed,
                self.peer_score_observation_started_at_secs(),
                now_secs(now),
            ),
        }
    }

    /// Begin to publish our current content to one peer, unless safety guards
    /// are active.
    pub fn publish_to_peer_updates(
        &self,
        peer_onion: &str,
        peer_key_valid: bool,
        recovery_mode_enabled: bool,
        projected_blob_len: Option<u64>,
    ) -> (outcome: Result<PublishAttempt, Status>)
        ensures
            match publication_block(
                recovery_mode_enabled,
                projected_blob_len,
                self@.limits.max_peer_content_bytes as int,
            ) {
                Some(reason) => fails_with(outcome, failed_precondition(reason)),
                None => if peer_onion@ == self@.onion_address {
                    fails_with(outcome, self_peer())
                } else if !peer_key_valid {
                    fails_with(outcome, invalid_onion())
                } else {
                    outcome matches Ok(attempt) && attempt@ == fresh_attempt(peer_onion@)
                        && attempt@.valid()
                },
            },
    {
        match ensure_owner_publication_allowed(
            recovery_mode_enabled,
            projected_blob_len,
            &self.limits,
        ) {
            Err(status) => return Err(status),
            Ok(()) => {},
        }
        PublishAttempt::publish_to_peer_updates_once(
            peer_onion,
            self.onion_address.as_str(),
            peer_key_valid,
        )
    }

    /// Begin to verify one peer's stored copy of our content.
    pub fn verify_peer_storage_updates(
        &self,
        peer_onion: &str,
        peer_public_key: &Option<Vec<u8>>,
        peers: Option<&[Peer]>,
    ) -> (outcome: Result<VerificationAttempt, Status>)
        ensures
            begins_verification(
                peer_onion@,
                self@.onion_address,
                *peer_public_key,
                record_views(peers),
                outcome,
            ),
    {
        VerificationAttempt::verify_peer_storage_updates_once(
            peer_onion,
            self.onion_address.as_str(),
            peer_public_key,
            peers,
        )
    }

    /// Begin a recovery pass over all known peers.
    pub fn run_recovery_pass(&self) -> (pass: RecoveryPass)
        requires
            self.wf(),
        ensures
            pass.wf(),
            pass.ready(),
            pass.reported() == empty_scan(),
            exists|known: Seq<Seq<char>>| #[trigger]
                strictly_ascending(known) && known.to_set() == self@.known_peers && pass.unprobed()
                    == others(known, self@.onion_address),
    {
        let known = self.known_peers();
        let ghost names = texts(known@);
        assert(strictly_ascending(names));
        RecoveryPass::run_recovery_pass(known.as_slice(), self.onion_address.as_str())
    }
}

/// Whether `inventory` is the peer inventory of `node` with `peers` on record.
pub open spec fn is_inventory(
    node: NodeView,
    peers: Option<&[NamedPeer]>,
    inventory: Seq<PeerInventoryEntryView>,
) -> bool {
    exists|known: Seq<Seq<char>>| #[trigger]
        strictly_ascending(known) && known.to_set() == node.known_peers && lists_entries(
            inventory,
            entries_of(
                others(known, node.onion_address),
                named_views(peers),
                node.clients,
                node.failures,
            ),
        )
}

/// How long the node has been running at `now`, in whole seconds.
pub open spec fn uptime_of(node: NodeView, now: Timestamp) -> i64 {
    match node.started_at {
        Some(at) => (if now.secs >= at.secs {
            (now.secs - at.secs) as u64
        } else {
            0
        }) as i64,
        None => 0,
    }
}

/// When the observation window began, in seconds.
pub open spec fn observation_secs(node: NodeView) -> Option<i64> {
    match node.observation {
        Some(at) => Some(seconds_of(at) as i64),
        None => None,
    }
}

/// The probe session of a peer; a new one where there is none.
pub open spec fn session_of(
    probes: Map<Seq<char>, LiveRecoveryProbeState>,
    onion: Seq<char>,
) -> LiveRecoveryProbeState {
    if probes.dom().contains(onion) {
        probes[onion]
    } else {
        LiveRecoveryProbeState {
            last_contact_at_secs: 0,
            probe_in_progress: false,
            probe_completed: false,
        }
    }
}

/// Whether a live contact with `onion` leads from `node` to `after`, and `due`
/// tells whether a probe is to run for it now.
pub open spec fn begins_probe(
    node: NodeView,
    onion: Seq<char>,
    now: i64,
    due: bool,
    after: NodeView,
) -> bool {
    if onion == node.onion_address {
        !due && after == node
    } else {
        let kept = pruned(node, now as int);
        let session = session_of(kept.probes, onion);
        &&& due == !(session.probe_in_progress || session.probe_completed)
        &&& after == (NodeView {
            probes: kept.probes.insert(
                onion,
                LiveRecoveryProbeState {
                    last_contact_at_secs: now,
                    probe_in_progress: session.probe_in_progress || due,
                    probe_completed: session.probe_completed,
                },
            ),
            ..kept
        })
    }
}

/// Whether the end of a probe of `onion` leads from `node` to `after`.
pub open spec fn finishes_probe(
    node: NodeView,
    onion: Seq<char>,
    completed: bool,
    now: i64,
    after: NodeView,
) -> bool {
    after == if onion == node.onion_address {
        node
    } else {
        let kept = pruned(node, now as int);
        if kept.probes.dom().contains(onion) {
            NodeView {
                probes: kept.probes.insert(
                    onion,
                    LiveRecoveryProbeState {
                        last_contact_at_secs: now,
                        probe_in_progress: false,
                        probe_completed: completed,
                    },
                ),
                ..kept
            }
        } else {
            kept
        }
    }
}

/// Whether asking for the client of `onion` leads from `node` to `after`, and
/// `found` tells whether there is one.
pub open spec fn reuses_client(
    node: NodeView,
    onion: Seq<char>,
    now: i64,
    found: bool,
    after: NodeView,
) -> bool {
    let kept = pruned(node, now as int);
    &&& found == kept.clients.dom().contains(onion)
    &&& after == if found {
        NodeView { clients: kept.clients.insert(onion, now), ..kept }
    } else {
        kept
    }
}

/// Whether keeping a client of `onion` leads from `node` to `after`.
pub open spec fn remembers_client(
    node: NodeView,
    onion: Seq<char>,
    pinned: Set<Seq<char>>,
    now: i64,
    after: NodeView,
) -> bool {
    let kept = pruned(node, now as int);
    &&& trimmed_cache(kept.clients.insert(onion, now), pinned, after.clients)
    &&& after == (NodeView { clients: after.clients, ..kept })
}

/// Whether asking for an exchange with `onion` leads from `node` to `after`,
/// and `due` tells whether it is time for one.
pub open spec fn checks_exchange(
    node: NodeView,
    onion: Seq<char>,
    now: i64,
    due: bool,
    after: NodeView,
) -> bool {
    &&& after == pruned(node, now as int)
    &&& due == (after.exchanges.dom().contains(onion) ==> clamp_i64(
        now - after.exchanges[onion],
    ) >= PEER_EXCHANGE_COOLDOWN_SECS)
}

/// Whether taking note of the failure `error` of `onion` leads from `node` to
/// `after`.
pub open spec fn notes_failure(
    node: NodeView,
    onion: Seq<char>,
    error: Status,
    now: Timestamp,
    after: NodeView,
) -> bool {
    if onion == node.onion_address {
        after == node
    } else {
        exists|failure: RecentPeerFailure| #[trigger]
            describes_failure(failure, error, now) && after == (NodeView {
                failures: node.failures.insert(onion, failure),
                ..node
            })
    }
}

/// Whether a wanted storage policy leads from `node` to `after`.
pub open spec fn configures(
    node: NodeView,
    config: Option<StorageConfig>,
    outcome: Result<(), Status>,
    after: NodeView,
) -> bool {
    match config {
        None => fails_with(outcome, invalid_argument("config is required"@)) && after == node,
        Some(wanted) => if wanted.allocated_storage_for_peers < 0 {
            fails_with(
                outcome,
                invalid_argument("allocated_storage_for_peers must be non-negative"@),
            ) && after == node
        } else if wanted.min_replicas < 0 {
            fails_with(outcome, invalid_argument("min_replicas must be non-negative"@)) && after
                == node
        } else {
            outcome is Ok && after == (NodeView { storage_config: wanted, ..node })
        },
    }
}

/// Whether `failure` describes `error` at `now`.
pub open spec fn describes_failure(failure: RecentPeerFailure, error: Status, now: Timestamp) -> bool {
    &&& failure.last_failure_at == seconds_of(now)
    &&& failure.last_error_class == failure_class(error@)
    &&& failure.last_error_message@ == error@.message
}

/// Find the longest unused client, of the peers that are not pinned or of all.
fn oldest_client(clients: &TextMap<i64>, pinned: &TextSet, spare_pinned: bool) -> (oldest: Option<
    usize,
>)
    requires
        clients.wf(),
        pinned.wf(),
    ensures
        ({
            let among = if spare_pinned {
                not_pinned(pinned@)
            } else {
                anyone()
            };
            match oldest {
                Some(at) => at < clients.ordered().len() && longest_unused(
                    clients@,
                    among,
                    clients.ordered()[at as int],
                ),
                None => forall|key: Seq<char>| #[trigger]
                    clients@.dom().contains(key) ==> !among(key),
            }
        }),
{
    let ghost keys = clients.ordered();
    let ghost among = if spare_pinned {
        not_pinned(pinned@)
    } else {
        anyone()
    };
    proof {
        clients.lemma_ordered();
    }
    let mut oldest: Option<usize> = None;
    let mut i: usize = 0;
    while i < clients.len()
        invariant
            clients.wf(),
            pinned.wf(),
            keys == clients.ordered(),
            strictly_ascending(keys),
            i <= keys.len(),
            among == if spare_pinned {
                not_pinned(pinned@)
            } else {
                anyone()
            },
            match oldest {
                None => forall|k: int| 0 <= k < i ==> !among(#[trigger] keys[k]),
                Some(at) => {
                    &&& at < i
                    &&& among(keys[at as int])
                    &&& forall|k: int|
                        0 <= k < i && among(#[trigger] keys[k]) && k != at
                            ==> clients@[keys[at as int]] < clients@[keys[k]] || (
                        clients@[keys[at as int]] == clients@[keys[k]] && at < k)
                },
            },
        decreases keys.len() - i,
    {
        let skip = spare_pinned && pinned.contains(clients.key_at(i).as_str());
        assert(skip == !among(keys[i as int]));
        if !skip {
            let better = match oldest {
                None => true,
                Some(at) => *clients.value_at(i) < *clients.value_at(at),
            };
            if better {
                oldest = Some(i);
            }
        }
        i += 1;
    }
    proof {
        match oldest {
            None => {
                assert forall|key: Seq<char>| #[trigger] clients@.dom().contains(key) implies !among(
                    key,
                ) by {
                    assert(keys.to_set().contains(key));
                    let k = choose|k: int| 0 <= k < keys.len() && keys[k] == key;
                    assert(!among(keys[k]));
                }
            },
            Some(at) => {
                let key = keys[at as int];
                assert(keys.contains(key));
                assert(keys.to_set().contains(key));
                assert forall|other: Seq<char>| #[trigger]
                    clients@.dom().contains(other) && among(other) && other != key implies clients@[key]
                    < clients@[other] || (clients@[key] == clients@[other] && text_before(
                    key,
                    other,
                )) by {
                    assert(keys.to_set().contains(other));
                    let k = choose|k: int| 0 <= k < keys.len() && keys[k] == other;
                    assert(among(keys[k]));
                    if clients@[key] == clients@[other] {
                        assert(text_before(keys[at as int], keys[k]));
                    }
                }
            },
        }
    }
    oldest
}

/// Find the client that has to go.
fn cache_victim(clients: &TextMap<i64>, pinned: &TextSet) -> (victim: usize)
    requires
        clients.wf(),
        pinned.wf(),
        clients.ordered().len() > 0,
    ensures
        victim < clients.ordered().len(),
        is_victim(clients@, pinned@, clients.ordered()[victim as int]),
{
    proof {
        clients.lemma_ordered();
        assert(clients.ordered().contains(clients.ordered()[0]));
        assert(clients@.dom().contains(clients.ordered()[0]));
    }
    match oldest_client(clients, pinned, true) {
        Some(at) => {
            proof {
                let key = clients.ordered()[at as int];
                assert(clients@.dom().contains(key) && !pinned@.contains(key));
            }
            at
        },
        None => {
            assert forall|other: Seq<char>| #[trigger]
                clients@.dom().contains(other) implies pinned@.contains(other) by {
                assert(!not_pinned(pinned@)(other));
            }
            match oldest_client(clients, pinned, false) {
                Some(at) => at,
                None => {
                    assert(!anyone()(clients.ordered()[0]));
                    assert(false);
                    0
                },
            }
        },
    }
}

/// Whether one of `peers` has public key `key`.
pub open spec fn names_key(peers: Seq<NamedPeer>, key: Seq<u8>) -> bool {
    exists|i: int| 0 <= i < peers.len() && (#[trigger] peers[i]).peer@.onion_pubkey == key
}

/// The hostnames of all pinned peers on record, among those whose recorded key
/// is a public key. Of several records with one key the first decides.
pub open spec fn pinned_onions(peers: Seq<NamedPeer>) -> Set<Seq<char>>
    decreases peers.len(),
{
    if peers.len() == 0 {
        Set::<Seq<char>>::empty()
    } else {
        let rest = pinned_onions(peers.drop_last());
        let peer = peers.last().peer@;
        if peer.pinned_by_us && is_public_key(peer.onion_pubkey) && !names_key(
            peers.drop_last(),
            peer.onion_pubkey,
        ) {
            rest.insert(peers.last().hostname@)
        } else {
            rest
        }
    }
}

/// Report whether one of the first `count` peers has public key `key`.
fn names_key_before(peers: &[NamedPeer], count: usize, key: &[u8]) -> (found: bool)
    requires
        count <= peers@.len(),
    ensures
        found == names_key(peers@.take(count as int), key@),
{
    let mut i: usize = 0;
    while i < count
        invariant
            i <= count <= peers@.len(),
            forall|j: int| 0 <= j < i ==> (#[trigger] peers@[j]).peer@.onion_pubkey != key@,
        decreases count - i,
    {
        if bytes_eq(peers[i].peer.onion_pubkey.as_slice(), key) {
            assert(peers@.take(count as int)[i as int] == peers@[i as int]);
            return true;
        }
        i += 1;
    }
    assert forall|j: int| 0 <= j < count implies (
    #[trigger] peers@.take(count as int)[j]).peer@.onion_pubkey != key@ by {
        assert(peers@.take(count as int)[j] == peers@[j]);
    }
    false
}

/// Collect the hostnames of all pinned peers on record.
pub fn collect_pinned_onions(peers: &[NamedPeer]) -> (pinned: TextSet)
    ensures
        pinned.wf(),
        pinned@ == pinned_onions(peers@),
{
    let mut pinned = TextSet::new();
    let mut i: usize = 0;
    assert(pinned@ =~= pinned_onions(peers@.take(0)));
    while i < peers.len()
        invariant
            i <= peers.len(),
            pinned.wf(),
            pinned@ == pinned_onions(peers@.take(i as int)),
        decreases peers.len() - i,
    {
        let named = &peers[i];
        assert(peers@.take(i + 1).drop_last() =~= peers@.take(i as int));
        if named.peer.pinned_by_us && public_key_is_valid(named.peer.onion_pubkey.as_slice())
            && !names_key_before(peers, i, named.peer.onion_pubkey.as_slice()) {
            pinned.insert(named.hostname.clone());
        }
        i += 1;
    }
    assert(peers@.take(i as int) =~= peers@);
    pinned
}

/// A client of a pinned peer leaves the cache only when every cached client
/// belongs to a pinned peer.
pub proof fn law_pinned_clients_leave_last(
    clients: Map<Seq<char>, i64>,
    pinned: Set<Seq<char>>,
    after: Map<Seq<char>, i64>,
    onion: Seq<char>,
    other: Seq<char>,
)
    requires
        trimmed_cache(clients, pinned, after),
        clients.dom().contains(onion),
        pinned.contains(onion),
        clients.dom().contains(other),
        !pinned.contains(other),
    ensures
        after.dom().contains(onion),
        after[onion] == clients[onion],
{
    if clients.dom().len() > MAX_CACHED_PEER_CLIENTS {
        let victim = choose|victim: Seq<char>| #[trigger]
            is_victim(clients, pinned, victim) && after == clients.remove(victim);
        assert(not_pinned(pinned)(victim));
        assert(victim != onion);
    }
}

/// Whether a probe is due for a peer session.
pub open spec fn probe_due(session: LiveRecoveryProbeState) -> bool {
    !(session.probe_in_progress || session.probe_completed)
}

/// Once a probe has completed, none is due again until the session has been
/// idle for longer than the limit.
pub proof fn law_one_probe_per_session(
    probes: Map<Seq<char>, LiveRecoveryProbeState>,
    onion: Seq<char>,
    finished_at: i64,
    now: int,
)
    requires
        probes.dom().contains(onion),
        probes[onion] == (LiveRecoveryProbeState {
            last_contact_at_secs: finished_at,
            probe_in_progress: false,
            probe_completed: true,
        }),
        i64::MIN <= now <= i64::MAX,
    ensures
        probe_due(session_of(retained(probes, probe_kept(now)), onion)) <==> clamp_i64(
            now - finished_at,
        ) > PEER_CLIENT_CACHE_IDLE_TTL_SECS,
{
    let kept = retained(probes, probe_kept(now));
    assert(kept.dom().contains(onion) <==> probe_kept(now)(probes[onion]));
}

/// After an attempt no exchange with the peer is due until the cooldown is over.
pub proof fn law_exchange_waits_for_cooldown(
    exchanges: Map<Seq<char>, i64>,
    onion: Seq<char>,
    attempted: i64,
    now: int,
)
    requires
        exchanges.dom().contains(onion),
        exchanges[onion] == attempted,
        i64::MIN <= now <= i64::MAX,
    ensures
        ({
            let kept = retained(exchanges, exchange_kept(now));
            (kept.dom().contains(onion) ==> clamp_i64(now - kept[onion])
                >= PEER_EXCHANGE_COOLDOWN_SECS) <==> clamp_i64(now - attempted)
                >= PEER_EXCHANGE_COOLDOWN_SECS
        }),
{
    let kept = retained(exchanges, exchange_kept(now));
    assert(kept.dom().contains(onion) <==> exchange_kept(now)(attempted));
}

/// Everything of a node but its clients, exchange attempts and probe sessions.
pub open spec fn same_otherwise(a: NodeView, b: NodeView) -> bool {
    &&& a.onion_address == b.onion_address && a.public_key == b.public_key && a.limits == b.limits
    &&& a.started_at == b.started_at && a.observation == b.observation
    &&& a.known_peers == b.known_peers && a.storage_config == b.storage_config
    &&& a.failures == b.failures
}

/// Pruning drops the clients and exchange attempts that are older than five
/// minutes, and the probe sessions that have been idle for longer unless a
/// probe is running, and touches nothing else.
pub proof fn law_pruning_drops_what_expired(node: NodeView, now: i64, onion: Seq<char>)
    ensures
        ({
            let after = pruned(node, now as int);
            &&& same_otherwise(node, after)
            &&& after.clients.dom().contains(onion) <==> node.clients.dom().contains(onion) && now
                - node.clients[onion] <= 300
            &&& after.clients.dom().contains(onion) ==> after.clients[onion] == node.clients[onion]
            &&& after.exchanges.dom().contains(onion) <==> node.exchanges.dom().contains(onion)
                && now - node.exchanges[onion] <= 300
            &&& after.exchanges.dom().contains(onion) ==> after.exchanges[onion]
                == node.exchanges[onion]
            &&& after.probes.dom().contains(onion) <==> node.probes.dom().contains(onion) && (
            node.probes[onion].probe_in_progress || now - node.probes[onion].last_contact_at_secs
                <= 300)
            &&& after.probes.dom().contains(onion) ==> after.probes[onion] == node.probes[onion]
        }),
{
    let after = pruned(node, now as int);
    assert(after.clients.dom().contains(onion) <==> node.clients.dom().contains(onion)
        && client_kept(now as int)(node.clients[onion]));
    assert(after.exchanges.dom().contains(onion) <==> node.exchanges.dom().contains(onion)
        && exchange_kept(now as int)(node.exchanges[onion]));
    assert(after.probes.dom().contains(onion) <==> node.probes.dom().contains(onion) && probe_kept(
        now as int,
    )(node.probes[onion]));
}

/// A probe runs on a live contact with another peer unless one is running for
/// it, or has completed in a session that has not been idle for more than five
/// minutes. While it runs no other one is due; once it is over, the next contact
/// starts one again exactly when this one did not complete or the session has
/// been idle for too long. Nothing is ever due for ourselves.
pub proof fn law_probes_run_one_at_a_time(
    node: NodeView,
    onion: Seq<char>,
    t1: i64,
    due: bool,
    running: NodeView,
    t2: i64,
    again: bool,
    still: NodeView,
    completed: bool,
    finished: NodeView,
    t3: i64,
    next: bool,
    last: NodeView,
)
    requires
        begins_probe(node, onion, t1, due, running),
        begins_probe(running, onion, t2, again, still),
        finishes_probe(running, onion, completed, t2, finished),
        begins_probe(finished, onion, t3, next, last),
    ensures
        onion == node.onion_address ==> !due && !again && !next && running == node,
        onion != node.onion_address ==> {
            &&& due <==> !(node.probes.dom().contains(onion) && (
            node.probes[onion].probe_in_progress || node.probes[onion].probe_completed && t1
                - node.probes[onion].last_contact_at_secs <= 300))
            &&& due ==> !again && (next <==> !completed || t3 - t2 > 300)
        },
        same_otherwise(node, running),
        same_otherwise(running, finished),
{
    law_pruning_drops_what_expired(node, t1, onion);
    law_pruning_drops_what_expired(running, t2, onion);
    law_pruning_drops_what_expired(finished, t3, onion);
}

/// A client that was kept is found for as long as it is used at least every
/// five minutes, and using it keeps it; a client that was not kept is not found.
pub proof fn law_kept_client_is_found(
    node: NodeView,
    onion: Seq<char>,
    t1: i64,
    found: bool,
    after: NodeView,
    t2: i64,
    again: bool,
    last: NodeView,
)
    requires
        reuses_client(node, onion, t1, found, after),
        reuses_client(after, onion, t2, again, last),
    ensures
        found <==> node.clients.dom().contains(onion) && t1 - node.clients[onion] <= 300,
        found ==> (again <==> t2 - t1 <= 300),
        !found ==> !again,
        same_otherwise(node, after),
{
    law_pruning_drops_what_expired(node, t1, onion);
    law_pruning_drops_what_expired(after, t2, onion);
}

/// Keeping one more client drops at most one, and only where there would be
/// more than thirty-two: one of a peer that is not pinned, if there is any, and
/// among those one that has not been used for longest.
pub proof fn law_cache_drops_the_longest_unused(
    node: NodeView,
    onion: Seq<char>,
    pinned: Set<Seq<char>>,
    now: i64,
    after: NodeView,
    gone: Seq<char>,
    left: Seq<char>,
)
    requires
        remembers_client(node, onion, pinned, now, after),
        node.clients.dom().finite(),
        node.clients.dom().len() <= 32,
    ensures
        ({
            let offered = pruned(node, now as int).clients.insert(onion, now);
            &&& same_otherwise(node, after)
            &&& after.clients.dom().len() <= 32
            &&& offered.dom().len() <= 32 ==> after.clients == offered
            &&& offered.dom().len() > 32 ==> after.clients.dom().len() == 32
            &&& after.clients.dom().contains(left) ==> offered.dom().contains(left)
                && after.clients[left] == offered[left]
            &&& offered.dom().contains(gone) && !after.clients.dom().contains(gone)
                && after.clients.dom().contains(left) ==> {
                &&& pinned.contains(gone) ==> pinned.contains(left)
                &&& pinned.contains(gone) == pinned.contains(left) ==> offered[gone]
                    <= offered[left]
            }
        }),
{
    let kept = pruned(node, now as int);
    let offered = kept.clients.insert(onion, now);
    assert(kept.clients.dom().subset_of(node.clients.dom()));
    vstd::set_lib::lemma_len_subset(kept.clients.dom(), node.clients.dom());
    assert(offered.dom() =~= kept.clients.dom().insert(onion));
    if offered.dom().len() > 32 {
        let victim = choose|victim: Seq<char>| #[trigger]
            is_victim(offered, pinned, victim) && after.clients == offered.remove(victim);
        assert(offered.dom().contains(victim));
        assert(after.clients.dom() =~= offered.dom().remove(victim));
        if offered.dom().contains(gone) && !after.clients.dom().contains(gone)
            && after.clients.dom().contains(left) {
            assert(gone == victim);
            assert(offered.dom().contains(left));
            if exists|other: Seq<char>| #[trigger]
                offered.dom().contains(other) && !pinned.contains(other) {
                assert(not_pinned(pinned)(gone));
                if !pinned.contains(left) {
                    assert(not_pinned(pinned)(left));
                }
            } else {
                assert(anyone()(left));
                assert(pinned.contains(left));
            }
        }
    }
}

/// An exchange with a peer is due exactly when none was attempted in the last
/// five minutes.
pub proof fn law_exchanges_are_five_minutes_apart(
    node: NodeView,
    onion: Seq<char>,
    now: i64,
    due: bool,
    after: NodeView,
)
    requires
        checks_exchange(node, onion, now, due, after),
    ensures
        due <==> !(node.exchanges.dom().contains(onion) && now - node.exchanges[onion] < 300),
        same_otherwise(node, after),
{
    law_pruning_drops_what_expired(node, now, onion);
}

/// The failure of another peer is on record from then on, with its time, its
/// words and its class, and nothing else changes; of our own failures nothing
/// is kept.
pub proof fn law_last_failure_is_on_record(
    node: NodeView,
    onion: Seq<char>,
    error: &Status,
    now: Timestamp,
    after: NodeView,
    class: crate::inventory::PeerFailureClass,
    other: Seq<char>,
)
    requires
        notes_failure(node, onion, *error, now, after),
        call_ensures(classify_recent_peer_failure, (error,), class),
    ensures
        onion == node.onion_address ==> after == node,
        onion != node.onion_address ==> {
            &&& after.failures.dom().contains(onion)
            &&& after.failures[onion].last_error_message@ == error.message@
            &&& after.failures[onion].last_error_class == class
            &&& now.secs <= i64::MAX ==> after.failures[onion].last_failure_at == now.secs
            &&& other != onion ==> (after.failures.dom().contains(other)
                <==> node.failures.dom().contains(other)) && after.failures[other]
                == node.failures[other]
        },
        after.clients == node.clients,
        after.known_peers == node.known_peers,
{
}

/// A storage policy is taken over exactly when it is given and neither of its
/// numbers is negative; otherwise the old one stays.
pub proof fn law_only_sound_policies_are_taken(
    node: NodeView,
    config: Option<StorageConfig>,
    outcome: Result<(), Status>,
    after: NodeView,
)
    requires
        configures(node, config, outcome, after),
    ensures
        outcome is Ok <==> (config matches Some(wanted) && wanted.allocated_storage_for_peers >= 0
            && wanted.min_replicas >= 0),
        outcome is Ok ==> after.storage_config == config->0,
        outcome is Err ==> after == node && (outcome->Err_0).code
            == crate::status::Code::InvalidArgument,
        after.known_peers == node.known_peers,
        after.clients == node.clients,
{
}

/// A node starts with a budget of one gibibyte and a target of a hundred
/// replicas, and offers at most what is not negative.
pub proof fn law_defaults_and_budget(config: StorageConfig, node: &Node, budget: i64)
    requires
        call_ensures(default_storage_config, (), config),
        call_ensures(Node::storage_budget_bytes, (node,), budget),
    ensures
        config.allocated_storage_for_peers == 1_073_741_824,
        config.min_replicas == 100,
        node@.storage_config.allocated_storage_for_peers >= 0 ==> budget
            == node@.storage_config.allocated_storage_for_peers,
        node@.storage_config.allocated_storage_for_peers < 0 ==> budget == 0,
{
}

/// Uptime counts the whole seconds since the node was started, and nothing
/// before; the observation window starts when it did.
pub proof fn law_uptime_counts_from_the_start(
    node: &Node,
    now: Timestamp,
    secs: i64,
    window: Option<i64>,
)
    requires
        call_ensures(Node::uptime_seconds, (node, now), secs),
        call_ensures(Node::peer_score_observation_started_at_secs, (node,), window),
        now.secs <= i64::MAX,
    ensures
        node@.started_at is None ==> secs == 0,
        node@.started_at matches Some(at) ==> {
            &&& at.secs <= now.secs ==> secs == now.secs - at.secs
            &&& at.secs > now.secs ==> secs == 0
        },
        window is Some <==> node@.observation is Some,
        node@.observation matches Some(at) ==> (at.secs <= i64::MAX ==> window == Some(
            at.secs as i64,
        )),
{
}

/// Whether a peer is on record.
pub open spec fn is_on_record(peers: Option<&[Peer]>, key: Seq<u8>) -> bool {
    peers matches Some(records) && exists|i: int|
        0 <= i < records@.len() && (#[trigger] records@[i]).onion_pubkey@ == key
}

/// Whether a peer is on record, as it is looked up.
proof fn lemma_on_record(peers: Option<&[Peer]>, key: Seq<u8>)
    ensures
        peers matches Some(records) ==> (find_peer(peer_views(records@), key) is Some
            <==> is_on_record(peers, key)),
{
    if let Some(records) = peers {
        crate::records::lemma_find_first(records@, key);
    }
}

/// A pin is changed exactly for another peer on record, and to what was asked;
/// pinning and unpinning differ in nothing else.
pub proof fn law_pins_change_for_peers_on_record(
    node: &Node,
    onion: &str,
    key: &Option<Vec<u8>>,
    peers: Option<&[Peer]>,
    pinned: Result<PinChange, Status>,
    unpinned: Result<PinChange, Status>,
)
    requires
        call_ensures(Node::pin_peer, (node, onion, key, peers), pinned),
        call_ensures(Node::unpin_peer, (node, onion, key, peers), unpinned),
    ensures
        pinned is Ok <==> onion@ != node@.onion_address && *key is Some && is_on_record(
            peers,
            (*key)->0@,
        ),
        unpinned is Ok <==> pinned is Ok,
        pinned matches Ok(change) ==> change.pinned_by_us && change.public_key@ == (*key)->0@,
        unpinned matches Ok(change) ==> !change.pinned_by_us && change.public_key@ == (*key)->0@,
{
    if let Some(bytes) = *key {
        lemma_on_record(peers, bytes@);
    }
}

/// A contact is put on record exactly for another peer that has one: as online
/// now where the peer answered, and as offline otherwise. A hostname without a
/// key is refused where there is a store.
pub proof fn law_contacts_are_recorded_for_peers_on_record(
    node: &Node,
    onion: &str,
    key: &Option<Vec<u8>>,
    peers: Option<&[Peer]>,
    now: Timestamp,
    live: Result<Option<ReachabilityUpdate>, Status>,
    offline: Result<Option<ReachabilityUpdate>, Status>,
)
    requires
        call_ensures(Node::note_peer_live, (node, onion, key, peers, now), live),
        call_ensures(Node::note_peer_offline, (node, onion, key, peers), offline),
    ensures
        live is Err <==> onion@ != node@.onion_address && peers is Some && *key is None,
        offline is Err <==> live is Err,
        live matches Ok(update) ==> (update is Some <==> onion@ != node@.onion_address
            && *key is Some && is_on_record(peers, (*key)->0@)),
        offline matches Ok(update) ==> (live matches Ok(other) && (update is Some
            <==> other is Some)),
        live matches Ok(Some(update)) ==> {
            &&& update.reachability == PeerReachability::Online
            &&& update.public_key@ == (*key)->0@
            &&& update.last_live_at is Some
            &&& now.secs <= i64::MAX ==> update.last_live_at == Some(now.secs as i64)
        },
        offline matches Ok(Some(update)) ==> {
            &&& update.reachability == PeerReachability::Offline
            &&& update.public_key@ == (*key)->0@
            &&& update.last_live_at is None
        },
{
    if let Some(bytes) = *key {
        lemma_on_record(peers, bytes@);
    }
}

/// What a peer claims and reports is put on record as it said it, exactly where
/// the peer has a record; without a store it is refused.
pub proof fn law_claims_are_recorded_as_made(
    node: &Node,
    key: &[u8],
    pins_us: bool,
    peers: Option<&[Peer]>,
    claim: Result<Option<bool>, Status>,
    revision: &PeerRevision,
    state: Result<Option<RequesterRevisionState>, Status>,
    content_id: &Option<Vec<u8>>,
    now: Timestamp,
    verified: Result<Option<VerifiedContent>, Status>,
)
    requires
        call_ensures(Node::record_remote_pin_claim, (node, key, pins_us, peers), claim),
        call_ensures(
            Node::record_requester_revision_observation,
            (node, key, revision, peers),
            state,
        ),
        call_ensures(
            Node::record_verified_our_content,
            (node, key, content_id, peers, now),
            verified,
        ),
    ensures
        peers is None <==> claim is Err,
        peers is None <==> state is Err,
        peers is None <==> verified is Err,
        claim matches Ok(told) ==> {
            &&& told is Some <==> is_on_record(peers, key@)
            &&& told matches Some(value) ==> value == pins_us
        },
        state matches Ok(told) ==> {
            &&& told is Some <==> is_on_record(peers, key@)
            &&& told matches Some(seen) ==> {
                &&& seen.latest_stored is Some <==> revision.latest_stored is Some
                &&& seen.latest_known is Some <==> revision.latest_known is Some
                &&& seen.latest_stored matches Some(content) ==> content@
                    == revision.latest_stored->0.content@
                &&& seen.latest_known matches Some(content) ==> content@
                    == revision.latest_known->0.content@
            }
        },
        verified matches Ok(told) ==> {
            &&& told is Some <==> is_on_record(peers, key@)
            &&& told matches Some(shown) ==> {
                &&& shown.content_id is Some <==> *content_id is Some
                &&& shown.verified_at is Some <==> *content_id is Some
                &&& shown.content_id matches Some(id) ==> id@ == (*content_id)->0@
                &&& *content_id is Some && now.secs <= i64::MAX ==> shown.verified_at == Some(
                    now.secs as i64,
                )
            }
        },
{
    lemma_on_record(peers, key@);
}

/// The record that is found has the key that was looked for.
proof fn lemma_found_key(peers: Seq<PeerView>, key: Seq<u8>)
    ensures
        find_peer(peers, key) matches Some(peer) ==> peer.onion_pubkey == key,
    decreases peers.len(),
{
    if peers.len() > 0 {
        lemma_found_key(peers.drop_first(), key);
    }
}

/// A record about ourselves is stale, and it is the only one that is.
pub proof fn law_only_our_own_record_is_stale(
    node: &Node,
    peers: &[Peer],
    stale: Option<TrimmedPeer>,
    key: &Option<Vec<u8>>,
    id: Result<Option<Vec<u8>>, Status>,
    p: int,
)
    requires
        call_ensures(Node::purge_self_peer_metadata, (node, peers), stale),
        call_ensures(Node::mirrored_peer_content_id, (node, key, Some(peers)), id),
    ensures
        stale is Some <==> is_on_record(Some(peers), node@.public_key),
        stale matches Some(found) ==> found.public_key@ == node@.public_key,
        crate::records::first_with_key(peers@, node@.public_key, p) ==> (
        stale matches Some(found) && (found.cached_content_id is Some
            <==> peers@[p].latest_cached_content is Some)),
        id is Err <==> *key is None,
        *key matches Some(bytes) ==> (crate::records::first_with_key(peers@, bytes@, p) ==> (
        id matches Ok(told) && (told is Some <==> peers@[p].latest_cached_content is Some) && (
        told matches Some(name) ==> name@ == peers@[p].latest_cached_content->0.content_id@))),
{
    lemma_on_record(Some(peers), node@.public_key);
    crate::records::lemma_find_first(peers@, node@.public_key);
    lemma_found_key(peer_views(peers@), node@.public_key);
    if let Some(bytes) = *key {
        crate::records::lemma_find_first(peers@, bytes@);
    }
}

/// Whether `plan` follows from a limit of 1024 peers on record: a peer on
/// record, and any peer while there is room, comes in and nobody leaves; into a
/// full record a peer comes only for one of lower priority.
pub open spec fn respects_capacity(
    records: Seq<Peer>,
    key: Seq<u8>,
    level: u8,
    outcome: Result<AddPeerPlan, Status>,
) -> bool {
    let known = exists|i: int|
        0 <= i < records.len() && (#[trigger] records[i]).onion_pubkey@ == key;
    let replaces = exists|i: int|
        0 <= i < records.len() && crate::admission::priority_of((#[trigger] records[i])@) < level;
    let room = known || records.len() < 1024;
    &&& room ==> (outcome matches Ok(AddPeerPlan::Track(plan)) && plan.evicted is None)
    &&& !room && !replaces ==> (outcome matches Err(status) && status.code
        == crate::status::Code::ResourceExhausted)
    &&& !room ==> (outcome matches Ok(plan) ==> (plan matches AddPeerPlan::Track(track)
        && track.evicted is Some))
    &&& outcome matches Ok(AddPeerPlan::Track(plan)) ==> (plan.evicted matches Some(evicted)
        ==> replaced_the_worst(records, level, evicted))
}

/// Whether `evicted` is the peer on record that is worth least, and of lower
/// priority than `level`.
pub open spec fn replaced_the_worst(records: Seq<Peer>, level: u8, evicted: TrimmedPeer) -> bool {
    exists|w: int|
        0 <= w < records.len() && (#[trigger] records[w]).onion_pubkey@ == evicted.public_key@
            && crate::admission::priority_of(records[w]@) < level
            && crate::admission::is_worth_least(records, w)
}

/// Admission follows from the limit.
proof fn lemma_add_respects_capacity(
    records: Seq<Peer>,
    key: Seq<u8>,
    onion: Seq<char>,
    origin: PeerOrigin,
    direction: FirstContactDirection,
    outcome: Result<AddPeerPlan, Status>,
)
    requires
        add_rule(Some(peer_views(records)), key, onion, origin, direction, outcome),
    ensures
        respects_capacity(records, key, priority(false, origin, 0, direction), outcome),
{
    let views = peer_views(records);
    let track = choose|track: Result<TrackPeerPlan, Status>| #[trigger]
        follows_track(track, outcome) && tracks(views, key, onion, origin, direction, track);
    let admission = choose|admission: PeerAdmissionPlan| #[trigger]
        admission_rule(
            views,
            key,
            priority(false, origin, 0, direction),
            MAX_TRACKED_PEERS as nat,
            admission,
        ) && track_rule(views, admission, onion, direction, track);
    crate::admission::lemma_tracking_makes_room(
        records,
        key,
        onion,
        origin,
        direction,
        MAX_TRACKED_PEERS as nat,
        admission,
        track,
    );
}

/// An operator adds any peer but the node itself, as one of their own choice;
/// without a store it is only remembered, and on record there is room for 1024
/// peers.
pub proof fn law_operator_peers_come_in_as_manual(
    node: &Node,
    onion: &str,
    key: &Option<Vec<u8>>,
    peers: Option<&[Peer]>,
    outcome: Result<AddPeerPlan, Status>,
    level: u8,
)
    requires
        call_ensures(Node::add_known_peer, (node, onion, key, peers), outcome),
        call_ensures(
            crate::admission::peer_priority,
            (false, PeerOrigin::Manual, 0i64, FirstContactDirection::Unknown),
            level,
        ),
    ensures
        onion@ == node@.onion_address || *key is None ==> outcome is Err,
        onion@ != node@.onion_address && *key is Some && peers is None ==> (outcome matches Ok(plan)
            && plan is Remember),
        onion@ != node@.onion_address ==> (*key matches Some(bytes) ==> (peers matches Some(records)
            ==> respects_capacity(records@, bytes@, level, outcome))),
{
    if let Some(bytes) = *key {
        if let Some(records) = peers {
            if onion@ != node@.onion_address {
                lemma_add_respects_capacity(
                    records@,
                    bytes@,
                    onion@,
                    PeerOrigin::Manual,
                    FirstContactDirection::Unknown,
                    outcome,
                );
            }
        }
    }
}

/// A peer that we dial or that dials us comes in as a discovered one, with the
/// direction of the contact; a mere probe, and a contact with ourselves, brings
/// nobody in.
pub proof fn law_contacts_bring_peers_in_as_discovered(
    node: &Node,
    onion: &str,
    bytes: &[u8],
    key: &Option<Vec<u8>>,
    track_peer: bool,
    peers: Option<&[Peer]>,
    inbound: Result<Option<AddPeerPlan>, Status>,
    outbound: Result<Option<AddPeerPlan>, Status>,
    inbound_level: u8,
    outbound_level: u8,
)
    requires
        call_ensures(
            Node::note_authenticated_inbound_peer_contact,
            (node, onion, bytes, peers),
            inbound,
        ),
        call_ensures(
            Node::note_outbound_peer_contact,
            (node, onion, key, track_peer, peers),
            outbound,
        ),
        call_ensures(
            crate::admission::peer_priority,
            (false, PeerOrigin::Discovered, 0i64, FirstContactDirection::Inbound),
            inbound_level,
        ),
        call_ensures(
            crate::admission::peer_priority,
            (false, PeerOrigin::Discovered, 0i64, FirstContactDirection::Outbound),
            outbound_level,
        ),
    ensures
        inbound matches Ok(plan) ==> (plan is None <==> bytes@ == node@.public_key),
        bytes@ != node@.public_key ==> (peers matches Some(records) ==> respects_capacity(
            records@,
            bytes@,
            inbound_level,
            unwrapped(inbound),
        )),
        outbound matches Ok(plan) ==> (plan is None <==> !track_peer || onion@
            == node@.onion_address),
        track_peer && onion@ != node@.onion_address ==> {
            &&& *key is None ==> outbound is Err
            &&& *key matches Some(name) ==> (peers matches Some(records) ==> respects_capacity(
                records@,
                name@,
                outbound_level,
                unwrapped(outbound),
            ))
        },
        peers is None && bytes@ != node@.public_key ==> (inbound matches Ok(Some(plan))
            && plan is Remember),
        inbound matches Ok(Some(AddPeerPlan::Track(plan))) ==> plan.first_contact_direction == Some(
            FirstContactDirection::Inbound,
        ),
        outbound matches Ok(Some(AddPeerPlan::Track(plan))) ==> plan.first_contact_direction == Some(
            FirstContactDirection::Outbound,
        ),
{
    if bytes@ != node@.public_key {
        lemma_contact_added(
            peers,
            bytes@,
            onion@,
            FirstContactDirection::Inbound,
            inbound,
        );
    }
    if track_peer && onion@ != node@.onion_address {
        if let Some(name) = *key {
            lemma_contact_added(
                peers,
                name@,
                onion@,
                FirstContactDirection::Outbound,
                outbound,
            );
        }
    }
}

/// What an outcome says of a plan that is there.
pub open spec fn unwrapped(outcome: Result<Option<AddPeerPlan>, Status>) -> Result<
    AddPeerPlan,
    Status,
> {
    match outcome {
        Ok(plan) => Ok(plan->0),
        Err(status) => Err(status),
    }
}

/// A contact brings a peer in within the limit.
proof fn lemma_contact_added(
    peers: Option<&[Peer]>,
    key: Seq<u8>,
    onion: Seq<char>,
    direction: FirstContactDirection,
    outcome: Result<Option<AddPeerPlan>, Status>,
)
    requires
        contact_added(record_views(peers), key, onion, direction, outcome),
        direction != FirstContactDirection::Unknown,
    ensures
        outcome matches Ok(plan) ==> plan is Some,
        peers is None ==> (outcome matches Ok(Some(plan)) && plan is Remember),
        peers matches Some(records) ==> respects_capacity(
            records@,
            key,
            priority(false, PeerOrigin::Discovered, 0, direction),
            unwrapped(outcome),
        ),
        outcome matches Ok(Some(AddPeerPlan::Track(plan))) ==> plan.first_contact_direction == Some(
            direction,
        ),
{
    let given = choose|given: Result<AddPeerPlan, Status>| #[trigger]
        passes_on(given, outcome) && add_rule(
            record_views(peers),
            key,
            onion,
            PeerOrigin::Discovered,
            direction,
            given,
        );
    if let Some(records) = peers {
        assert(given == unwrapped(outcome));
        lemma_add_respects_capacity(
            records@,
            key,
            onion,
            PeerOrigin::Discovered,
            direction,
            given,
        );
    }
}

/// Peer metadata is rolled up from its due time on, and not before; without a
/// due time nothing is pending.
pub proof fn law_rollup_waits_for_its_time(
    node: &Node,
    due_at: Option<(i64, i64)>,
    now: Timestamp,
    decision: RollupDecision,
)
    requires
        call_ensures(Node::run_metadata_rollup_pass, (node, due_at, now), decision),
        now.secs <= i64::MAX,
    ensures
        decision == RollupDecision::NotPending <==> due_at is None,
        due_at matches Some(due) ==> (decision == RollupDecision::RollUp <==> due.0 < now.secs
            || due.0 == now.secs && due.1 <= now.nanos),
{
}

/// The pinned hostnames are those of the pinned records with a public key, where
/// the first record with a key decides.
pub proof fn law_pinned_hostnames_are_those_of_pinned_records(
    peers: &[NamedPeer],
    pinned: TextSet,
    onion: Seq<char>,
)
    requires
        call_ensures(collect_pinned_onions, (peers,), pinned),
    ensures
        pinned@.contains(onion) <==> exists|i: int| #[trigger]
            is_pinned_record(peers@, onion, i),
{
    lemma_pinned_onions(peers@, onion);
}

/// Whether record `i` pins a hostname.
pub open spec fn is_pinned_record(peers: Seq<NamedPeer>, onion: Seq<char>, i: int) -> bool {
    &&& 0 <= i < peers.len()
    &&& peers[i].hostname@ == onion
    &&& peers[i].peer.pinned_by_us
    &&& is_public_key(peers[i].peer.onion_pubkey@)
    &&& forall|j: int|
        0 <= j < i ==> (#[trigger] peers[j]).peer.onion_pubkey@ != peers[i].peer.onion_pubkey@
}

/// Pinned hostnames are collected one by one.
proof fn lemma_pinned_onions(peers: Seq<NamedPeer>, onion: Seq<char>)
    ensures
        pinned_onions(peers).contains(onion) <==> exists|i: int| #[trigger]
            is_pinned_record(peers, onion, i),
    decreases peers.len(),
{
    if peers.len() > 0 {
        let rest = peers.drop_last();
        let end = peers.len() - 1;
        lemma_pinned_onions(rest, onion);
        assert forall|i: int| 0 <= i < end implies (#[trigger] is_pinned_record(peers, onion, i)
            <==> is_pinned_record(rest, onion, i)) by {
            assert(rest[i] == peers[i]);
            if is_pinned_record(peers, onion, i) {
                assert forall|j: int| 0 <= j < i implies (#[trigger] rest[j]).peer.onion_pubkey@
                    != rest[i].peer.onion_pubkey@ by {
                    assert(rest[j] == peers[j]);
                }
            }
            if is_pinned_record(rest, onion, i) {
                assert forall|j: int| 0 <= j < i implies (#[trigger] peers[j]).peer.onion_pubkey@
                    != peers[i].peer.onion_pubkey@ by {
                    assert(rest[j] == peers[j]);
                }
            }
        }
        assert(is_pinned_record(peers, onion, end) <==> peers[end].hostname@ == onion
            && peers[end].peer.pinned_by_us && is_public_key(peers[end].peer.onion_pubkey@)
            && !names_key(rest, peers[end].peer.onion_pubkey@)) by {
            if names_key(rest, peers[end].peer.onion_pubkey@) {
                let j = choose|j: int|
                    0 <= j < rest.len() && (#[trigger] rest[j]).peer@.onion_pubkey
                        == peers[end].peer.onion_pubkey@;
                assert(peers[j] == rest[j]);
            } else {
                assert forall|j: int| 0 <= j < end implies (#[trigger] peers[j]).peer.onion_pubkey@
                    != peers[end].peer.onion_pubkey@ by {
                    assert(rest[j] == peers[j]);
                }
            }
        }
        if exists|i: int| #[trigger] is_pinned_record(peers, onion, i) {
            let i = choose|i: int| #[trigger] is_pinned_record(peers, onion, i);
            if i < end {
                assert(is_pinned_record(rest, onion, i));
            }
        }
        if exists|i: int| #[trigger] is_pinned_record(rest, onion, i) {
            let i = choose|i: int| #[trigger] is_pinned_record(rest, onion, i);
            assert(is_pinned_record(peers, onion, i));
        }
    }
}

/// A node that opens its store knows exactly the hostnames on record that have
/// a public key and are not its own; it has not started, observes from now on
/// and has nothing cached.
pub proof fn law_node_knows_the_peers_on_record(
    own: String,
    key: Vec<u8>,
    limits: Limits,
    now: Timestamp,
    peers: &[NamedPeer],
    node: Node,
    onion: Seq<char>,
)
    requires
        call_ensures(Node::with_local_storage, (own, key, limits, now, peers), node),
    ensures
        node@.known_peers.contains(onion) <==> onion != own@ && exists|i: int|
            0 <= i < peers@.len() && (#[trigger] peers@[i]).hostname@ == onion && is_public_key(
                peers@[i].peer.onion_pubkey@,
            ),
        node@.onion_address == own@,
        node@.public_key == key@,
        node@.limits == limits,
        node@.started_at is None,
        node@.observation == Some(now),
        node@.clients.dom().is_empty(),
        node@.exchanges.dom().is_empty(),
        node@.probes.dom().is_empty(),
        node@.failures.dom().is_empty(),
{
    lemma_recorded_onions(peers@, own@, onion);
    assert(!built_in_texts().to_set().contains(onion));
}

/// Recorded hostnames are collected one by one.
proof fn lemma_recorded_onions(peers: Seq<NamedPeer>, own: Seq<char>, onion: Seq<char>)
    ensures
        recorded_onions(peers, own).contains(onion) <==> onion != own && exists|i: int|
            0 <= i < peers.len() && (#[trigger] peers[i]).hostname@ == onion && is_public_key(
                peers[i].peer.onion_pubkey@,
            ),
    decreases peers.len(),
{
    if peers.len() > 0 {
        let rest = peers.drop_last();
        let end = peers.len() - 1;
        lemma_recorded_onions(rest, own, onion);
        if recorded_onions(peers, own).contains(onion) {
            if recorded_onions(rest, own).contains(onion) {
                let i = choose|i: int|
                    0 <= i < rest.len() && (#[trigger] rest[i]).hostname@ == onion && is_public_key(
                        rest[i].peer.onion_pubkey@,
                    );
                assert(peers[i] == rest[i]);
            } else {
                assert(peers[end].hostname@ == onion);
            }
        }
        if onion != own && exists|i: int|
            0 <= i < peers.len() && (#[trigger] peers[i]).hostname@ == onion && is_public_key(
                peers[i].peer.onion_pubkey@,
            ) {
            let i = choose|i: int|
                0 <= i < peers.len() && (#[trigger] peers[i]).hostname@ == onion && is_public_key(
                    peers[i].peer.onion_pubkey@,
                );
            if i < end {
                assert(rest[i] == peers[i]);
            }
        }
    }
}

/// The inventory of a node lists each known peer but itself once, as connected
/// where a client is open, and with the last failure on record.
pub proof fn law_node_inventory_lists_known_peers(
    node: NodeView,
    peers: Option<&[NamedPeer]>,
    inventory: Seq<PeerInventoryEntry>,
    i: int,
    j: int,
    onion: Seq<char>,
)
    requires
        is_inventory(node, peers, inventory_views(inventory)),
    ensures
        node.known_peers.contains(onion) && onion != node.onion_address
            ==> crate::inventory::is_listed(inventory, onion),
        0 <= i < inventory.len() ==> {
            let entry = inventory[i];
            let name = entry.onion_service_id@;
            &&& node.known_peers.contains(name)
            &&& name != node.onion_address
            &&& entry.status is Connected <==> node.clients.dom().contains(name)
            &&& node.failures.dom().contains(name) ==> entry.last_failure_at
                == node.failures[name].last_failure_at
            &&& peers is None ==> crate::inventory::shows_nothing(entry)
        },
        0 <= i < j < inventory.len() ==> (inventory[j].has_storage ==> inventory[i].has_storage),
{
    let own = node.onion_address;
    let known = choose|known: Seq<Seq<char>>| #[trigger]
        strictly_ascending(known) && known.to_set() == node.known_peers && lists_entries(
            inventory_views(inventory),
            entries_of(others(known, own), named_views(peers), node.clients, node.failures),
        );
    crate::inventory::lemma_lists_every_other_peer(
        known,
        own,
        named_views(peers),
        node.clients,
        node.failures,
        inventory,
    );
    if node.known_peers.contains(onion) && onion != own {
        assert(known.to_set().contains(onion));
        let k = choose|k: int| 0 <= k < known.len() && known[k] == onion;
        assert(known[k] != own);
    }
    if 0 <= i < inventory.len() {
        crate::inventory::lemma_entry_shows_its_peer(
            known,
            own,
            named_views(peers),
            node.clients,
            node.failures,
            inventory,
            i,
        );
        let name = inventory[i].onion_service_id@;
        let k = choose|k: int| 0 <= k < known.len() && #[trigger] known[k] == name;
        assert(known.contains(name));
        assert(known.to_set().contains(name));
    }
    if 0 <= i < j < inventory.len() {
        let views = inventory_views(inventory);
        crate::inventory::law_inventory_lists_storage_peers_first(
            views,
            entries_of(others(known, own), named_views(peers), node.clients, node.failures),
            i,
            j,
        );
        assert(views[i] == inventory[i]@ && views[j] == inventory[j]@);
    }
}

/// Through the node too a verification moves the score of a peer on record by
/// the time observed since the window began, and publication is refused while
/// recovery mode is enabled or the revision would be too large.
pub proof fn law_node_passes_on_its_window(
    node: &Node,
    peers: &[Peer],
    key: &[u8],
    passed: bool,
    now: Timestamp,
    outcome: Result<ScoreUpdate, Status>,
    window: Option<i64>,
    direct: Result<ScoreUpdate, Status>,
    secs: i64,
)
    requires
        call_ensures(Node::update_peer_score, (node, Some(peers), key, passed, now), outcome),
        call_ensures(Node::peer_score_observation_started_at_secs, (node,), window),
        call_ensures(now_secs, (now,), secs),
        call_ensures(update_peer_score, (peers, key, passed, window, secs), direct),
    ensures
        outcome is Ok <==> direct is Ok,
        outcome matches Ok(update) ==> update == direct->Ok_0,
{
}

/// A peer is published to exactly when it is not ourselves, has a key, recovery
/// mode is off and the projected revision is not too large.
pub proof fn law_publication_needs_another_peer_and_room(
    node: &Node,
    onion: &str,
    key_valid: bool,
    recovery: bool,
    projected: Option<u64>,
    outcome: Result<PublishAttempt, Status>,
)
    requires
        call_ensures(
            Node::publish_to_peer_updates,
            (node, onion, key_valid, recovery, projected),
            outcome,
        ),
    ensures
        outcome is Ok <==> !recovery && (projected matches Some(length) ==> length
            <= node@.limits.max_peer_content_bytes) && onion@ != node@.onion_address && key_valid,
        outcome matches Ok(attempt) ==> attempt@.peer_onion == onion@,
{
}

/// A recovery pass asks every known peer but ourselves and nobody else.
pub proof fn law_recovery_pass_asks_every_other_peer(
    node: &Node,
    pass: RecoveryPass,
    onion: Seq<char>,
)
    requires
        call_ensures(Node::run_recovery_pass, (node,), pass),
    ensures
        pass.unprobed().contains(onion) <==> node@.known_peers.contains(onion) && onion
            != node@.onion_address,
{
    let own = node@.onion_address;
    let known = choose|known: Seq<Seq<char>>| #[trigger]
        strictly_ascending(known) && known.to_set() == node@.known_peers && pass.unprobed()
            == others(known, own);
    lemma_others_of_set(known, own, onion);
}

/// The others of a list are its items but one.
pub proof fn lemma_others_of_set(known: Seq<Seq<char>>, own: Seq<char>, onion: Seq<char>)
    ensures
        others(known, own).contains(onion) <==> known.to_set().contains(onion) && onion != own,
{
    crate::inventory::lemma_others_filter(known, own);
    if others(known, own).contains(onion) {
        let at = choose|at: int|
            0 <= at < others(known, own).len() && others(known, own)[at] == onion;
        crate::inventory::lemma_other_is_known(known, own, at);
        let k = choose|k: int| 0 <= k < known.len() && #[trigger] known[k] == onion;
        assert(known.contains(onion));
    }
    if known.to_set().contains(onion) && onion != own {
        let k = choose|k: int| 0 <= k < known.len() && known[k] == onion;
        assert(others(known, own).contains(known[k]));
    }
}

/// The policy that operators see is the one that is followed: sizes in bytes,
/// times in milliseconds, and the fixed numbers of peers and clients.
pub proof fn law_shown_policy_is_the_policy(
    limits: &Limits,
    retry: &PeerRetryPolicy,
    policy: ResourcePolicy,
    connect: i64,
    rpc: i64,
    budget: i64,
    first: i64,
    longest: i64,
)
    requires
        call_ensures(resource_policy, (limits, retry), policy),
        call_ensures(duration_to_millis_i64, (retry.connect_timeout,), connect),
        call_ensures(duration_to_millis_i64, (retry.rpc_timeout,), rpc),
        call_ensures(duration_to_millis_i64, (retry.total_budget,), budget),
        call_ensures(duration_to_millis_i64, (retry.initial_backoff,), first),
        call_ensures(duration_to_millis_i64, (retry.max_backoff,), longest),
    ensures
        limits.max_peer_content_bytes <= i64::MAX ==> policy.max_peer_content_bytes
            == limits.max_peer_content_bytes,
        limits.peer_grpc_message_limit_bytes <= i64::MAX ==> policy.peer_grpc_message_limit_bytes
            == limits.peer_grpc_message_limit_bytes,
        policy.peer_connect_timeout_ms == connect,
        policy.peer_rpc_timeout_ms == rpc,
        policy.peer_operation_total_budget_ms == budget,
        policy.peer_retry_initial_backoff_ms == first,
        policy.peer_retry_max_backoff_ms == longest,
        policy.max_tracked_peers == 1024,
        policy.max_cached_peer_clients == 32,
        !policy.chunking_supported,
{
}

/// Whether the client, exchange attempt and probe session of `other` are the
/// same before and after, unless they expired.
pub open spec fn leaves_alone(node: NodeView, after: NodeView, other: Seq<char>, now: i64) -> bool {
    &&& leaves_client(node, after, other, now)
    &&& leaves_exchange(node, after, other, now)
    &&& leaves_session(node, after, other, now)
}

/// Whether the client of `other` stays unless it expired.
pub open spec fn leaves_client(node: NodeView, after: NodeView, other: Seq<char>, now: i64) -> bool {
    &&& after.clients.dom().contains(other) <==> node.clients.dom().contains(other) && now
        - node.clients[other] <= 300
    &&& after.clients.dom().contains(other) ==> after.clients[other] == node.clients[other]
}

/// Whether the exchange attempt with `other` stays unless it expired.
pub open spec fn leaves_exchange(
    node: NodeView,
    after: NodeView,
    other: Seq<char>,
    now: i64,
) -> bool {
    &&& after.exchanges.dom().contains(other) <==> node.exchanges.dom().contains(other) && now
        - node.exchanges[other] <= 300
    &&& after.exchanges.dom().contains(other) ==> after.exchanges[other] == node.exchanges[other]
}

/// Whether the probe session of `other` stays unless it expired.
pub open spec fn leaves_session(
    node: NodeView,
    after: NodeView,
    other: Seq<char>,
    now: i64,
) -> bool {
    &&& after.probes.dom().contains(other) <==> node.probes.dom().contains(other) && (
    node.probes[other].probe_in_progress || now - node.probes[other].last_contact_at_secs <= 300)
    &&& after.probes.dom().contains(other) ==> after.probes[other] == node.probes[other]
}

/// A probe of one peer touches nothing of another peer, and of its own peer the
/// session alone, which was last in contact now.
pub proof fn law_probes_touch_their_own_session(
    node: NodeView,
    onion: Seq<char>,
    now: i64,
    due: bool,
    begun: NodeView,
    completed: bool,
    finished: NodeView,
    other: Seq<char>,
)
    requires
        onion != node.onion_address,
        begins_probe(node, onion, now, due, begun),
        finishes_probe(node, onion, completed, now, finished),
    ensures
        other != onion ==> leaves_alone(node, begun, other, now) && leaves_alone(
            node,
            finished,
            other,
            now,
        ),
        leaves_client(node, begun, onion, now) && leaves_exchange(node, begun, onion, now),
        leaves_client(node, finished, onion, now) && leaves_exchange(node, finished, onion, now),
        begun.probes.dom().contains(onion) && begun.probes[onion].last_contact_at_secs == now,
        due ==> begun.probes[onion].probe_in_progress && !begun.probes[onion].probe_completed,
        finished.probes.dom().contains(onion) ==> {
            &&& finished.probes[onion].last_contact_at_secs == now
            &&& !finished.probes[onion].probe_in_progress
            &&& finished.probes[onion].probe_completed == completed
            &&& node.probes.dom().contains(onion)
        },
{
    law_pruning_drops_what_expired(node, now, onion);
    law_pruning_drops_what_expired(node, now, other);
}

/// Asking for a client or an exchange touches nothing of another peer. Of its
/// own peer it renews the client that was found.
pub proof fn law_asking_touches_its_own_peer(
    node: NodeView,
    onion: Seq<char>,
    now: i64,
    found: bool,
    reused: NodeView,
    due: bool,
    checked: NodeView,
    pinned: Set<Seq<char>>,
    kept: NodeView,
    other: Seq<char>,
)
    requires
        reuses_client(node, onion, now, found, reused),
        checks_exchange(node, onion, now, due, checked),
        remembers_client(node, onion, pinned, now, kept),
    ensures
        other != onion ==> leaves_alone(node, reused, other, now),
        found ==> reused.clients.dom().contains(onion) && reused.clients[onion] == now,
        leaves_exchange(node, reused, onion, now) && leaves_session(node, reused, onion, now),
        leaves_alone(node, checked, other, now) && leaves_alone(node, checked, onion, now),
        leaves_exchange(node, kept, other, now) && leaves_session(node, kept, other, now),
        leaves_exchange(node, kept, onion, now) && leaves_session(node, kept, onion, now),
        kept.clients.dom().contains(onion) ==> kept.clients[onion] == now,
{
    law_pruning_drops_what_expired(node, now, onion);
    law_pruning_drops_what_expired(node, now, other);
}

/// A failure on record and a taken policy change nothing else of a node.
pub proof fn law_records_change_nothing_else(
    node: NodeView,
    onion: Seq<char>,
    error: Status,
    now: Timestamp,
    failed: NodeView,
    config: Option<StorageConfig>,
    outcome: Result<(), Status>,
    configured: NodeView,
)
    requires
        notes_failure(node, onion, error, now, failed),
        configures(node, config, outcome, configured),
    ensures
        failed == (NodeView { failures: failed.failures, ..node }),
        configured == (NodeView { storage_config: configured.storage_config, ..node }),
{
}

/// A pin for a hostname without a key is refused for the request, any other for
/// the state of the node.
pub proof fn law_refused_pins_tell_why(
    node: &Node,
    onion: &str,
    key: &Option<Vec<u8>>,
    peers: Option<&[Peer]>,
    pinned: Result<PinChange, Status>,
    unpinned: Result<PinChange, Status>,
)
    requires
        call_ensures(Node::pin_peer, (node, onion, key, peers), pinned),
        call_ensures(Node::unpin_peer, (node, onion, key, peers), unpinned),
    ensures
        pinned matches Err(status) ==> (unpinned matches Err(other) && other.code == status.code),
        pinned matches Err(status) ==> (status.code is InvalidArgument <==> onion@
            != node@.onion_address && *key is None),
        pinned matches Err(status) ==> (status.code is FailedPrecondition <==> onion@
            == node@.onion_address || *key is Some),
{
}

} // verus!

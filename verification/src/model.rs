//! Records that describe peers, revisions and points in time.

use crate::text::bytes_copy;
use vstd::prelude::*;

verus! {

/// NANOS_PER_SECOND is one more than the largest sub-second nanosecond count.
pub const NANOS_PER_SECOND: u32 = 1_000_000_000;

/// Timestamp is one point in Unix time.
#[derive(Clone, Copy, Debug, PartialEq, Eq, Structural)]
pub struct Timestamp {
    /// secs counts whole seconds since the Unix epoch.
    pub secs: u64,
    /// nanos counts the nanoseconds past `secs`.
    pub nanos: u32,
}

/// Duration is one span of time.
#[derive(Clone, Copy, Debug, PartialEq, Eq, Structural)]
pub struct Duration {
    /// secs counts whole seconds.
    pub secs: u64,
    /// nanos counts the nanoseconds past `secs`.
    pub nanos: u32,
}

/// ProtoTimestamp is one timestamp as RPC messages and records carry it.
#[derive(Clone, Copy, Debug, PartialEq, Eq, Structural)]
pub struct ProtoTimestamp {
    /// seconds counts whole seconds since the Unix epoch.
    pub seconds: i64,
    /// nanos counts the nanoseconds past `seconds`.
    pub nanos: i32,
}

/// PeerOrigin tells how a tracked peer became known.
#[derive(Clone, Copy, Debug, PartialEq, Eq, Structural)]
pub enum PeerOrigin {
    /// Unknown stands for any origin code that is not listed here.
    Unknown,
    /// Discovered peers were learned from other peers or contacted us.
    Discovered,
    /// BuiltIn peers come with the binary.
    BuiltIn,
    /// Manual peers were added by the operator.
    Manual,
}

/// FirstContactDirection tells who contacted whom first.
#[derive(Clone, Copy, Debug, PartialEq, Eq, Structural)]
pub enum FirstContactDirection {
    /// Unknown means no contact has been recorded.
    Unknown,
    /// Outbound means that we contacted the peer first.
    Outbound,
    /// Inbound means that the peer contacted us first.
    Inbound,
}

/// PeerReachability is the outcome of the last contact with a peer.
#[derive(Clone, Copy, Debug, PartialEq, Eq, Structural)]
pub enum PeerReachability {
    /// Unknown means that no contact has been recorded.
    Unknown,
    /// Online means that the last contact succeeded.
    Online,
    /// Offline means that the last contact failed.
    Offline,
}

/// ContentInfo names one encrypted revision and its length.
#[derive(Debug, PartialEq, Eq)]
pub struct ContentInfo {
    /// content_id identifies the revision.
    pub content_id: Vec<u8>,
    /// content_length is the encrypted blob length in bytes.
    pub content_length: i64,
}

/// ContentInfoView is the mathematical content of a `ContentInfo`.
pub struct ContentInfoView {
    /// content_id identifies the revision.
    pub content_id: Seq<u8>,
    /// content_length is the encrypted blob length in bytes.
    pub content_length: i64,
}

impl View for ContentInfo {
    type V = ContentInfoView;

    open spec fn view(&self) -> ContentInfoView {
        ContentInfoView { content_id: self.content_id@, content_length: self.content_length }
    }
}

impl Clone for ContentInfo {
    fn clone(&self) -> (copy: Self)
        ensures
            copy@ == self@,
    {
        ContentInfo {
            content_id: bytes_copy(self.content_id.as_slice()),
            content_length: self.content_length,
        }
    }
}

/// The content of an optional revision.
pub open spec fn content_view(content: Option<ContentInfo>) -> Option<ContentInfoView> {
    match content {
        Some(info) => Some(info@),
        None => None,
    }
}

/// Copy an optional revision.
pub fn clone_content(content: &Option<ContentInfo>) -> (copy: Option<ContentInfo>)
    ensures
        content_view(copy) == content_view(*content),
{
    match content {
        Some(info) => Some(info.clone()),
        None => None,
    }
}

/// Peer is everything that is on record about one tracked peer.
#[derive(Debug, PartialEq, Eq)]
pub struct Peer {
    /// onion_pubkey is the peer's Ed25519 public key.
    pub onion_pubkey: Vec<u8>,
    /// score_seconds is the peer's score from our perspective.
    pub score_seconds: i64,
    /// score_measured_at is when `score_seconds` was last updated.
    pub score_measured_at: i64,
    /// latest_known_content is the peer's newest revision we know exists.
    pub latest_known_content: Option<ContentInfo>,
    /// latest_cached_content is the peer's newest revision we hold.
    pub latest_cached_content: Option<ContentInfo>,
    /// origin tells how the peer became known.
    pub origin: PeerOrigin,
    /// first_contact_direction tells who contacted whom first.
    pub first_contact_direction: FirstContactDirection,
    /// reachability is the outcome of the last contact.
    pub reachability: PeerReachability,
    /// last_live_at is when the peer last answered.
    pub last_live_at: i64,
    /// pinned_by_us reports whether the local operator pinned the peer.
    pub pinned_by_us: bool,
    /// pins_us reports whether the peer last told us that it pins us.
    pub pins_us: bool,
    /// our_content_last_verified_content_id is our revision that was last verified there.
    pub our_content_last_verified_content_id: Vec<u8>,
    /// our_content_last_verified_at is when that verification passed.
    pub our_content_last_verified_at: i64,
    /// first_seen_at is when the peer was first admitted.
    pub first_seen_at: Option<ProtoTimestamp>,
    /// successful_calls counts successful outbound interactions.
    pub successful_calls: i64,
    /// failed_calls counts failed outbound interactions.
    pub failed_calls: i64,
    /// requester_latest_stored_content is the newest of our revisions that the peer says it can return.
    pub requester_latest_stored_content: Option<ContentInfo>,
    /// requester_latest_known_content is the newest of our revisions that the peer says it knows.
    pub requester_latest_known_content: Option<ContentInfo>,
    /// requester_last_advertised_content is our revision that we last advertised to the peer.
    pub requester_last_advertised_content: Option<ContentInfo>,
    /// requester_last_advertised_at is when we advertised it.
    pub requester_last_advertised_at: Option<ProtoTimestamp>,
    /// requester_last_downloaded_advertised_content is our revision that the peer last fetched after an advertisement.
    pub requester_last_downloaded_advertised_content: Option<ContentInfo>,
    /// requester_last_downloaded_advertised_at is when it fetched it.
    pub requester_last_downloaded_advertised_at: Option<ProtoTimestamp>,
    /// requester_last_download_latency_seconds is how long the fetch came after the advertisement.
    pub requester_last_download_latency_seconds: i64,
}

/// PeerView is the mathematical content of a `Peer`.
pub struct PeerView {
    /// onion_pubkey is the peer's Ed25519 public key.
    pub onion_pubkey: Seq<u8>,
    /// score_seconds is the peer's score from our perspective.
    pub score_seconds: i64,
    /// score_measured_at is when `score_seconds` was last updated.
    pub score_measured_at: i64,
    /// latest_known_content is the peer's newest revision we know exists.
    pub latest_known_content: Option<ContentInfoView>,
    /// latest_cached_content is the peer's newest revision we hold.
    pub latest_cached_content: Option<ContentInfoView>,
    /// origin tells how the peer became known.
    pub origin: PeerOrigin,
    /// first_contact_direction tells who contacted whom first.
    pub first_contact_direction: FirstContactDirection,
    /// reachability is the outcome of the last contact.
    pub reachability: PeerReachability,
    /// last_live_at is when the peer last answered.
    pub last_live_at: i64,
    /// pinned_by_us reports whether the local operator pinned the peer.
    pub pinned_by_us: bool,
    /// pins_us reports whether the peer last told us that it pins us.
    pub pins_us: bool,
    /// our_content_last_verified_content_id is our revision that was last verified there.
    pub our_content_last_verified_content_id: Seq<u8>,
    /// our_content_last_verified_at is when that verification passed.
    pub our_content_last_verified_at: i64,
    /// first_seen_at is when the peer was first admitted.
    pub first_seen_at: Option<ProtoTimestamp>,
    /// successful_calls counts successful outbound interactions.
    pub successful_calls: i64,
    /// failed_calls counts failed outbound interactions.
    pub failed_calls: i64,
    /// requester_latest_stored_content is the newest of our revisions that the peer says it can return.
    pub requester_latest_stored_content: Option<ContentInfoView>,
    /// requester_latest_known_content is the newest of our revisions that the peer says it knows.
    pub requester_latest_known_content: Option<ContentInfoView>,
    /// requester_last_advertised_content is our revision that we last advertised to the peer.
    pub requester_last_advertised_content: Option<ContentInfoView>,
    /// requester_last_advertised_at is when we advertised it.
    pub requester_last_advertised_at: Option<ProtoTimestamp>,
    /// requester_last_downloaded_advertised_content is our revision that the peer last fetched after an advertisement.
    pub requester_last_downloaded_advertised_content: Option<ContentInfoView>,
    /// requester_last_downloaded_advertised_at is when it fetched it.
    pub requester_last_downloaded_advertised_at: Option<ProtoTimestamp>,
    /// requester_last_download_latency_seconds is how long the fetch came after the advertisement.
    pub requester_last_download_latency_seconds: i64,
}

impl View for Peer {
    type V = PeerView;

    open spec fn view(&self) -> PeerView {
        PeerView {
            onion_pubkey: self.onion_pubkey@,
            score_seconds: self.score_seconds,
            score_measured_at: self.score_measured_at,
            latest_known_content: content_view(self.latest_known_content),
            latest_cached_content: content_view(self.latest_cached_content),
            origin: self.origin,
            first_contact_direction: self.first_contact_direction,
            reachability: self.reachability,
            last_live_at: self.last_live_at,
            pinned_by_us: self.pinned_by_us,
            pins_us: self.pins_us,
            our_content_last_verified_content_id: self.our_content_last_verified_content_id@,
            our_content_last_verified_at: self.our_content_last_verified_at,
            first_seen_at: self.first_seen_at,
            successful_calls: self.successful_calls,
            failed_calls: self.failed_calls,
            requester_latest_stored_content: content_view(self.requester_latest_stored_content),
            requester_latest_known_content: content_view(self.requester_latest_known_content),
            requester_last_advertised_content: content_view(self.requester_last_advertised_content),
            requester_last_advertised_at: self.requester_last_advertised_at,
            requester_last_downloaded_advertised_content: content_view(
                self.requester_last_downloaded_advertised_content,
            ),
            requester_last_downloaded_advertised_at: self.requester_last_downloaded_advertised_at,
            requester_last_download_latency_seconds: self.requester_last_download_latency_seconds,
        }
    }
}

impl Clone for Peer {
    fn clone(&self) -> (copy: Self)
        ensures
            copy@ == self@,
    {
        Peer {
            onion_pubkey: bytes_copy(self.onion_pubkey.as_slice()),
            score_seconds: self.score_seconds,
            score_measured_at: self.score_measured_at,
            latest_known_content: clone_content(&self.latest_known_content),
            latest_cached_content: clone_content(&self.latest_cached_content),
            origin: self.origin,
            first_contact_direction: self.first_contact_direction,
            reachability: self.reachability,
            last_live_at: self.last_live_at,
            pinned_by_us: self.pinned_by_us,
            pins_us: self.pins_us,
            our_content_last_verified_content_id: bytes_copy(
                self.our_content_last_verified_content_id.as_slice(),
            ),
            our_content_last_verified_at: self.our_content_last_verified_at,
            first_seen_at: self.first_seen_at,
            successful_calls: self.successful_calls,
            failed_calls: self.failed_calls,
            requester_latest_stored_content: clone_content(&self.requester_latest_stored_content),
            requester_latest_known_content: clone_content(&self.requester_latest_known_content),
            requester_last_advertised_content: clone_content(
                &self.requester_last_advertised_content,
            ),
            requester_last_advertised_at: self.requester_last_advertised_at,
            requester_last_downloaded_advertised_content: clone_content(
                &self.requester_last_downloaded_advertised_content,
            ),
            requester_last_downloaded_advertised_at: self.requester_last_downloaded_advertised_at,
            requester_last_download_latency_seconds: self.requester_last_download_latency_seconds,
        }
    }
}

/// The contents of a list of peers.
pub open spec fn peer_views(peers: Seq<Peer>) -> Seq<PeerView> {
    peers.map_values(|peer: Peer| peer@)
}

} // verus!

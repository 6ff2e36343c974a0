//! Questions about the peers on record.

use crate::accounting::PeerStorageProtectionClass;
use crate::arith::{clamp_i64, i64_from_usize};
use crate::model::{
    clone_content, content_view, peer_views, ContentInfo, ContentInfoView, Peer, PeerOrigin,
    PeerView,
};
use crate::status::{fails_with, map_storage_error, storage_status, Status, StorageError};
use crate::text::{bytes_copy, bytes_eq};
use vstd::prelude::*;

verus! {

/// The first peer with public key `key`.
pub open spec fn find_peer(peers: Seq<PeerView>, key: Seq<u8>) -> Option<PeerView>
    decreases peers.len(),
{
    if peers.len() == 0 {
        None
    } else if peers[0].onion_pubkey == key {
        Some(peers[0])
    } else {
        find_peer(peers.drop_first(), key)
    }
}

/// Find the first peer with public key `key`.
pub fn peer_with_key<'a>(peers: &'a [Peer], key: &[u8]) -> (found: Option<&'a Peer>)
    ensures
        match found {
            Some(peer) => find_peer(peer_views(peers@), key@) == Some(peer@),
            None => find_peer(peer_views(peers@), key@) is None,
        },
{
    let ghost views = peer_views(peers@);
    let mut i: usize = 0;
    assert(views.skip(0) =~= views);
    while i < peers.len()
        invariant
            i <= peers.len(),
            views == peer_views(peers@),
            find_peer(views.skip(i as int), key@) == find_peer(views, key@),
        decreases peers.len() - i,
    {
        assert(views.skip(i as int)[0] == peers@[i as int]@);
        assert(views.skip(i as int).drop_first() =~= views.skip(i + 1));
        if bytes_eq(peers[i].onion_pubkey.as_slice(), key) {
            return Some(&peers[i]);
        }
        i += 1;
    }
    None
}

/// Report whether one peer is already tracked in persisted metadata.
pub fn is_tracked_peer(peers: &[Peer], key: &[u8]) -> (found: bool)
    ensures
        found == (find_peer(peer_views(peers@), key@) is Some),
{
    peer_with_key(peers, key).is_some()
}

/// Whether the operator pins the peer with `key`.
pub open spec fn pinned(peers: Seq<PeerView>, key: Seq<u8>) -> bool {
    find_peer(peers, key) matches Some(peer) && peer.pinned_by_us
}

/// Return whether the local operator currently pins one tracked peer.
pub fn is_peer_pinned_by_us(peers: &[Peer], key: &[u8]) -> (pinned_by_us: bool)
    ensures
        pinned_by_us == pinned(peer_views(peers@), key@),
{
    match peer_with_key(peers, key) {
        Some(peer) => peer.pinned_by_us,
        None => false,
    }
}

/// The score of the peer with `key` and when it was measured.
pub open spec fn score_state(peers: Seq<PeerView>, key: Seq<u8>) -> (i64, i64) {
    match find_peer(peers, key) {
        Some(peer) => (peer.score_seconds, peer.score_measured_at),
        None => (0, 0),
    }
}

/// Return the persisted score state for a peer.
pub fn peer_score_state(peers: &[Peer], key: &[u8]) -> (state: (i64, i64))
    ensures
        state == score_state(peer_views(peers@), key@),
{
    match peer_with_key(peers, key) {
        Some(peer) => (peer.score_seconds, peer.score_measured_at),
        None => (0, 0),
    }
}

/// The newest revision of the peer with `key` that we know of.
pub open spec fn known_content(peers: Seq<PeerView>, key: Seq<u8>) -> Option<ContentInfoView> {
    match find_peer(peers, key) {
        Some(peer) => peer.latest_known_content,
        None => None,
    }
}

/// The newest revision of the peer with `key` that we hold.
pub open spec fn cached_content(peers: Seq<PeerView>, key: Seq<u8>) -> Option<ContentInfoView> {
    match find_peer(peers, key) {
        Some(peer) => peer.latest_cached_content,
        None => None,
    }
}

/// Return the newest known and newest cached summaries for one peer.
pub fn mirrored_peer_revision_state(peers: &[Peer], key: &[u8]) -> (state: (
    Option<ContentInfo>,
    Option<ContentInfo>,
))
    ensures
        content_view(state.0) == known_content(peer_views(peers@), key@),
        content_view(state.1) == cached_content(peer_views(peers@), key@),
{
    match peer_with_key(peers, key) {
        Some(peer) => (
            clone_content(&peer.latest_known_content),
            clone_content(&peer.latest_cached_content),
        ),
        None => (None, None),
    }
}

/// Build a responder-side view of the newest requester revision we know exists.
pub fn requester_latest_known_content(peers: &[Peer], key: &[u8]) -> (content: Option<ContentInfo>)
    ensures
        content_view(content) == known_content(peer_views(peers@), key@),
{
    match peer_with_key(peers, key) {
        Some(peer) => clone_content(&peer.latest_known_content),
        None => None,
    }
}

/// BlobRead is what reading one mirrored blob gave.
#[derive(Debug, PartialEq, Eq)]
pub struct BlobRead {
    /// content_id identifies the blob.
    pub content_id: Vec<u8>,
    /// outcome is the blob's length, or why it could not be read.
    pub outcome: Result<usize, StorageError>,
}

/// What reading the blob `id` gave. A blob that was not read does not exist.
pub open spec fn read_of(reads: Seq<BlobRead>, id: Seq<u8>) -> Result<usize, StorageError>
    decreases reads.len(),
{
    if reads.len() == 0 {
        Err(StorageError::FileNotFound)
    } else if reads[0].content_id@ == id {
        reads[0].outcome
    } else {
        read_of(reads.drop_first(), id)
    }
}

/// Find what reading the blob `id` gave.
pub fn find_read<'a>(reads: &'a [BlobRead], id: &[u8]) -> (found: Option<&'a BlobRead>)
    ensures
        match found {
            Some(read) => read.outcome == read_of(reads@, id@),
            None => read_of(reads@, id@) == Err::<usize, StorageError>(StorageError::FileNotFound),
        },
{
    let mut i: usize = 0;
    assert(reads@.skip(0) =~= reads@);
    while i < reads.len()
        invariant
            i <= reads.len(),
            read_of(reads@.skip(i as int), id@) == read_of(reads@, id@),
        decreases reads.len() - i,
    {
        assert(reads@.skip(i as int).drop_first() =~= reads@.skip(i + 1));
        if bytes_eq(reads[i].content_id.as_slice(), id) {
            return Some(&reads[i]);
        }
        i += 1;
    }
    None
}

/// Whether `outcome` is the view of a requester's revision that we can return:
/// the cached one with the length of its blob, where there is such a blob.
pub open spec fn requester_content_rule(
    cached: Option<ContentInfoView>,
    reads: Seq<BlobRead>,
    outcome: Result<Option<ContentInfo>, Status>,
) -> bool {
    match cached {
        None => outcome matches Ok(content) && content is None,
        Some(content) => match read_of(reads, content.content_id) {
            Ok(len) => outcome matches Ok(info) && content_view(info) == Some(
                ContentInfoView {
                    content_id: content.content_id,
                    content_length: clamp_i64(len as int) as i64,
                },
            ),
            Err(StorageError::FileNotFound) => outcome matches Ok(info) && info is None,
            Err(error) => fails_with(outcome, storage_status(error)),
        },
    }
}

/// Build a responder-side view of the caller's stored content, if any.
pub fn requester_content(peers: &[Peer], key: &[u8], reads: &[BlobRead]) -> (outcome: Result<
    Option<ContentInfo>,
    Status,
>)
    ensures
        requester_content_rule(cached_content(peer_views(peers@), key@), reads@, outcome),
{
    let peer = match peer_with_key(peers, key) {
        Some(peer) => peer,
        None => return Ok(None),
    };
    match &peer.latest_cached_content {
        None => Ok(None),
        Some(content) => match find_read(reads, content.content_id.as_slice()) {
            None => Ok(None),
            Some(read) => match &read.outcome {
                Ok(len) => Ok(
                    Some(
                        ContentInfo {
                            content_id: bytes_copy(content.content_id.as_slice()),
                            content_length: i64_from_usize(*len),
                        },
                    ),
                ),
                Err(StorageError::FileNotFound) => Ok(None),
                Err(error) => Err(map_storage_error(error.clone())),
            },
        },
    }
}

/// Whether `outcome` is the length of the cached blob, taking a missing or
/// damaged one as empty.
pub open spec fn mirrored_length_rule(
    cached: Option<ContentInfoView>,
    reads: Seq<BlobRead>,
    outcome: Result<i64, Status>,
) -> bool {
    match cached {
        None => outcome matches Ok(len) && len == 0,
        Some(content) => match read_of(reads, content.content_id) {
            Ok(n) => outcome matches Ok(len) && len == clamp_i64(n as int),
            Err(StorageError::FileNotFound) | Err(StorageError::Message(_)) => outcome matches Ok(
                len,
            ) && len == 0,
            Err(error) => fails_with(outcome, storage_status(error)),
        },
    }
}

/// Return the stored blob length for a peer's mirrored content, if any.
pub fn mirrored_peer_content_length(peers: &[Peer], key: &[u8], reads: &[BlobRead]) -> (outcome:
    Result<i64, Status>)
    ensures
        mirrored_length_rule(cached_content(peer_views(peers@), key@), reads@, outcome),
{
    let peer = match peer_with_key(peers, key) {
        Some(peer) => peer,
        None => return Ok(0),
    };
    match &peer.latest_cached_content {
        None => Ok(0),
        Some(content) => match find_read(reads, content.content_id.as_slice()) {
            None => Ok(0),
            Some(read) => match &read.outcome {
                Ok(len) => Ok(i64_from_usize(*len)),
                Err(StorageError::FileNotFound) => Ok(0),
                Err(StorageError::Message(_)) => Ok(0),
                Err(error) => Err(map_storage_error(error.clone())),
            },
        },
    }
}

/// The origin of a peer, where being added by hand outranks being built in.
pub open spec fn origin_of(built_in: bool, manual: bool) -> PeerOrigin {
    if manual {
        PeerOrigin::Manual
    } else if built_in {
        PeerOrigin::BuiltIn
    } else {
        PeerOrigin::Discovered
    }
}

/// Return the origin to record for a peer.
pub fn peer_origin_code(built_in: bool, manual: bool) -> (origin: PeerOrigin)
    ensures
        origin == origin_of(built_in, manual),
{
    if manual {
        PeerOrigin::Manual
    } else if built_in {
        PeerOrigin::BuiltIn
    } else {
        PeerOrigin::Discovered
    }
}

/// Whether the record shows any storage relationship.
pub open spec fn has_storage(peer: PeerView) -> bool {
    ||| peer.score_measured_at > 0
    ||| peer.score_seconds != 0
    ||| peer.latest_known_content is Some
    ||| peer.latest_cached_content is Some
    ||| peer.requester_latest_known_content is Some
    ||| peer.requester_latest_stored_content is Some
}

/// Return whether persisted metadata indicates any storage relationship.
pub fn peer_has_storage(peer: &Peer) -> (found: bool)
    ensures
        found == has_storage(peer@),
{
    peer.score_measured_at > 0 || peer.score_seconds != 0 || peer.latest_known_content.is_some()
        || peer.latest_cached_content.is_some() || peer.requester_latest_known_content.is_some()
        || peer.requester_latest_stored_content.is_some()
}

/// How the cached bytes of a peer are protected.
pub open spec fn protection_of(peer: PeerView) -> PeerStorageProtectionClass {
    if peer.latest_cached_content is None {
        PeerStorageProtectionClass::Nothing
    } else if peer.pinned_by_us {
        PeerStorageProtectionClass::Pinned
    } else if peer.score_seconds > 0 {
        PeerStorageProtectionClass::Protected
    } else {
        PeerStorageProtectionClass::Disposable
    }
}

/// Classify the currently cached bytes for one tracked peer.
pub fn peer_storage_protection(peer: &Peer) -> (class: PeerStorageProtectionClass)
    ensures
        class == protection_of(peer@),
{
    if peer.latest_cached_content.is_none() {
        PeerStorageProtectionClass::Nothing
    } else if peer.pinned_by_us {
        PeerStorageProtectionClass::Pinned
    } else if peer.score_seconds > 0 {
        PeerStorageProtectionClass::Protected
    } else {
        PeerStorageProtectionClass::Disposable
    }
}

/// Whether a revision of the peer is known and none is held.
pub open spec fn tracked_only(peer: PeerView) -> bool {
    peer.latest_known_content is Some && peer.latest_cached_content is None
}

/// Report whether the peer is newest-known only with no cached bytes.
pub fn peer_is_tracked_only(peer: &Peer) -> (only: bool)
    ensures
        only == tracked_only(peer@),
{
    peer.latest_known_content.is_some() && peer.latest_cached_content.is_none()
}

/// Whether `peers[i]` is the first record with public key `key`.
pub open spec fn first_with_key(peers: Seq<Peer>, key: Seq<u8>, i: int) -> bool {
    &&& 0 <= i < peers.len()
    &&& peers[i].onion_pubkey@ == key
    &&& forall|j: int| 0 <= j < i ==> (#[trigger] peers[j]).onion_pubkey@ != key
}

/// A record is found exactly where there is one, and the first one counts.
pub proof fn lemma_find_first(peers: Seq<Peer>, key: Seq<u8>)
    ensures
        find_peer(peer_views(peers), key) is None <==> forall|i: int|
            0 <= i < peers.len() ==> (#[trigger] peers[i]).onion_pubkey@ != key,
        forall|i: int| #[trigger]
            first_with_key(peers, key, i) ==> find_peer(peer_views(peers), key) == Some(peers[i]@),
    decreases peers.len(),
{
    if peers.len() > 0 {
        let rest = peers.drop_first();
        lemma_find_first(rest, key);
        assert(peer_views(peers).drop_first() =~= peer_views(rest));
        assert(peer_views(peers)[0] == peers[0]@);
        assert forall|i: int| #[trigger] first_with_key(peers, key, i) implies find_peer(
            peer_views(peers),
            key,
        ) == Some(peers[i]@) by {
            if i > 0 {
                assert(peers[0].onion_pubkey@ != key);
                assert(rest[i - 1] == peers[i]);
                assert forall|j: int| 0 <= j < i - 1 implies (#[trigger] rest[j]).onion_pubkey@
                    != key by {
                    assert(rest[j] == peers[j + 1]);
                }
                assert(first_with_key(rest, key, i - 1));
            }
        }
        if forall|i: int| 0 <= i < peers.len() ==> (#[trigger] peers[i]).onion_pubkey@ != key {
            assert forall|i: int| 0 <= i < rest.len() implies (#[trigger] rest[i]).onion_pubkey@
                != key by {
                assert(rest[i] == peers[i + 1]);
            }
        }
        if find_peer(peer_views(peers), key) is None {
            assert forall|i: int| 0 <= i < peers.len() implies (#[trigger] peers[i]).onion_pubkey@
                != key by {
                if i > 0 {
                    assert(rest[i - 1] == peers[i]);
                }
            }
        }
    }
}

/// A peer is tracked exactly when some record has its key.
pub proof fn law_tracked_means_on_record(peers: &[Peer], key: &[u8], found: bool)
    requires
        call_ensures(is_tracked_peer, (peers, key), found),
    ensures
        found <==> exists|i: int|
            0 <= i < peers@.len() && (#[trigger] peers@[i]).onion_pubkey@ == key@,
{
    lemma_find_first(peers@, key@);
}

/// What is told of a peer is what its record says; of a peer without a record
/// it is told that it has no pin, no score and no revisions.
pub proof fn law_answers_come_from_the_record(
    peers: &[Peer],
    key: &[u8],
    pinned_by_us: bool,
    score: (i64, i64),
    revisions: (Option<ContentInfo>, Option<ContentInfo>),
    known: Option<ContentInfo>,
    i: int,
)
    requires
        call_ensures(is_peer_pinned_by_us, (peers, key), pinned_by_us),
        call_ensures(peer_score_state, (peers, key), score),
        call_ensures(mirrored_peer_revision_state, (peers, key), revisions),
        call_ensures(requester_latest_known_content, (peers, key), known),
    ensures
        first_with_key(peers@, key@, i) ==> {
            &&& pinned_by_us == peers@[i].pinned_by_us
            &&& score == (peers@[i].score_seconds, peers@[i].score_measured_at)
            &&& same_revision(revisions.0, peers@[i].latest_known_content)
            &&& same_revision(revisions.1, peers@[i].latest_cached_content)
            &&& same_revision(known, peers@[i].latest_known_content)
        },
        (forall|k: int| 0 <= k < peers@.len() ==> (#[trigger] peers@[k]).onion_pubkey@ != key@) ==> {
            &&& !pinned_by_us
            &&& score == (0i64, 0i64)
            &&& revisions.0 is None && revisions.1 is None && known is None
        },
{
    lemma_find_first(peers@, key@);
}

/// Whether two optional descriptors name the same revision with the same length.
pub open spec fn same_revision(a: Option<ContentInfo>, b: Option<ContentInfo>) -> bool {
    &&& a is Some <==> b is Some
    &&& a matches Some(x) ==> x.content_id@ == b->0.content_id@ && x.content_length
        == b->0.content_length
}

/// Whether `reads[i]` is the first read of the blob `id`.
pub open spec fn first_read(reads: Seq<BlobRead>, id: Seq<u8>, i: int) -> bool {
    &&& 0 <= i < reads.len()
    &&& reads[i].content_id@ == id
    &&& forall|j: int| 0 <= j < i ==> (#[trigger] reads[j]).content_id@ != id
}

/// The first read of a blob tells what reading it gave.
pub proof fn lemma_first_read(reads: Seq<BlobRead>, id: Seq<u8>)
    ensures
        forall|i: int| #[trigger] first_read(reads, id, i) ==> read_of(reads, id) == reads[i].outcome,
        (forall|i: int| 0 <= i < reads.len() ==> (#[trigger] reads[i]).content_id@ != id) ==> read_of(
            reads,
            id,
        ) == Err::<usize, StorageError>(StorageError::FileNotFound),
    decreases reads.len(),
{
    if reads.len() > 0 {
        let rest = reads.drop_first();
        lemma_first_read(rest, id);
        assert forall|i: int| #[trigger] first_read(reads, id, i) implies read_of(reads, id)
            == reads[i].outcome by {
            if i > 0 {
                assert(reads[0].content_id@ != id);
                assert(rest[i - 1] == reads[i]);
                assert forall|j: int| 0 <= j < i - 1 implies (#[trigger] rest[j]).content_id@
                    != id by {
                    assert(rest[j] == reads[j + 1]);
                }
                assert(first_read(rest, id, i - 1));
            }
        }
        if forall|i: int| 0 <= i < reads.len() ==> (#[trigger] reads[i]).content_id@ != id {
            assert forall|i: int| 0 <= i < rest.len() implies (#[trigger] rest[i]).content_id@
                != id by {
                assert(rest[i] == reads[i + 1]);
            }
        }
    }
}

/// A requester is told of the revision that we hold for it exactly when its
/// blob can be read, and then with the length of that blob.
pub proof fn law_requester_sees_only_readable_blobs(
    peers: &[Peer],
    key: &[u8],
    reads: &[BlobRead],
    outcome: Result<Option<ContentInfo>, Status>,
    i: int,
    k: int,
)
    requires
        call_ensures(requester_content, (peers, key, reads), outcome),
        first_with_key(peers@, key@, i),
        peers@[i].latest_cached_content is Some,
        first_read(reads@, peers@[i].latest_cached_content->0.content_id@, k),
    ensures
        match reads@[k].outcome {
            Ok(len) => outcome matches Ok(Some(info)) && info.content_id@
                == peers@[i].latest_cached_content->0.content_id@ && (len <= i64::MAX
                ==> info.content_length == len),
            Err(StorageError::FileNotFound) => outcome matches Ok(info) && info is None,
            Err(_) => outcome is Err,
        },
{
    lemma_find_first(peers@, key@);
    lemma_first_read(reads@, peers@[i].latest_cached_content->0.content_id@);
}

/// Nothing is told of a requester for whom no revision is held.
pub proof fn law_requester_without_cache_sees_nothing(
    peers: &[Peer],
    key: &[u8],
    reads: &[BlobRead],
    outcome: Result<Option<ContentInfo>, Status>,
    length: Result<i64, Status>,
)
    requires
        call_ensures(requester_content, (peers, key, reads), outcome),
        call_ensures(mirrored_peer_content_length, (peers, key, reads), length),
        forall|k: int|
            0 <= k < peers@.len() && (#[trigger] peers@[k]).onion_pubkey@ == key@
                ==> peers@[k].latest_cached_content is None,
    ensures
        outcome matches Ok(info) && info is None,
        length matches Ok(len) && len == 0,
{
    lemma_find_first(peers@, key@);
    if exists|i: int| first_with_key(peers@, key@, i) {
        let i = choose|i: int| first_with_key(peers@, key@, i);
    } else {
        lemma_some_first(peers@, key@);
    }
}

/// Where some record has a key, one is the first.
proof fn lemma_some_first(peers: Seq<Peer>, key: Seq<u8>)
    requires
        !exists|i: int| first_with_key(peers, key, i),
    ensures
        forall|i: int| 0 <= i < peers.len() ==> (#[trigger] peers[i]).onion_pubkey@ != key,
{
    assert forall|i: int| 0 <= i < peers.len() implies (#[trigger] peers[i]).onion_pubkey@ != key by {
        lemma_none_up_to(peers, key, i + 1);
    }
}

/// Where no record is the first with a key, none up to `n` has it.
proof fn lemma_none_up_to(peers: Seq<Peer>, key: Seq<u8>, n: int)
    requires
        0 <= n <= peers.len(),
        !exists|i: int| first_with_key(peers, key, i),
    ensures
        forall|i: int| 0 <= i < n ==> (#[trigger] peers[i]).onion_pubkey@ != key,
    decreases n,
{
    if n > 0 {
        lemma_none_up_to(peers, key, n - 1);
        assert(!first_with_key(peers, key, n - 1));
    }
}

/// The bytes held for a peer are protected by a pin before a score, a score
/// counts only above zero, and a peer without bytes has no protection. A peer is
/// tracked only if a revision of it is known and none held. Any trace of storage
/// in the record makes a storage peer.
pub proof fn law_protection_goes_by_pin_then_score(
    peer: &Peer,
    class: PeerStorageProtectionClass,
    only: bool,
    storage: bool,
)
    requires
        call_ensures(peer_storage_protection, (peer,), class),
        call_ensures(peer_is_tracked_only, (peer,), only),
        call_ensures(peer_has_storage, (peer,), storage),
    ensures
        class is Nothing <==> peer.latest_cached_content is None,
        class is Pinned <==> peer.latest_cached_content is Some && peer.pinned_by_us,
        class is Protected <==> peer.latest_cached_content is Some && !peer.pinned_by_us
            && peer.score_seconds > 0,
        class is Disposable <==> peer.latest_cached_content is Some && !peer.pinned_by_us
            && peer.score_seconds <= 0,
        only <==> peer.latest_known_content is Some && peer.latest_cached_content is None,
        !storage <==> peer.score_measured_at <= 0 && peer.score_seconds == 0
            && peer.latest_known_content is None && peer.latest_cached_content is None
            && peer.requester_latest_known_content is None
            && peer.requester_latest_stored_content is None,
{
}

/// Being added by hand outranks being built in, and any other peer is discovered.
pub proof fn law_origin_of_a_peer(built_in: bool, manual: bool, origin: PeerOrigin)
    requires
        call_ensures(peer_origin_code, (built_in, manual), origin),
    ensures
        origin is Manual <==> manual,
        origin is BuiltIn <==> built_in && !manual,
        origin is Discovered <==> !built_in && !manual,
{
}

/// The bytes held for a peer are as long as they were read; a blob that is not
/// there, and one whose failure is known by its words only, counts as nothing,
/// and any other failure is told.
pub proof fn law_mirrored_length_is_what_was_read(
    peers: &[Peer],
    key: &[u8],
    reads: &[BlobRead],
    length: Result<i64, Status>,
    i: int,
    k: int,
)
    requires
        call_ensures(mirrored_peer_content_length, (peers, key, reads), length),
        first_with_key(peers@, key@, i),
        peers@[i].latest_cached_content is Some,
    ensures
        first_read(reads@, peers@[i].latest_cached_content->0.content_id@, k) ==> match reads@[k].outcome {
            Ok(n) => length matches Ok(len) && (n <= i64::MAX ==> len == n) && (n > i64::MAX ==> len
                == i64::MAX),
            Err(StorageError::FileNotFound) => length matches Ok(len) && len == 0,
            Err(StorageError::Message(_)) => length matches Ok(len) && len == 0,
            Err(_) => length is Err,
        },
        (forall|j: int|
            0 <= j < reads@.len() ==> (#[trigger] reads@[j]).content_id@
                != peers@[i].latest_cached_content->0.content_id@) ==> (length matches Ok(len) && len
            == 0),
{
    lemma_find_first(peers@, key@);
    lemma_first_read(reads@, peers@[i].latest_cached_content->0.content_id@);
}

} // verus!

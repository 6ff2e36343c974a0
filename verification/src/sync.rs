//! Mirroring the latest revision that a peer advertises.

use crate::accounting::{
    is_reserved, storage_class, total_length, usage_views, MirroredBlobUsage, StorageClass,
    UsageView,
};
use crate::content::{content_defect, validate_peer_content_info, Limits};
use crate::mirror::{
    first_read_failure, is_usage_of, lemma_evictions_just_make_room,
    lemma_protected_blobs_stand_in_the_way, lemma_usage_distinct, lemma_usage_is_unique,
    mirrored_blob_usage, plan_mirrored_blob_storage, stays_after, stays_protected, storage_rule,
    StorageAdmission,
};
use crate::model::{content_view, peer_views, ContentInfo, ContentInfoView, Peer, PeerView};
use crate::records::{cached_content, find_peer, peer_with_key, BlobRead};
use crate::status::{
    fails_with, map_storage_error, plain_status, storage_status, Code, Status, StatusView,
    StorageError,
};
use crate::text::{bytes_copy, bytes_eq, join_text};
use vstd::prelude::*;

verus! {

/// MirroredBlobState reports whether a cached peer blob is present or needs refresh.
#[derive(Clone, Copy, Debug, PartialEq, Eq, Structural)]
pub enum MirroredBlobState {
    /// Present means the cached mirrored blob is valid and usable.
    Present,
    /// Missing means no cached mirrored blob exists yet.
    Missing,
    /// Corrupt means a mirrored blob exists but failed local validation.
    Corrupt,
}

/// Whether `outcome` is the state of a blob that looking it up told.
pub open spec fn blob_state_rule(
    lookup: Result<bool, StorageError>,
    outcome: Result<MirroredBlobState, Status>,
) -> bool {
    match lookup {
        Ok(true) => outcome matches Ok(MirroredBlobState::Present),
        Ok(false) => outcome matches Ok(MirroredBlobState::Missing),
        Err(StorageError::RecoveryRequired(_)) => outcome matches Ok(MirroredBlobState::Corrupt),
        Err(error) => fails_with(outcome, storage_status(error)),
    }
}

/// Report whether a mirrored peer blob is present, missing, or corrupt. A
/// corrupt blob is to be removed.
pub fn mirrored_blob_state(lookup: &Result<bool, StorageError>) -> (outcome: Result<
    MirroredBlobState,
    Status,
>)
    ensures
        blob_state_rule(*lookup, outcome),
{
    match lookup {
        Ok(true) => Ok(MirroredBlobState::Present),
        Ok(false) => Ok(MirroredBlobState::Missing),
        Err(StorageError::RecoveryRequired(_)) => Ok(MirroredBlobState::Corrupt),
        Err(error) => Err(map_storage_error(error.clone())),
    }
}

/// SyncPeerContentResult reports how one responder handled requester content.
#[derive(Clone, Copy, Debug, PartialEq, Eq, Structural)]
pub enum SyncPeerContentResult {
    /// MirroredBytesCached means the sidecar and requester bytes are cached.
    MirroredBytesCached,
    /// SidecarOnly means only sidecar metadata was accepted locally.
    SidecarOnly,
}

/// SyncUpdate is what one advertised revision changes.
#[derive(Debug)]
pub struct SyncUpdate {
    /// evict_content_ids lists the blobs to remove first.
    pub evict_content_ids: Vec<Vec<u8>>,
    /// download reports whether the revision's bytes are to be fetched and kept.
    pub download: bool,
    /// known is the peer's newest known revision from now on.
    pub known: ContentInfo,
    /// cached is the peer's newest held revision from now on, if any.
    pub cached: Option<ContentInfo>,
    /// released is a revision that the peer no longer refers to, if any.
    pub released: Option<Vec<u8>>,
    /// result is what the peer is told.
    pub result: SyncPeerContentResult,
}

/// SyncPlan is how one advertisement is handled.
#[derive(Debug)]
pub enum SyncPlan {
    /// Unchanged keeps everything as it is.
    Unchanged(SyncPeerContentResult),
    /// Update applies the listed changes in order.
    Update(SyncUpdate),
}

/// Why an advertisement is refused before anything is looked up.
pub open spec fn sync_refusal(
    peers: Seq<PeerView>,
    key: Seq<u8>,
    peer_onion: Seq<char>,
    content: Option<ContentInfoView>,
    limits: Limits,
) -> Option<StatusView> {
    if find_peer(peers, key) is None {
        Some(
            plain_status(
                Code::ResourceExhausted,
                "peer capacity reached; refusing to mirror "@ + peer_onion,
            ),
        )
    } else {
        match content {
            Some(info) => content_defect(info, limits),
            None => None,
        }
    }
}

/// Refuse an advertisement of an untracked peer or of a malformed revision.
pub fn check_peer_content_sync(
    peer_onion: &str,
    peers: &[Peer],
    peer_key: &[u8],
    content_info: &Option<ContentInfo>,
    limits: &Limits,
) -> (outcome: Result<(), Status>)
    ensures
        match sync_refusal(
            peer_views(peers@),
            peer_key@,
            peer_onion@,
            content_view(*content_info),
            *limits,
        ) {
            Some(failure) => fails_with(outcome, failure),
            None => outcome is Ok,
        },
{
    if peer_with_key(peers, peer_key).is_none() {
        return Err(
            Status::new(
                Code::ResourceExhausted,
                join_text("peer capacity reached; refusing to mirror ", peer_onion),
            ),
        );
    }
    match content_info {
        Some(info) => validate_peer_content_info(info, limits),
        None => Ok(()),
    }
}

/// The content id of an optional revision.
pub open spec fn id_of(content: Option<ContentInfoView>) -> Option<Seq<u8>> {
    match content {
        Some(info) => Some(info.content_id),
        None => None,
    }
}

/// Whether `released` names the previous revision exactly when it is no longer held.
pub open spec fn releases(
    previous: Option<ContentInfoView>,
    cached: Option<ContentInfoView>,
    released: Option<Vec<u8>>,
) -> bool {
    match released {
        Some(id) => id_of(previous) == Some(id@) && id_of(cached) != Some(id@),
        None => previous is None || id_of(cached) == id_of(previous),
    }
}

/// Whether `update` caches the advertised revision, evicting `evicted` first.
pub open spec fn caches_advertised(
    update: SyncUpdate,
    content: ContentInfoView,
    previous: Option<ContentInfoView>,
    evicted: Seq<Vec<u8>>,
    download: bool,
) -> bool {
    &&& update.evict_content_ids@ == evicted
    &&& update.download == download
    &&& update.known@ == content
    &&& content_view(update.cached) == Some(content)
    &&& releases(previous, Some(content), update.released)
    &&& update.result == SyncPeerContentResult::MirroredBytesCached
}

/// What stays held of a peer whose newest revision does not fit: the previous
/// revision, where it is another one and the peer's storage is reserved.
pub open spec fn kept_previous(
    content: ContentInfoView,
    previous: Option<ContentInfoView>,
    reserved: bool,
) -> Option<ContentInfoView> {
    match previous {
        Some(info) => if info.content_id != content.content_id && reserved {
            Some(info)
        } else {
            None
        },
        None => None,
    }
}

/// Whether `update` only takes note of the advertised revision.
pub open spec fn notes_advertised(
    update: SyncUpdate,
    content: ContentInfoView,
    previous: Option<ContentInfoView>,
    reserved: bool,
) -> bool {
    &&& update.evict_content_ids@.len() == 0
    &&& !update.download
    &&& update.known@ == content
    &&& content_view(update.cached) == kept_previous(content, previous, reserved)
    &&& releases(previous, kept_previous(content, previous, reserved), update.released)
    &&& update.result == SyncPeerContentResult::SidecarOnly
}

/// Whether `update` follows from the storage `admission`.
pub open spec fn follows_admission(
    update: SyncUpdate,
    content: ContentInfoView,
    previous: Option<ContentInfoView>,
    reserved: bool,
    admission: StorageAdmission,
) -> bool {
    match admission {
        StorageAdmission::Store { evict_content_ids } => caches_advertised(
            update,
            content,
            previous,
            evict_content_ids@,
            true,
        ),
        StorageAdmission::TrackOnly => notes_advertised(update, content, previous, reserved),
    }
}

/// Whether the storage of the peer with `key` is reserved.
pub open spec fn peer_reserved(peers: Seq<PeerView>, key: Seq<u8>) -> bool {
    find_peer(peers, key) matches Some(peer) && is_reserved(
        peer.pinned_by_us,
        peer.score_seconds as int,
    )
}

/// Whether `outcome` is how a missing or damaged blob of the advertised
/// revision is refreshed.
pub open spec fn refresh_rule(
    peers: Seq<PeerView>,
    key: Seq<u8>,
    content: ContentInfoView,
    reads: Seq<BlobRead>,
    budget: int,
    limits: Limits,
    outcome: Result<SyncPlan, Status>,
) -> bool {
    match first_read_failure(peers, reads) {
        Some(failure) => fails_with(outcome, failure),
        None => outcome matches Ok(SyncPlan::Update(update)) && exists|
            usage: Seq<UsageView>,
            admission: StorageAdmission,
        | #[trigger]
            is_usage_of(usage, peers, reads) && #[trigger] storage_rule(
                usage,
                key,
                peer_reserved(peers, key),
                id_of(cached_content(peers, key)),
                content.content_id,
                content.content_length as int,
                budget,
                limits,
                Ok(admission),
            ) && follows_admission(
                update,
                content,
                cached_content(peers, key),
                peer_reserved(peers, key),
                admission,
            ),
    }
}

/// Whether `outcome` is how the advertisement of `content` is handled.
pub open spec fn sync_rule(
    peers: Seq<PeerView>,
    key: Seq<u8>,
    peer_onion: Seq<char>,
    content: Option<ContentInfoView>,
    lookup: Result<bool, StorageError>,
    reads: Seq<BlobRead>,
    budget: int,
    limits: Limits,
    outcome: Result<SyncPlan, Status>,
) -> bool {
    let previous = cached_content(peers, key);
    match sync_refusal(peers, key, peer_onion, content, limits) {
        Some(failure) => fails_with(outcome, failure),
        None => match content {
            None => outcome matches Ok(SyncPlan::Unchanged(result)) && result == if previous is Some {
                SyncPeerContentResult::MirroredBytesCached
            } else {
                SyncPeerContentResult::SidecarOnly
            },
            Some(info) => match lookup {
                Ok(true) => outcome matches Ok(SyncPlan::Update(update)) && caches_advertised(
                    update,
                    info,
                    previous,
                    Seq::<Vec<u8>>::empty(),
                    false,
                ),
                Ok(false) | Err(StorageError::RecoveryRequired(_)) => refresh_rule(
                    peers,
                    key,
                    info,
                    reads,
                    budget,
                    limits,
                    outcome,
                ),
                Err(error) => fails_with(outcome, storage_status(error)),
            },
        },
    }
}

/// Name the previous revision where it is no longer held.
fn released_content(previous: &Option<ContentInfo>, cached: &Option<ContentInfo>) -> (released:
    Option<Vec<u8>>)
    ensures
        releases(content_view(*previous), content_view(*cached), released),
{
    match previous {
        None => None,
        Some(info) => {
            let still_cached = match cached {
                Some(content) => bytes_eq(
                    content.content_id.as_slice(),
                    info.content_id.as_slice(),
                ),
                None => false,
            };
            if still_cached {
                None
            } else {
                Some(bytes_copy(info.content_id.as_slice()))
            }
        },
    }
}

/// Decide how the latest advertised content of a peer is mirrored or noted.
///
/// `lookup` is what looking up the advertised blob gave, and `reads` what
/// reading the cached blobs of `peers` gave.
pub fn sync_peer_content_info(
    peer_onion: &str,
    peers: &[Peer],
    peer_key: &[u8],
    content_info: &Option<ContentInfo>,
    lookup: &Result<bool, StorageError>,
    reads: &[BlobRead],
    budget: i64,
    limits: &Limits,
) -> (outcome: Result<SyncPlan, Status>)
    ensures
        sync_rule(
            peer_views(peers@),
            peer_key@,
            peer_onion@,
            content_view(*content_info),
            *lookup,
            reads@,
            budget as int,
            *limits,
            outcome,
        ),
{
    let ghost views = peer_views(peers@);
    match check_peer_content_sync(peer_onion, peers, peer_key, content_info, limits) {
        Err(status) => return Err(status),
        Ok(()) => {},
    }
    let peer = match peer_with_key(peers, peer_key) {
        Some(peer) => peer,
        None => {
            assert(false);
            return Err(Status::failed_precondition("peer is not tracked"));
        },
    };
    let previous = &peer.latest_cached_content;
    assert(content_view(*previous) == cached_content(views, peer_key@));
    let info = match content_info {
        Some(info) => info,
        None => return Ok(
            SyncPlan::Unchanged(
                if previous.is_some() {
                    SyncPeerContentResult::MirroredBytesCached
                } else {
                    SyncPeerContentResult::SidecarOnly
                },
            ),
        ),
    };
    let state = match mirrored_blob_state(lookup) {
        Ok(state) => state,
        Err(status) => return Err(status),
    };
    if state == MirroredBlobState::Present {
        let cached = Some(info.clone());
        let released = released_content(previous, &cached);
        let evict_content_ids: Vec<Vec<u8>> = Vec::new();
        assert(evict_content_ids@ =~= Seq::<Vec<u8>>::empty());
        return Ok(
            SyncPlan::Update(
                SyncUpdate {
                    evict_content_ids,
                    download: false,
                    known: info.clone(),
                    cached,
                    released,
                    result: SyncPeerContentResult::MirroredBytesCached,
                },
            ),
        );
    }
    let usage = match mirrored_blob_usage(peers, reads) {
        Ok(usage) => usage,
        Err(status) => return Err(status),
    };
    let previous_id: Option<&[u8]> = match previous {
        Some(content) => Some(content.content_id.as_slice()),
        None => None,
    };
    let admission = match plan_mirrored_blob_storage(
        usage.as_slice(),
        peer_key,
        peer.pinned_by_us,
        peer.score_seconds,
        previous_id,
        info.content_id.as_slice(),
        info.content_length,
        budget,
        limits,
    ) {
        Ok(admission) => admission,
        Err(status) => {
            assert(false);
            return Err(status);
        },
    };
    let ghost planned = admission;
    let reserved = storage_class(peer.pinned_by_us, peer.score_seconds) == StorageClass::Reserved;
    let update = match admission {
        StorageAdmission::Store { evict_content_ids } => {
            let cached = Some(info.clone());
            let released = released_content(previous, &cached);
            SyncUpdate {
                evict_content_ids,
                download: true,
                known: info.clone(),
                cached,
                released,
                result: SyncPeerContentResult::MirroredBytesCached,
            }
        },
        StorageAdmission::TrackOnly => {
            let cached = match previous {
                Some(content) => if reserved && !bytes_eq(
                    content.content_id.as_slice(),
                    info.content_id.as_slice(),
                ) {
                    Some(content.clone())
                } else {
                    None
                },
                None => None,
            };
            let released = released_content(previous, &cached);
            let evict_content_ids: Vec<Vec<u8>> = Vec::new();
            SyncUpdate {
                evict_content_ids,
                download: false,
                known: info.clone(),
                cached,
                released,
                result: SyncPeerContentResult::SidecarOnly,
            }
        },
    };
    proof {
        let usage_view = usage_views(usage@);
        assert(is_usage_of(usage_view, views, reads@));
        assert(storage_rule(
            usage_view,
            peer_key@,
            peer_reserved(views, peer_key@),
            id_of(cached_content(views, peer_key@)),
            info@.content_id,
            info@.content_length as int,
            budget as int,
            *limits,
            Ok(planned),
        ));
        assert(follows_admission(
            update,
            info@,
            cached_content(views, peer_key@),
            peer_reserved(views, peer_key@),
            planned,
        ));
    }
    Ok(SyncPlan::Update(update))
}

/// Whether the blob `id` is neither ours nor held for any peer.
pub open spec fn unreferenced(
    id: Seq<u8>,
    current: Option<Seq<u8>>,
    peers: Seq<PeerView>,
) -> bool {
    &&& current != Some(id)
    &&& forall|i: int| 0 <= i < peers.len() ==> !crate::mirror::caches(#[trigger] peers[i], id)
}

/// Report whether a foreign blob is to be removed because no peer metadata points to it.
pub fn remove_unused_foreign_blob(
    content_id: &[u8],
    current_content_id: &Option<Vec<u8>>,
    peers: &[Peer],
) -> (remove: bool)
    ensures
        remove == unreferenced(
            content_id@,
            match *current_content_id {
                Some(id) => Some(id@),
                None => None,
            },
            peer_views(peers@),
        ),
{
    let ghost views = peer_views(peers@);
    if let Some(current) = current_content_id {
        if bytes_eq(current.as_slice(), content_id) {
            return false;
        }
    }
    let mut i: usize = 0;
    while i < peers.len()
        invariant
            i <= peers.len(),
            views == peer_views(peers@),
            forall|k: int| 0 <= k < i ==> !crate::mirror::caches(#[trigger] views[k], content_id@),
        decreases peers.len() - i,
    {
        assert(views[i as int] == peers@[i as int]@);
        if let Some(content) = &peers[i].latest_cached_content {
            if bytes_eq(content.content_id.as_slice(), content_id) {
                return false;
            }
        }
        i += 1;
    }
    true
}

/// Take the removal of a blob that does not exist as done.
pub fn blob_removal_outcome(removal: Result<(), StorageError>) -> (outcome: Result<(), Status>)
    ensures
        match removal {
            Ok(()) | Err(StorageError::FileNotFound) => outcome is Ok,
            Err(error) => fails_with(outcome, storage_status(error)),
        },
{
    match removal {
        Ok(()) => Ok(()),
        Err(StorageError::FileNotFound) => Ok(()),
        Err(error) => Err(map_storage_error(error)),
    }
}

/// A peer is told that its bytes are cached exactly when the revision it
/// advertised is held from then on, and its advertised revision is known from
/// then on either way.
pub proof fn law_sync_result_tells_what_is_held(
    peers: Seq<PeerView>,
    key: Seq<u8>,
    peer_onion: Seq<char>,
    content: ContentInfoView,
    lookup: Result<bool, StorageError>,
    reads: Seq<BlobRead>,
    budget: int,
    limits: Limits,
    update: SyncUpdate,
)
    requires
        sync_rule(
            peers,
            key,
            peer_onion,
            Some(content),
            lookup,
            reads,
            budget,
            limits,
            Ok(SyncPlan::Update(update)),
        ),
    ensures
        update.known@ == content,
        update.result == SyncPeerContentResult::MirroredBytesCached <==> content_view(update.cached)
            == Some(content),
        update.download ==> update.result == SyncPeerContentResult::MirroredBytesCached,
{
}

/// The revision that an optional record names.
pub open spec fn names_revision(content: Option<ContentInfo>, id: Seq<u8>) -> bool {
    content matches Some(info) && info.content_id@ == id
}

/// Whether looking up a blob told whether it is there.
pub open spec fn lookup_answered(lookup: Result<bool, StorageError>) -> bool {
    lookup is Ok || lookup matches Err(StorageError::RecoveryRequired(_))
}

/// An advertisement is refused where the peer has no record, and taken note of
/// otherwise: the newest known revision becomes the advertised one. The peer is
/// told that its bytes are cached exactly when the advertised revision is held
/// from then on. Otherwise nothing is fetched or evicted, and the revision held
/// before stays only for a pinned or positively scored peer that has moved on
/// from it. Whatever stops being held is released.
pub proof fn law_sync_keeps_what_is_owed(
    onion: &str,
    peers: &[Peer],
    key: &[u8],
    content: &Option<ContentInfo>,
    lookup: &Result<bool, StorageError>,
    reads: &[BlobRead],
    budget: i64,
    limits: &Limits,
    outcome: Result<SyncPlan, Status>,
    p: int,
)
    requires
        call_ensures(
            sync_peer_content_info,
            (onion, peers, key, content, lookup, reads, budget, limits),
            outcome,
        ),
    ensures
        (forall|i: int| 0 <= i < peers@.len() ==> (#[trigger] peers@[i]).onion_pubkey@ != key@)
            ==> (outcome matches Err(status) && status.code == Code::ResourceExhausted),
        crate::records::first_with_key(peers@, key@, p) ==> {
            let previous = peers@[p].latest_cached_content;
            &&& *content is None ==> (outcome matches Ok(SyncPlan::Unchanged(result)) && (result
                == SyncPeerContentResult::MirroredBytesCached <==> previous is Some))
            &&& outcome matches Ok(SyncPlan::Unchanged(_)) ==> *content is None
            &&& outcome matches Ok(SyncPlan::Update(update)) ==> {
                &&& *content is Some
                &&& lookup_answered(*lookup)
                &&& update.known.content_id@ == content->0.content_id@
                &&& update.known.content_length == content->0.content_length
                &&& update.download ==> *lookup != Ok::<bool, StorageError>(true)
                &&& *lookup == Ok::<bool, StorageError>(true) ==> update.evict_content_ids@.len()
                    == 0 && update.result == SyncPeerContentResult::MirroredBytesCached
                &&& update.result == SyncPeerContentResult::MirroredBytesCached ==> {
                    &&& update.cached is Some
                    &&& update.cached->0@ == content->0@
                    &&& update.download <==> *lookup != Ok::<bool, StorageError>(true)
                }
                &&& update.result == SyncPeerContentResult::SidecarOnly ==> {
                    &&& !update.download
                    &&& update.evict_content_ids@.len() == 0
                    &&& update.cached is Some <==> previous is Some && previous->0.content_id@
                        != content->0.content_id@ && (peers@[p].pinned_by_us
                        || peers@[p].score_seconds > 0)
                    &&& update.cached is Some ==> update.cached->0@ == previous->0@
                }
                &&& update.released is Some <==> previous is Some && !names_revision(
                    update.cached,
                    previous->0.content_id@,
                )
                &&& update.released matches Some(id) ==> names_revision(previous, id@)
            }
        },
{
    crate::records::lemma_find_first(peers@, key@);
}

/// An advertised revision that is not there yet is fetched exactly when it is
/// named by a blob in use or a full-size blob fits into the budget beside the
/// blobs that pinned and positively scored peers still refer to. After the
/// evictions it fits beside everything that stays in use.
pub proof fn law_sync_stays_within_the_budget(
    onion: &str,
    peers: &[Peer],
    key: &[u8],
    content: &Option<ContentInfo>,
    lookup: &Result<bool, StorageError>,
    reads: &[BlobRead],
    budget: i64,
    limits: &Limits,
    update: SyncUpdate,
    usage: Vec<MirroredBlobUsage>,
    p: int,
)
    requires
        call_ensures(
            sync_peer_content_info,
            (onion, peers, key, content, lookup, reads, budget, limits),
            Ok(SyncPlan::Update(update)),
        ),
        call_ensures(mirrored_blob_usage, (peers, reads), Ok(usage)),
        crate::accounting::countable(usage@),
        budget < i64::MAX,
        limits.max_peer_content_bytes <= i64::MAX,
        *lookup != Ok::<bool, StorageError>(true),
        crate::records::first_with_key(peers@, key@, p),
    ensures
        ({
            let moved: Option<Seq<u8>> = match peers@[p].latest_cached_content {
                Some(previous) => Some(previous.content_id@),
                None => None,
            };
            let held = exists|i: int|
                0 <= i < usage@.len() && (#[trigger] usage@[i]).content_id@
                    == content->0.content_id@;
            &&& update.download <==> held || total_length(
                usage@.filter(stays_protected(key@, moved)),
            ) + limits.max_peer_content_bytes <= budget
            &&& held ==> update.evict_content_ids@.len() == 0
            &&& update.download && !held ==> total_length(
                usage@.filter(stays_after(key@, moved, update.evict_content_ids@)),
            ) + limits.max_peer_content_bytes <= budget
            &&& update.download && !held && update.evict_content_ids@.len() > 0 ==> total_length(
                usage@.filter(stays_after(key@, moved, update.evict_content_ids@.drop_last())),
            ) + limits.max_peer_content_bytes > budget
        }),
{
    let moved: Option<Seq<u8>> = match peers@[p].latest_cached_content {
        Some(previous) => Some(previous.content_id@),
        None => None,
    };
    let views = peer_views(peers@);
    let info = content->0@;
    crate::records::lemma_find_first(peers@, key@);
    assert(id_of(cached_content(views, key@)) == moved);
    let reserved = peer_reserved(views, key@);
    let (listed, admission) = choose|listed: Seq<UsageView>, admission: StorageAdmission| #[trigger]
        is_usage_of(listed, views, reads@) && #[trigger] storage_rule(
            listed,
            key@,
            reserved,
            id_of(cached_content(views, key@)),
            info.content_id,
            info.content_length as int,
            budget as int,
            *limits,
            Ok(admission),
        ) && follows_admission(update, info, cached_content(views, key@), reserved, admission);
    lemma_usage_is_unique(listed, usage_views(usage@), views, reads@);
    lemma_usage_distinct(usage@, views, reads@);
    lemma_protected_blobs_stand_in_the_way(
        usage@,
        key@,
        reserved,
        moved,
        info.content_id,
        info.content_length as int,
        budget,
        *limits,
        Ok(admission),
    );
    let held = exists|i: int|
        0 <= i < usage@.len() && (#[trigger] usage@[i]).content_id@ == content->0.content_id@;
    match admission {
        StorageAdmission::Store { evict_content_ids } => {
            if !held {
                lemma_evictions_just_make_room(
                    usage@,
                    key@,
                    reserved,
                    moved,
                    info.content_id,
                    info.content_length as int,
                    budget,
                    *limits,
                    evict_content_ids,
                );
                assert(evict_content_ids@ == update.evict_content_ids@);
            }
        },
        StorageAdmission::TrackOnly => {},
    }
}

/// A blob goes exactly when it is neither our own nor the cached revision of
/// any peer.
pub proof fn law_unused_blob_is_nobodys(
    id: &[u8],
    current: &Option<Vec<u8>>,
    peers: &[Peer],
    remove: bool,
)
    requires
        call_ensures(remove_unused_foreign_blob, (id, current, peers), remove),
    ensures
        remove <==> !(*current matches Some(own) && own@ == id@) && forall|i: int|
            0 <= i < peers@.len() ==> !names_revision(
                (#[trigger] peers@[i]).latest_cached_content,
                id@,
            ),
{
    let views = peer_views(peers@);
    if remove {
        assert forall|i: int| 0 <= i < peers@.len() implies !names_revision(
            (#[trigger] peers@[i]).latest_cached_content,
            id@,
        ) by {
            assert(views[i] == peers@[i]@);
            assert(!crate::mirror::caches(views[i], id@));
        }
    } else if !(*current matches Some(own) && own@ == id@) {
        let i = choose|i: int|
            0 <= i < views.len() && crate::mirror::caches(#[trigger] views[i], id@);
        assert(views[i] == peers@[i]@);
        assert(names_revision(peers@[i].latest_cached_content, id@));
    }
}

/// A blob is present where it was found whole, missing where it was not found
/// and corrupt where it has to be recovered; any other failure stays one. The
/// removal of a blob that is not there succeeds, and other failures stay.
pub proof fn law_lookup_tells_the_state(
    lookup: &Result<bool, StorageError>,
    state: Result<MirroredBlobState, Status>,
    removal: Result<(), StorageError>,
    removed: Result<(), Status>,
)
    requires
        call_ensures(mirrored_blob_state, (lookup,), state),
        call_ensures(blob_removal_outcome, (removal,), removed),
    ensures
        (state matches Ok(s) && s == MirroredBlobState::Present) <==> *lookup == Ok::<
            bool,
            StorageError,
        >(true),
        (state matches Ok(s) && s == MirroredBlobState::Missing) <==> *lookup == Ok::<
            bool,
            StorageError,
        >(false),
        (state matches Ok(s) && s == MirroredBlobState::Corrupt) <==> (*lookup matches Err(
            StorageError::RecoveryRequired(_),
        )),
        removed is Ok <==> removal is Ok || removal matches Err(StorageError::FileNotFound),
{
}

/// An advertisement is refused for want of room where the peer has no record,
/// and as malformed where its revision is; otherwise it is looked at.
pub proof fn law_advertisements_of_tracked_peers_are_looked_at(
    onion: &str,
    peers: &[Peer],
    key: &[u8],
    content: &Option<ContentInfo>,
    limits: &Limits,
    outcome: Result<(), Status>,
)
    requires
        call_ensures(check_peer_content_sync, (onion, peers, key, content, limits), outcome),
        limits.max_peer_content_bytes <= i64::MAX,
    ensures
        ({
            let known = exists|i: int|
                0 <= i < peers@.len() && (#[trigger] peers@[i]).onion_pubkey@ == key@;
            let sound = *content matches Some(info) ==> 0 < info.content_length
                <= limits.max_peer_content_bytes && info.content_id@.len() == limits.content_id_len;
            &&& outcome is Ok <==> known && sound
            &&& outcome matches Err(status) ==> (status.code == Code::ResourceExhausted <==> !known)
        }),
{
    crate::records::lemma_find_first(peers@, key@);
}

/// An advertisement that is looked at fails only where the advertised blob
/// cannot be looked up, or where it has to be fetched and the blobs at hand
/// cannot be accounted for.
pub proof fn law_sync_fails_only_for_cause(
    onion: &str,
    peers: &[Peer],
    key: &[u8],
    content: &Option<ContentInfo>,
    lookup: &Result<bool, StorageError>,
    reads: &[BlobRead],
    budget: i64,
    limits: &Limits,
    outcome: Result<SyncPlan, Status>,
    checked: Result<(), Status>,
    usage: Result<Vec<MirroredBlobUsage>, Status>,
)
    requires
        call_ensures(
            sync_peer_content_info,
            (onion, peers, key, content, lookup, reads, budget, limits),
            outcome,
        ),
        call_ensures(check_peer_content_sync, (onion, peers, key, content, limits), checked),
        call_ensures(mirrored_blob_usage, (peers, reads), usage),
    ensures
        checked is Err ==> (outcome matches Err(status) && status@ == checked->Err_0@),
        checked is Ok && *content is None ==> outcome is Ok,
        checked is Ok && *content is Some ==> {
            &&& *lookup == Ok::<bool, StorageError>(true) ==> outcome is Ok
            &&& *lookup == Ok::<bool, StorageError>(false) || (*lookup matches Err(
                StorageError::RecoveryRequired(_),
            )) ==> (outcome is Ok <==> usage is Ok)
            &&& (*lookup matches Err(error) && !(error is RecoveryRequired)) ==> outcome is Err
        },
{
}

} // verus!

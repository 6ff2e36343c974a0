//! The RPC surfaces of the node: the local one for its operator and the one for
//! its peers.

use crate::content::{
    content_defect, ensure_local_file_mutations_allowed, same_content, validate_peer_content_info,
    Limits,
};
use crate::exchange::{foreign_keys, merge_peer_exchange_response};
use crate::files::{
    collect_set_file_upload, get_file_chunks, rpc_file_info, streams, upload_rule, FileChunk,
    FileInfo, PlainFile, StoredFileInfo,
};
use crate::mirror::ids_of;
use crate::model::{
    content_view, peer_views, ContentInfo, ContentInfoView, Peer, PeerView, ProtoTimestamp,
    Timestamp, NANOS_PER_SECOND,
};
use crate::node::{record_views, uptime_of, Node, NodeView};
use crate::publish::{OfferRefusal, SetContentRevisionStorageResult};
use crate::records::{
    cached_content, is_peer_pinned_by_us, known_content, peer_score_state, pinned,
    requester_content, requester_content_rule, requester_latest_known_content, score_state,
    BlobRead,
};
use crate::state_summary::StateLocalSummary;
use crate::status::{
    failed_precondition, fails_with, invalid_argument, map_storage_error, no_store, no_store_error,
    plain_status, self_peer, self_peer_error, storage_status, Code, Status, StatusView,
    StorageError,
};
use crate::sync::SyncPeerContentResult;
use crate::timestamps::{decodes_timestamp, timestamp_parts};
use crate::transfer::{
    check_download_request, choose_download_source, request_defect, source_of, DownloadRequest,
    DownloadSource,
};
use vstd::prelude::*;

verus! {

/// SetFileRequest asks to store one plaintext file.
#[derive(Debug)]
pub struct SetFileRequest {
    /// name is the file's name.
    pub name: String,
    /// data is the file's content.
    pub data: Vec<u8>,
    /// modified_at is when the file was modified, if it is known.
    pub modified_at: Option<ProtoTimestamp>,
}

/// StateResponse is the node's state as its operator sees it.
#[derive(Debug)]
pub struct StateResponse {
    /// storage_initialized reports whether the local store is set up.
    pub storage_initialized: bool,
    /// server_onion is the node's own hostname.
    pub server_onion: String,
    /// uptime_seconds is how long the node has been running.
    pub uptime_seconds: i64,
    /// local_summary sums up the local state, where there is a store.
    pub local_summary: Option<StateLocalSummary>,
}

/// Why local files may not be changed, if anything stands against it.
pub open spec fn edit_block(recovery_mode_enabled: Option<bool>) -> Option<StatusView> {
    match recovery_mode_enabled {
        None => Some(no_store()),
        Some(true) => Some(
            failed_precondition("local file edits are blocked while recovery mode is enabled"@),
        ),
        Some(false) => None,
    }
}

/// Reject a change of local files where there is no store or while recovery
/// mode is enabled.
fn check_edit(recovery_mode_enabled: Option<bool>) -> (outcome: Result<(), Status>)
    ensures
        match edit_block(recovery_mode_enabled) {
            Some(failure) => fails_with(outcome, failure),
            None => outcome is Ok,
        },
{
    match recovery_mode_enabled {
        None => Err(no_store_error()),
        Some(enabled) => ensure_local_file_mutations_allowed(enabled),
    }
}

/// The modification time of a file to store; the beginning of time where none
/// is given.
pub open spec fn time_to_store(modified_at: Option<ProtoTimestamp>) -> ProtoTimestamp {
    match modified_at {
        Some(at) => at,
        None => ProtoTimestamp { seconds: 0, nanos: 0 },
    }
}

/// Whether `outcome` is the file to store for `file`.
pub open spec fn set_file_rule(
    file: Option<SetFileRequest>,
    outcome: Result<PlainFile, Status>,
) -> bool {
    match file {
        None => fails_with(outcome, invalid_argument("file is required"@)),
        Some(request) => if request.name@.len() == 0 {
            fails_with(outcome, invalid_argument("file name is required"@))
        } else {
            exists|parts: Result<(u64, u32), Status>| #[trigger]
                decodes_timestamp(Some(time_to_store(request.modified_at)), parts) && match parts {
                    Err(status) => fails_with(outcome, status@),
                    Ok(time) => outcome matches Ok(plain) && plain.name@ == request.name@
                        && plain.data@ == request.data@ && plain.modified_at_secs == time.0
                        && plain.modified_at_nanos == time.1,
                }
        },
    }
}

/// Whether `outcome` is the hostname of the peer that a request names.
pub open spec fn peer_request_rule(
    peer: Option<String>,
    outcome: Result<String, Status>,
) -> bool {
    match peer {
        None => fails_with(outcome, invalid_argument("peer is required"@)),
        Some(onion) => if onion@.len() == 0 {
            fails_with(outcome, invalid_argument("peer onion is required"@))
        } else {
            outcome matches Ok(found) && found@ == onion@
        },
    }
}

/// Whether a text is empty.
fn is_empty_text(text: &str) -> (empty: bool)
    ensures
        empty == (text@.len() == 0),
{
    text.unicode_len() == 0
}

/// Whether `infos` describe `files`.
pub open spec fn lists_files(infos: Seq<FileInfo>, files: Seq<StoredFileInfo>) -> bool {
    &&& infos.len() == files.len()
    &&& forall|i: int|
        0 <= i < files.len() ==> (#[trigger] infos[i]).name@ == files[i].name@
            && infos[i].size_bytes == files[i].size_bytes && infos[i].modified_at == Some(
            ProtoTimestamp {
                seconds: files[i].modified_at_secs,
                nanos: files[i].modified_at_nanos as i32,
            },
        )
}

/// CliService is the local RPC surface.
pub struct CliService<'a> {
    node: &'a Node,
}

impl<'a> CliService<'a> {
    /// The node behind the service.
    pub closed spec fn backing(&self) -> NodeView {
        self.node@
    }

    /// Create a local CLI service bound to the provided node.
    pub fn new(node: &'a Node) -> (service: Self)
        ensures
            service.backing() == node@,
    {
        CliService { node }
    }

    /// Check one plaintext file that is to be stored.
    pub fn set_file(&self, recovery_mode_enabled: Option<bool>, file: Option<SetFileRequest>) -> (outcome:
        Result<PlainFile, Status>)
        ensures
            match edit_block(recovery_mode_enabled) {
                Some(failure) => fails_with(outcome, failure),
                None => set_file_rule(file, outcome),
            },
    {
        match check_edit(recovery_mode_enabled) {
            Err(status) => return Err(status),
            Ok(()) => {},
        }
        let request = match file {
            None => return Err(Status::invalid_argument("file is required")),
            Some(request) => request,
        };
        if is_empty_text(request.name.as_str()) {
            return Err(Status::invalid_argument("file name is required"));
        }
        let modified_at = match request.modified_at {
            Some(at) => at,
            None => ProtoTimestamp { seconds: 0, nanos: 0 },
        };
        let parts = timestamp_parts(Some(modified_at));
        assert(decodes_timestamp(Some(time_to_store(request.modified_at)), parts));
        match parts {
            Err(status) => Err(status),
            Ok(time) => Ok(
                PlainFile {
                    name: request.name,
                    data: request.data,
                    modified_at_secs: time.0,
                    modified_at_nanos: time.1,
                },
            ),
        }
    }

    /// Check one streamed file that is to be stored.
    pub fn set_file_stream(&self, recovery_mode_enabled: Option<bool>, chunks: Vec<FileChunk>) -> (outcome:
        Result<PlainFile, Status>)
        ensures
            match edit_block(recovery_mode_enabled) {
                Some(failure) => fails_with(outcome, failure),
                None => upload_rule(chunks@, outcome),
            },
    {
        match check_edit(recovery_mode_enabled) {
            Err(status) => return Err(status),
            Ok(()) => {},
        }
        collect_set_file_upload(chunks)
    }

    /// Check the name of a file that is to be deleted.
    pub fn delete_file(&self, recovery_mode_enabled: Option<bool>, name: &str) -> (outcome: Result<
        (),
        Status,
    >)
        ensures
            match edit_block(recovery_mode_enabled) {
                Some(failure) => fails_with(outcome, failure),
                None => if name@.len() == 0 {
                    fails_with(outcome, invalid_argument("file name is required"@))
                } else {
                    outcome is Ok
                },
            },
    {
        match check_edit(recovery_mode_enabled) {
            Err(status) => return Err(status),
            Ok(()) => {},
        }
        if is_empty_text(name) {
            return Err(Status::invalid_argument("file name is required"));
        }
        Ok(())
    }

    /// Stream one file out, given what reading it from the store gave; without
    /// a store nothing was read.
    pub fn get_file_stream(&self, name: &str, file: Option<Result<PlainFile, StorageError>>) -> (outcome:
        Result<Vec<FileChunk>, Status>)
        ensures
            if name@.len() == 0 {
                fails_with(outcome, invalid_argument("file name is required"@))
            } else {
                match file {
                    None => fails_with(outcome, no_store()),
                    Some(Err(error)) => fails_with(outcome, storage_status(error)),
                    Some(Ok(plain)) => outcome matches Ok(chunks) && streams(chunks@, plain),
                }
            },
    {
        if is_empty_text(name) {
            return Err(Status::invalid_argument("file name is required"));
        }
        match file {
            None => Err(no_store_error()),
            Some(Err(error)) => Err(map_storage_error(error)),
            Some(Ok(plain)) => Ok(get_file_chunks(plain)),
        }
    }

    /// Describe the files of the active revision.
    pub fn list_files(&self, files: Vec<StoredFileInfo>) -> (infos: Vec<FileInfo>)
        requires
            forall|i: int|
                0 <= i < files@.len() ==> 0 <= (#[trigger] files@[i]).modified_at_nanos
                    < NANOS_PER_SECOND,
        ensures
            lists_files(infos@, files@),
    {
        let mut infos: Vec<FileInfo> = Vec::new();
        let mut i: usize = 0;
        while i < files.len()
            invariant
                i <= files@.len(),
                forall|j: int|
                    0 <= j < files@.len() ==> 0 <= (#[trigger] files@[j]).modified_at_nanos
                        < NANOS_PER_SECOND,
                lists_files(infos@, files@.take(i as int)),
            decreases files@.len() - i,
        {
            let file = &files[i];
            let ghost listed = infos@;
            let info = rpc_file_info(
                StoredFileInfo {
                    name: file.name.clone(),
                    size_bytes: file.size_bytes,
                    modified_at_secs: file.modified_at_secs,
                    modified_at_nanos: file.modified_at_nanos,
                },
            );
            infos.push(info);
            i += 1;
            assert forall|j: int| 0 <= j < i implies (#[trigger] infos@[j]).name@
                == files@.take(i as int)[j].name@ && infos@[j].size_bytes
                == files@.take(i as int)[j].size_bytes && infos@[j].modified_at == Some(
                ProtoTimestamp {
                    seconds: files@.take(i as int)[j].modified_at_secs,
                    nanos: files@.take(i as int)[j].modified_at_nanos as i32,
                },
            ) by {
                if j < i - 1 {
                    assert(infos@[j] == listed[j]);
                    assert(files@.take(i as int)[j] == files@.take(i - 1)[j]);
                }
            }
        }
        assert(files@.take(i as int) =~= files@);
        infos
    }

    /// Report the node's state.
    pub fn state(&self, local_summary: Option<StateLocalSummary>, now: Timestamp) -> (response:
        StateResponse)
        ensures
            response.storage_initialized,
            response.server_onion@ == self.backing().onion_address,
            response.uptime_seconds == uptime_of(self.backing(), now),
            response.local_summary == local_summary,
    {
        StateResponse {
            storage_initialized: true,
            server_onion: self.node.address().to_owned(),
            uptime_seconds: self.node.uptime_seconds(now),
            local_summary,
        }
    }

    /// Refuse to initialize, which is not offered here.
    pub fn init(&self, main_password: &str) -> (outcome: Result<(), Status>)
        ensures
            if main_password@.len() == 0 {
                fails_with(outcome, invalid_argument("main password is required"@))
            } else {
                fails_with(
                    outcome,
                    failed_precondition("initialization is only supported by the daemon"@),
                )
            },
    {
        if is_empty_text(main_password) {
            return Err(Status::invalid_argument("main password is required"));
        }
        Err(Status::failed_precondition("initialization is only supported by the daemon"))
    }

    /// Accept any password, as the store is open already.
    pub fn unlock(&self, main_password: &str) -> (outcome: Result<(), Status>)
        ensures
            if main_password@.len() == 0 {
                fails_with(outcome, invalid_argument("main password is required"@))
            } else {
                outcome is Ok
            },
    {
        if is_empty_text(main_password) {
            return Err(Status::invalid_argument("main password is required"));
        }
        Ok(())
    }

    /// Refuse to stop, which is not offered here.
    pub fn stop(&self) -> (status: Status)
        ensures
            status@ == failed_precondition("graceful stop is only supported by the daemon"@),
    {
        Status::failed_precondition("graceful stop is only supported by the daemon")
    }

    /// Refuse to control a test clock, which is not offered here.
    pub fn test_clock(&self) -> (status: Status)
        ensures
            status@ == plain_status(
                Code::Unimplemented,
                "test clock control is only supported by the daemon"@,
            ),
    {
        Status::with_text(Code::Unimplemented, "test clock control is only supported by the daemon")
    }

    /// Return the hostname of the peer that a request names.
    pub fn requested_peer(&self, peer: Option<String>) -> (outcome: Result<String, Status>)
        ensures
            peer_request_rule(peer, outcome),
    {
        match peer {
            None => Err(Status::invalid_argument("peer is required")),
            Some(onion) => {
                if is_empty_text(onion.as_str()) {
                    return Err(Status::invalid_argument("peer onion is required"));
                }
                Ok(onion)
            },
        }
    }
}

/// HealthCheckResponse tells both ends of a contact who they are.
#[derive(Debug, PartialEq, Eq)]
pub struct HealthCheckResponse {
    /// client_onion is the caller's authenticated hostname.
    pub client_onion: String,
    /// server_onion is the node's own hostname.
    pub server_onion: String,
}

/// ContentRevision tells a peer what we hold and know of its revisions.
#[derive(Debug, PartialEq, Eq)]
pub struct ContentRevision {
    /// requester_latest_stored_content is the newest of the peer's revisions
    /// that we can return.
    pub requester_latest_stored_content: Option<ContentInfo>,
    /// requester_remaining_seconds is the peer's score.
    pub requester_remaining_seconds: i64,
    /// requester_latest_known_content is the newest of the peer's revisions
    /// that we know of.
    pub requester_latest_known_content: Option<ContentInfo>,
    /// requester_pinned reports whether we pin the peer.
    pub requester_pinned: bool,
}

/// Whether `revision` tells the peer with `key` what we know of it, where
/// `stored` is what we can return.
pub open spec fn revision_rule(
    records: Seq<PeerView>,
    key: Seq<u8>,
    stored: Option<ContentInfo>,
    revision: ContentRevision,
) -> bool {
    &&& revision.requester_latest_stored_content == stored
    &&& content_view(revision.requester_latest_known_content) == known_content(records, key)
    &&& revision.requester_remaining_seconds == score_state(records, key).0
    &&& revision.requester_pinned == pinned(records, key)
}

/// Whether `outcome` answers the peer with `key`, given what reading its blob
/// gave.
pub open spec fn answers_revision(
    records: Seq<PeerView>,
    key: Seq<u8>,
    reads: Seq<BlobRead>,
    outcome: Result<ContentRevision, Status>,
) -> bool {
    exists|stored: Result<Option<ContentInfo>, Status>| #[trigger]
        requester_content_rule(cached_content(records, key), reads, stored) && match stored {
            Err(status) => fails_with(outcome, status@),
            Ok(content) => outcome matches Ok(revision) && revision_rule(
                records,
                key,
                content,
                revision,
            ),
        }
}

/// Why an offered revision is refused before anything is stored, if it is.
pub open spec fn offer_defect(
    previous: Option<ContentInfoView>,
    offered: Option<ContentInfoView>,
    limits: Limits,
) -> Option<StatusView> {
    if previous is Some && content_defect(previous->0, limits) is Some {
        content_defect(previous->0, limits)
    } else {
        match offered {
            None => Some(invalid_argument("requester_content must be set"@)),
            Some(content) => content_defect(content, limits),
        }
    }
}

/// Whether `outcome` refuses an offer with `failure`.
pub open spec fn refuses(
    outcome: Result<ContentInfo, OfferRefusal>,
    failure: StatusView,
    mismatch: bool,
) -> bool {
    outcome matches Err(refusal) && refusal.status@ == failure && refusal.previous_mismatch
        == mismatch
}

/// DownloadPlan tells which blob is served and which part of it.
#[derive(Clone, Copy, Debug, PartialEq, Eq, Structural)]
pub struct DownloadPlan {
    /// source is the blob that is served.
    pub source: DownloadSource,
    /// offset is where the section begins.
    pub offset: usize,
    /// length is how long the section is at most.
    pub length: usize,
}

/// What we can return to a requester; nothing to one without an identity.
pub open spec fn held_for(
    records: Seq<PeerView>,
    requester: Option<Vec<u8>>,
    reads: Seq<BlobRead>,
    held: Result<Option<ContentInfo>, Status>,
) -> bool {
    match requester {
        Some(key) => requester_content_rule(cached_content(records, key@), reads, held),
        None => held matches Ok(content) && content is None,
    }
}

/// Whether `outcome` is how a well-formed request is served.
pub open spec fn download_rule(
    request: DownloadRequest,
    requester: Option<Vec<u8>>,
    current: Option<Seq<u8>>,
    records: Seq<PeerView>,
    reads: Seq<BlobRead>,
    outcome: Result<DownloadPlan, Status>,
) -> bool {
    exists|held: Result<Option<ContentInfo>, Status>| #[trigger]
        held_for(records, requester, reads, held) && match held {
            Err(status) => fails_with(outcome, status@),
            Ok(content) => match source_of(request.content_id@, current, content_view(content)) {
                None => fails_with(outcome, plain_status(Code::NotFound, "content not found"@)),
                Some(source) => outcome matches Ok(plan) && plan.source == source && plan.offset
                    == request.offset && plan.length == request.length,
            },
        }
}

/// An optional identifier as a sequence.
pub open spec fn id_view(id: Option<Vec<u8>>) -> Option<Seq<u8>> {
    match id {
        Some(bytes) => Some(bytes@),
        None => None,
    }
}

/// P2pService is the RPC surface for peers.
pub struct P2pService<'a> {
    node: &'a Node,
}

impl<'a> P2pService<'a> {
    /// The node behind the service.
    pub closed spec fn backing(&self) -> NodeView {
        self.node@
    }

    /// Create a peer-to-peer service bound to the provided node.
    pub fn new(node: &'a Node) -> (service: Self)
        ensures
            service.backing() == node@,
    {
        P2pService { node }
    }

    /// Tell a peer who both ends of the contact are.
    pub fn health_check(&self, client_onion: String) -> (response: HealthCheckResponse)
        ensures
            response.client_onion == client_onion,
            response.server_onion@ == self.backing().onion_address,
    {
        HealthCheckResponse { client_onion, server_onion: self.node.address().to_owned() }
    }

    /// Reject a request that the node sent to itself.
    pub fn reject_self(&self, requester: &Option<Vec<u8>>) -> (outcome: Result<(), Status>)
        ensures
            if id_view(*requester) == Some(self.backing().public_key) {
                fails_with(outcome, self_peer())
            } else {
                outcome is Ok
            },
    {
        match requester {
            Some(key) => {
                if self.node.is_our_public_key(key.as_slice()) {
                    return Err(self_peer_error());
                }
                Ok(())
            },
            None => Ok(()),
        }
    }

    /// Pick the peers to track out of the list that a peer sent.
    pub fn peer_exchange(&self, peers: &[Vec<u8>]) -> (discovered: Vec<Vec<u8>>)
        ensures
            ids_of(discovered@) == foreign_keys(ids_of(peers@), self.backing().public_key),
    {
        merge_peer_exchange_response(peers, self.node.public_key())
    }

    /// Tell a peer what we hold and know of its revisions. A caller without an
    /// identity learns nothing.
    pub fn get_content_revision(
        &self,
        requester: &Option<Vec<u8>>,
        peers: Option<&[Peer]>,
        reads: &[BlobRead],
    ) -> (outcome: Result<ContentRevision, Status>)
        ensures
            match *requester {
                None => outcome matches Ok(revision)
                    && revision.requester_latest_stored_content is None
                    && revision.requester_remaining_seconds == 0
                    && revision.requester_latest_known_content is None
                    && !revision.requester_pinned,
                Some(key) => match record_views(peers) {
                    None => fails_with(outcome, no_store()),
                    Some(records) => answers_revision(records, key@, reads@, outcome),
                },
            },
    {
        let key = match requester {
            None => return Ok(
                ContentRevision {
                    requester_latest_stored_content: None,
                    requester_remaining_seconds: 0,
                    requester_latest_known_content: None,
                    requester_pinned: false,
                },
            ),
            Some(key) => key.as_slice(),
        };
        let records = match peers {
            None => return Err(no_store_error()),
            Some(records) => records,
        };
        let stored = requester_content(records, key, reads);
        assert(requester_content_rule(
            cached_content(peer_views(records@), key@),
            reads@,
            stored,
        ));
        match stored {
            Err(status) => Err(status),
            Ok(content) => Ok(
                ContentRevision {
                    requester_latest_stored_content: content,
                    requester_remaining_seconds: peer_score_state(records, key).0,
                    requester_latest_known_content: requester_latest_known_content(records, key),
                    requester_pinned: is_peer_pinned_by_us(records, key),
                },
            ),
        }
    }

    /// Check a revision that a peer offers: it has to be well formed, and the
    /// peer has to name the revision that we know of as the one before.
    pub fn set_content_revision(
        &self,
        previous_requester_content: &Option<ContentInfo>,
        requester_content: Option<ContentInfo>,
        peer_public_key: &[u8],
        peers: Option<&[Peer]>,
    ) -> (outcome: Result<ContentInfo, OfferRefusal>)
        ensures
            match offer_defect(
                content_view(*previous_requester_content),
                content_view(requester_content),
                self.backing().limits,
            ) {
                Some(failure) => refuses(outcome, failure, false),
                None => match record_views(peers) {
                    None => refuses(outcome, no_store(), false),
                    Some(records) => if content_view(*previous_requester_content) != known_content(
                        records,
                        peer_public_key@,
                    ) {
                        refuses(
                            outcome,
                            failed_precondition(
                                "previous_requester_content did not match the responder's latest known requester revision"@,
                            ),
                            true,
                        )
                    } else {
                        outcome matches Ok(content) && Some(content@) == content_view(
                            requester_content,
                        )
                    },
                },
            },
    {
        let limits = self.node.limits();
        if let Some(content) = previous_requester_content {
            match validate_peer_content_info(content, &limits) {
                Err(status) => return Err(OfferRefusal { status, previous_mismatch: false }),
                Ok(()) => {},
            }
        }
        let offered = match requester_content {
            None => return Err(
                OfferRefusal {
                    status: Status::invalid_argument("requester_content must be set"),
                    previous_mismatch: false,
                },
            ),
            Some(content) => content,
        };
        match validate_peer_content_info(&offered, &limits) {
            Err(status) => return Err(OfferRefusal { status, previous_mismatch: false }),
            Ok(()) => {},
        }
        let records = match peers {
            None => return Err(
                OfferRefusal { status: no_store_error(), previous_mismatch: false },
            ),
            Some(records) => records,
        };
        let known = requester_latest_known_content(records, peer_public_key);
        if !same_content(previous_requester_content, &known) {
            return Err(
                OfferRefusal {
                    status: Status::failed_precondition(
                        "previous_requester_content did not match the responder's latest known requester revision",
                    ),
                    previous_mismatch: true,
                },
            );
        }
        Ok(offered)
    }

    /// Tell a peer what became of the revision that it offered.
    pub fn storage_result(&self, result: SyncPeerContentResult) -> (told:
        SetContentRevisionStorageResult)
        ensures
            told == match result {
                SyncPeerContentResult::MirroredBytesCached =>
                    SetContentRevisionStorageResult::MirroredBytesCached,
                SyncPeerContentResult::SidecarOnly => SetContentRevisionStorageResult::SidecarOnly,
            },
    {
        match result {
            SyncPeerContentResult::MirroredBytesCached =>
                SetContentRevisionStorageResult::MirroredBytesCached,
            SyncPeerContentResult::SidecarOnly => SetContentRevisionStorageResult::SidecarOnly,
        }
    }

    /// Decide how a download is served: from our active revision, or from what
    /// we hold for the caller.
    pub fn download(
        &self,
        request: &DownloadRequest,
        requester: &Option<Vec<u8>>,
        current_content_id: &Option<Vec<u8>>,
        peers: Option<&[Peer]>,
        reads: &[BlobRead],
    ) -> (outcome: Result<DownloadPlan, Status>)
        ensures
            match request_defect(*request, self.backing().limits) {
                Some(failure) => fails_with(outcome, failure),
                None => match record_views(peers) {
                    None => fails_with(outcome, no_store()),
                    Some(records) => download_rule(
                        *request,
                        *requester,
                        id_view(*current_content_id),
                        records,
                        reads@,
                        outcome,
                    ),
                },
            },
    {
        let range = match check_download_request(request, &self.node.limits()) {
            Err(status) => return Err(status),
            Ok(range) => range,
        };
        let records = match peers {
            None => return Err(no_store_error()),
            Some(records) => records,
        };
        let held = match requester {
            Some(key) => requester_content(records, key.as_slice(), reads),
            None => Ok(None),
        };
        assert(held_for(peer_views(records@), *requester, reads@, held));
        let content = match held {
            Err(status) => return Err(status),
            Ok(content) => content,
        };
        match choose_download_source(
            request.content_id.as_slice(),
            current_content_id,
            &content,
        ) {
            Err(status) => Err(status),
            Ok(source) => Ok(DownloadPlan { source, offset: range.0, length: range.1 }),
        }
    }
}

/// Nothing but our active revision and the revision that we hold for the caller
/// is ever served.
pub proof fn law_downloads_serve_only_own_and_requested_content(
    request: DownloadRequest,
    requester: Option<Vec<u8>>,
    current: Option<Seq<u8>>,
    records: Seq<PeerView>,
    reads: Seq<BlobRead>,
    outcome: Result<DownloadPlan, Status>,
)
    requires
        download_rule(request, requester, current, records, reads, outcome),
        outcome is Ok,
    ensures
        current == Some(request.content_id@) || (requester matches Some(key) && cached_content(
            records,
            key@,
        ) matches Some(cached) && cached.content_id == request.content_id@),
{
}

/// Whether a peer may advertise a revision of this form.
pub open spec fn well_formed_revision(content: ContentInfo, limits: Limits) -> bool {
    &&& 0 < content.content_length <= limits.max_peer_content_bytes
    &&& content.content_id@.len() == limits.content_id_len
}

/// An offered revision is taken exactly when it is well formed, the revision
/// named as the one before is well formed if there is one, there is a store, and
/// the one before is exactly what is known of the peer. A mismatch is told
/// exactly when only that fails.
pub proof fn law_offer_must_follow_the_known_revision(
    service: &P2pService,
    previous: &Option<ContentInfo>,
    offered: Option<ContentInfo>,
    key: &[u8],
    peers: Option<&[Peer]>,
    outcome: Result<ContentInfo, OfferRefusal>,
    p: int,
)
    requires
        call_ensures(
            P2pService::set_content_revision,
            (service, previous, offered, key, peers),
            outcome,
        ),
        service.backing().limits.max_peer_content_bytes <= i64::MAX,
        peers matches Some(records) ==> (crate::records::first_with_key(records@, key@, p) || forall|
            i: int,
        |
            0 <= i < records@.len() ==> (#[trigger] records@[i]).onion_pubkey@ != key@),
    ensures
        ({
            let limits = service.backing().limits;
            let sound = (*previous matches Some(before) ==> well_formed_revision(before, limits))
                && offered is Some && well_formed_revision(offered->0, limits);
            &&& peers is None ==> outcome is Err
            &&& !sound ==> outcome is Err
            &&& outcome matches Err(refusal) ==> (refusal.previous_mismatch ==> sound && peers is Some
                && refusal.status.code == Code::FailedPrecondition)
            &&& outcome matches Ok(taken) ==> taken.content_id@ == offered->0.content_id@
                && taken.content_length == offered->0.content_length
            &&& sound ==> (peers matches Some(records) ==> {
                let known = if crate::records::first_with_key(records@, key@, p) {
                    records@[p].latest_known_content
                } else {
                    None
                };
                &&& outcome is Ok <==> crate::records::same_revision(*previous, known)
                &&& outcome matches Err(refusal) ==> refusal.previous_mismatch
            })
        }),
{
    if let Some(records) = peers {
        crate::records::lemma_find_first(records@, key@);
    }
}

/// A caller without an identity learns nothing; any other caller learns its
/// score, its newest known revision and whether it is pinned, as its record has
/// them.
pub proof fn law_answer_repeats_the_record(
    service: &P2pService,
    requester: &Option<Vec<u8>>,
    peers: Option<&[Peer]>,
    reads: &[BlobRead],
    outcome: Result<ContentRevision, Status>,
    p: int,
    r: int,
)
    requires
        call_ensures(
            P2pService::get_content_revision,
            (service, requester, peers, reads),
            outcome,
        ),
    ensures
        *requester is None ==> (outcome matches Ok(revision)
            && revision.requester_latest_stored_content is None
            && revision.requester_latest_known_content is None
            && revision.requester_remaining_seconds == 0 && !revision.requester_pinned),
        *requester is Some && peers is None ==> outcome is Err,
        *requester matches Some(key) ==> (peers matches Some(records) ==> {
            &&& crate::records::first_with_key(records@, key@, p) ==> {
                let record = records@[p];
                &&& record.latest_cached_content is None ==> (outcome matches Ok(revision)
                    && revision.requester_latest_stored_content is None)
                &&& record.latest_cached_content is Some && crate::records::first_read(
                    reads@,
                    record.latest_cached_content->0.content_id@,
                    r,
                ) ==> match reads@[r].outcome {
                    Ok(len) => outcome matches Ok(revision)
                        && revision.requester_latest_stored_content matches Some(stored)
                        && stored.content_id@ == record.latest_cached_content->0.content_id@ && (len
                        <= i64::MAX ==> stored.content_length == len),
                    Err(StorageError::FileNotFound) => outcome matches Ok(revision)
                        && revision.requester_latest_stored_content is None,
                    Err(_) => outcome is Err,
                }
                &&& outcome matches Ok(revision) ==> {
                    &&& revision.requester_remaining_seconds == record.score_seconds
                    &&& revision.requester_pinned == record.pinned_by_us
                    &&& crate::records::same_revision(
                        revision.requester_latest_known_content,
                        record.latest_known_content,
                    )
                }
            }
            &&& (forall|i: int|
                0 <= i < records@.len() ==> (#[trigger] records@[i]).onion_pubkey@ != key@) ==> (
            outcome matches Ok(revision) && revision.requester_latest_stored_content is None
                && revision.requester_latest_known_content is None
                && revision.requester_remaining_seconds == 0 && !revision.requester_pinned)
        }),
{
    if let Some(key) = *requester {
        if let Some(records) = peers {
            crate::records::lemma_find_first(records@, key@);
            if crate::records::first_with_key(records@, key@, p)
                && records@[p].latest_cached_content is Some {
                crate::records::lemma_first_read(
                    reads@,
                    records@[p].latest_cached_content->0.content_id@,
                );
            }
        }
    }
}

/// A section is served exactly as it was asked for: of the active revision, or
/// of the revision that is held for the caller and can be read, and of nothing
/// else.
pub proof fn law_download_serves_what_was_asked(
    service: &P2pService,
    request: &DownloadRequest,
    requester: &Option<Vec<u8>>,
    current: &Option<Vec<u8>>,
    peers: Option<&[Peer]>,
    reads: &[BlobRead],
    outcome: Result<DownloadPlan, Status>,
)
    requires
        call_ensures(
            P2pService::download,
            (service, request, requester, current, peers, reads),
            outcome,
        ),
    ensures
        outcome matches Ok(plan) ==> {
            &&& plan.offset == request.offset
            &&& plan.length == request.length
            &&& request.content_id@.len() == service.backing().limits.content_id_len
            &&& request.reference_content_id@.len() == 0
            &&& plan.source is Current <==> (*current matches Some(id) && id@
                == request.content_id@)
            &&& plan.source is Mirrored ==> *requester is Some && peers is Some
            &&& plan.source is Mirrored ==> forall|p: int|
                #![trigger peers->0@[p]]
                crate::records::first_with_key(peers->0@, (*requester)->0@, p)
                    ==> peers->0@[p].latest_cached_content is Some
                    && peers->0@[p].latest_cached_content->0.content_id@ == request.content_id@
        },
        request.content_id@.len() == service.backing().limits.content_id_len && 0 <= request.offset
            <= usize::MAX && 0 <= request.length <= usize::MAX
            && request.reference_content_id@.len() == 0 && peers is Some && *requester is None
            && *current is Some && (*current)->0@ == request.content_id@ ==> outcome is Ok,
{
    if let Some(key) = *requester {
        if let Some(records) = peers {
            crate::records::lemma_find_first(records@, key@);
        }
    }
}

/// What is held for a caller is served to it.
pub proof fn law_held_revision_is_served(
    service: &P2pService,
    request: &DownloadRequest,
    requester: &Option<Vec<u8>>,
    current: &Option<Vec<u8>>,
    peers: Option<&[Peer]>,
    reads: &[BlobRead],
    outcome: Result<DownloadPlan, Status>,
    p: int,
    r: int,
)
    requires
        call_ensures(
            P2pService::download,
            (service, request, requester, current, peers, reads),
            outcome,
        ),
        request.content_id@.len() == service.backing().limits.content_id_len,
        0 <= request.offset <= usize::MAX,
        0 <= request.length <= usize::MAX,
        request.reference_content_id@.len() == 0,
        peers is Some,
        *requester is Some,
        crate::records::first_with_key(peers->0@, (*requester)->0@, p),
        peers->0@[p].latest_cached_content is Some,
        crate::records::first_read(
            reads@,
            peers->0@[p].latest_cached_content->0.content_id@,
            r,
        ),
        reads@[r].outcome is Ok,
    ensures
        outcome is Ok <==> peers->0@[p].latest_cached_content->0.content_id@ == request.content_id@
            || (*current matches Some(id) && id@ == request.content_id@),
{
    let key = (*requester)->0;
    crate::records::lemma_find_first(peers->0@, key@);
    crate::records::lemma_first_read(
        reads@,
        peers->0@[p].latest_cached_content->0.content_id@,
    );
}

/// We never serve ourselves, and nobody else is turned away for being us; both
/// ends of a contact are named as they are, and what became of an offer is told.
pub proof fn law_service_knows_who_is_who(
    service: &P2pService,
    requester: &Option<Vec<u8>>,
    rejected: Result<(), Status>,
    client: String,
    health: HealthCheckResponse,
    result: SyncPeerContentResult,
    told: SetContentRevisionStorageResult,
    listed: &[Vec<u8>],
    discovered: Vec<Vec<u8>>,
)
    requires
        call_ensures(P2pService::reject_self, (service, requester), rejected),
        call_ensures(P2pService::health_check, (service, client), health),
        call_ensures(P2pService::storage_result, (service, result), told),
        call_ensures(P2pService::peer_exchange, (service, listed), discovered),
    ensures
        rejected is Err <==> (*requester matches Some(key) && key@ == service.backing().public_key),
        health.client_onion@ == client@,
        health.server_onion@ == service.backing().onion_address,
        told is MirroredBytesCached <==> result is MirroredBytesCached,
        told is SidecarOnly <==> result is SidecarOnly,
        discovered@.map_values(|key: Vec<u8>| key@) == listed@.map_values(
            |key: Vec<u8>| key@,
        ).filter(crate::exchange::is_foreign(service.backing().public_key)),
{
    crate::exchange::lemma_foreign_keys(ids_of(listed@), service.backing().public_key);
    assert(discovered@.map_values(|key: Vec<u8>| key@) =~= ids_of(discovered@));
    assert(listed@.map_values(|key: Vec<u8>| key@) =~= ids_of(listed@));
}

/// Local files change only where there is a store and recovery mode is off. A
/// file needs a name and a sound time, which is the beginning of time where none
/// is given, and is stored as it was sent.
pub proof fn law_files_are_stored_as_sent(
    service: &CliService,
    recovery: Option<bool>,
    file: Option<SetFileRequest>,
    outcome: Result<PlainFile, Status>,
)
    requires
        call_ensures(CliService::set_file, (service, recovery, file), outcome),
    ensures
        outcome is Ok <==> recovery == Some(false) && (file matches Some(request)
            && request.name@.len() > 0 && (request.modified_at matches Some(at) ==> at.seconds >= 0
            && 0 <= at.nanos < 1_000_000_000)),
        outcome matches Ok(plain) ==> {
            let request = file->0;
            &&& plain.name@ == request.name@
            &&& plain.data@ == request.data@
            &&& request.modified_at is None ==> plain.modified_at_secs == 0
                && plain.modified_at_nanos == 0
            &&& request.modified_at matches Some(at) ==> plain.modified_at_secs == at.seconds
                && plain.modified_at_nanos == at.nanos
        },
{
}

/// A streamed file is stored, and a file deleted, only where there is a store
/// and recovery mode is off, and what is stored is what the stream comes to.
pub proof fn law_edits_wait_for_the_end_of_recovery(
    service: &CliService,
    recovery: Option<bool>,
    chunks: Vec<FileChunk>,
    stored: Result<PlainFile, Status>,
    name: &str,
    deleted: Result<(), Status>,
    collected: Result<PlainFile, Status>,
)
    requires
        call_ensures(CliService::set_file_stream, (service, recovery, chunks), stored),
        call_ensures(CliService::delete_file, (service, recovery, name), deleted),
        call_ensures(collect_set_file_upload, (chunks,), collected),
    ensures
        recovery != Some(false) ==> stored is Err && deleted is Err,
        recovery == Some(false) ==> {
            &&& stored is Ok <==> collected is Ok
            &&& stored matches Ok(file) ==> file.data@ == collected->Ok_0.data@ && file.name@
                == collected->Ok_0.name@ && file.modified_at_secs
                == collected->Ok_0.modified_at_secs && file.modified_at_nanos
                == collected->Ok_0.modified_at_nanos
            &&& deleted is Ok <==> name@.len() > 0
        },
{
}

/// A file is streamed out exactly when it was asked for by name, there is a
/// store, and it could be read; then its description comes first and its bytes
/// follow in their places.
pub proof fn law_read_file_is_streamed_out(
    service: &CliService,
    name: &str,
    file: Option<Result<PlainFile, StorageError>>,
    outcome: Result<Vec<FileChunk>, Status>,
    x: int,
)
    requires
        call_ensures(CliService::get_file_stream, (service, name, file), outcome),
    ensures
        outcome is Ok <==> name@.len() > 0 && (file matches Some(read) && read is Ok),
        outcome matches Ok(chunks) ==> {
            let plain = file->0->Ok_0;
            &&& chunks@.len() > 0
            &&& (chunks@[0] matches FileChunk::File(info) && info.name@ == plain.name@)
            &&& 0 <= x < plain.data@.len() ==> {
                let at = 1 + x / 262_144;
                at < chunks@.len() && (chunks@[at] matches FileChunk::Data(bytes) && x % 262_144
                    < bytes@.len() && bytes@[x % 262_144] == plain.data@[x])
            }
        },
{
    if let Ok(chunks) = outcome {
        crate::files::lemma_streamed_byte(chunks@, file->0->Ok_0, x);
    }
}

/// Files are listed in their order, each with its name, size and time.
pub proof fn law_files_are_listed_in_order(
    service: &CliService,
    files: Vec<StoredFileInfo>,
    infos: Vec<FileInfo>,
    i: int,
)
    requires
        call_ensures(CliService::list_files, (service, files), infos),
        forall|i: int|
            0 <= i < files@.len() ==> 0 <= (#[trigger] files@[i]).modified_at_nanos < 1_000_000_000,
        0 <= i < files@.len(),
    ensures
        infos@.len() == files@.len(),
        infos@[i].name@ == files@[i].name@,
        infos@[i].size_bytes == files@[i].size_bytes,
        infos@[i].modified_at matches Some(at) && at.seconds == files@[i].modified_at_secs && at.nanos
            == files@[i].modified_at_nanos,
{
}

/// Passwords may not be empty, and a peer is named by a hostname that may not
/// be empty either. What only the daemon offers is refused here.
pub proof fn law_requests_name_what_they_need(
    service: &CliService,
    password: &str,
    initialized: Result<(), Status>,
    unlocked: Result<(), Status>,
    peer: Option<String>,
    named: Result<String, Status>,
    stopped: Status,
    clock: Status,
)
    requires
        call_ensures(CliService::init, (service, password), initialized),
        call_ensures(CliService::unlock, (service, password), unlocked),
        call_ensures(CliService::requested_peer, (service, peer), named),
        call_ensures(CliService::stop, (service,), stopped),
        call_ensures(CliService::test_clock, (service,), clock),
    ensures
        unlocked is Ok <==> password@.len() > 0,
        initialized matches Err(status) && (status.code == Code::InvalidArgument
            <==> password@.len() == 0),
        named is Ok <==> (peer matches Some(onion) && onion@.len() > 0),
        named matches Ok(onion) ==> onion@ == peer->0@,
        stopped.code == Code::FailedPrecondition,
        clock.code == Code::Unimplemented,
{
}

/// The state names the node, tells its uptime and passes on the summary.
pub proof fn law_state_repeats_the_node(
    service: &CliService,
    summary: Option<StateLocalSummary>,
    now: Timestamp,
    response: StateResponse,
)
    requires
        call_ensures(CliService::state, (service, summary, now), response),
        now.secs <= i64::MAX,
    ensures
        response.storage_initialized,
        response.server_onion@ == service.backing().onion_address,
        response.local_summary == summary,
        service.backing().started_at is None ==> response.uptime_seconds == 0,
        service.backing().started_at matches Some(at) ==> (at.secs <= now.secs
            ==> response.uptime_seconds == now.secs - at.secs),
        service.backing().started_at matches Some(at) ==> (at.secs > now.secs
            ==> response.uptime_seconds == 0),
{
}

/// A refused download tells what is wrong: the request, the missing store, or
/// that nothing of that name is here for the caller.
pub proof fn law_refused_downloads_tell_why(
    service: &P2pService,
    request: &DownloadRequest,
    requester: &Option<Vec<u8>>,
    current: &Option<Vec<u8>>,
    peers: Option<&[Peer]>,
    reads: &[BlobRead],
    outcome: Result<DownloadPlan, Status>,
)
    requires
        call_ensures(
            P2pService::download,
            (service, request, requester, current, peers, reads),
            outcome,
        ),
    ensures
        ({
            let sound = request.content_id@.len() == service.backing().limits.content_id_len && 0
                <= request.offset <= usize::MAX && 0 <= request.length <= usize::MAX
                && request.reference_content_id@.len() == 0;
            &&& !sound ==> (outcome matches Err(status) && status.code == Code::InvalidArgument)
            &&& sound && peers is None ==> (outcome matches Err(status) && status.code
                == Code::FailedPrecondition)
            &&& sound && peers is Some && *requester is None && !(*current matches Some(id) && id@
                == request.content_id@) ==> (outcome matches Err(status) && status.code
                == Code::NotFound)
        }),
{
}

/// A malformed offer is the fault of the peer, one without a store that of the
/// node; neither makes the peer look again at what we know of.
pub proof fn law_refused_offers_tell_why(
    service: &P2pService,
    previous: &Option<ContentInfo>,
    offered: Option<ContentInfo>,
    key: &[u8],
    peers: Option<&[Peer]>,
    outcome: Result<ContentInfo, OfferRefusal>,
    requester: &Option<Vec<u8>>,
    rejected: Result<(), Status>,
)
    requires
        call_ensures(
            P2pService::set_content_revision,
            (service, previous, offered, key, peers),
            outcome,
        ),
        call_ensures(P2pService::reject_self, (service, requester), rejected),
        service.backing().limits.max_peer_content_bytes <= i64::MAX,
    ensures
        ({
            let limits = service.backing().limits;
            let sound = (*previous matches Some(before) ==> well_formed_revision(before, limits))
                && offered is Some && well_formed_revision(offered->0, limits);
            &&& !sound ==> (outcome matches Err(refusal) && refusal.status.code
                == Code::InvalidArgument && !refusal.previous_mismatch)
            &&& sound && peers is None ==> (outcome matches Err(refusal) && refusal.status.code
                == Code::FailedPrecondition && !refusal.previous_mismatch)
        }),
        rejected matches Err(status) ==> status.code == Code::FailedPrecondition,
{
}

/// A refused request of the owner tells whether the state of the node stands
/// against it or the request itself is malformed.
pub proof fn law_refused_file_requests_tell_why(
    service: &CliService,
    recovery: Option<bool>,
    file: Option<SetFileRequest>,
    stored: Result<PlainFile, Status>,
    name: &str,
    deleted: Result<(), Status>,
    read: Option<Result<PlainFile, StorageError>>,
    streamed: Result<Vec<FileChunk>, Status>,
    peer: Option<String>,
    named: Result<String, Status>,
    password: &str,
    unlocked: Result<(), Status>,
)
    requires
        call_ensures(CliService::set_file, (service, recovery, file), stored),
        call_ensures(CliService::delete_file, (service, recovery, name), deleted),
        call_ensures(CliService::get_file_stream, (service, name, read), streamed),
        call_ensures(CliService::requested_peer, (service, peer), named),
        call_ensures(CliService::unlock, (service, password), unlocked),
    ensures
        stored matches Err(status) ==> (status.code == Code::FailedPrecondition <==> recovery
            != Some(false)),
        stored matches Err(status) ==> (status.code == Code::InvalidArgument <==> recovery == Some(
            false,
        )),
        deleted matches Err(status) ==> (status.code == Code::FailedPrecondition <==> recovery
            != Some(false)),
        deleted matches Err(status) ==> (status.code == Code::InvalidArgument <==> recovery == Some(
            false,
        )),
        name@.len() == 0 ==> (streamed matches Err(status) && status.code == Code::InvalidArgument),
        name@.len() > 0 && read is None ==> (streamed matches Err(status) && status.code
            == Code::FailedPrecondition),
        name@.len() > 0 && (read matches Some(Err(StorageError::FileNotFound))) ==> (
        streamed matches Err(status) && status.code == Code::NotFound),
        named matches Err(status) ==> status.code == Code::InvalidArgument,
        unlocked matches Err(status) ==> status.code == Code::InvalidArgument,
{
}

} // verus!

//! Descriptors of encrypted revisions and the limits that bind them.

use crate::arith::{clamp_i64, i64_from_u64, i64_from_usize};
use crate::model::{content_view, ContentInfo, ContentInfoView};
use crate::outside::{hex_encode, hex_text};
use crate::status::{failed_precondition, fails_with, invalid_argument, Status, StatusView};
use crate::text::{bytes_copy, bytes_eq};
use vstd::prelude::*;

verus! {

/// Limits holds the fixed sizes of the peer protocol.
#[derive(Clone, Copy, Debug, PartialEq, Eq, Structural)]
pub struct Limits {
    /// content_id_len is the length of every content identifier in bytes.
    pub content_id_len: usize,
    /// max_peer_content_bytes is the largest encrypted revision that peers exchange.
    pub max_peer_content_bytes: usize,
    /// peer_grpc_message_limit_bytes is the largest message that peers exchange.
    pub peer_grpc_message_limit_bytes: usize,
}

impl Limits {
    /// The largest exchanged revision, as messages count it.
    pub open spec fn max_content(self) -> int {
        clamp_i64(self.max_peer_content_bytes as int)
    }

    /// Return the peer-content size limit for comparisons with message fields.
    pub fn max_peer_content_bytes_i64(&self) -> (limit: i64)
        ensures
            limit == self.max_content(),
            limit >= 0,
    {
        i64_from_usize(self.max_peer_content_bytes)
    }
}

/// The failure of a content identifier of the wrong length.
pub open spec fn bad_content_id() -> StatusView {
    invalid_argument("content id has an invalid length"@)
}

/// Validate one peer-visible content identifier.
pub fn validate_peer_content_id(content_id: &[u8], limits: &Limits) -> (outcome: Result<(), Status>)
    ensures
        outcome is Ok <==> content_id@.len() == limits.content_id_len,
        outcome is Err ==> fails_with(outcome, bad_content_id()),
{
    if content_id.len() != limits.content_id_len {
        return Err(Status::invalid_argument("content id has an invalid length"));
    }
    Ok(())
}

/// Why a content descriptor is not acceptable, if it is not.
pub open spec fn content_defect(content: ContentInfoView, limits: Limits) -> Option<StatusView> {
    if content.content_length <= 0 {
        Some(invalid_argument("content length must be positive"@))
    } else if content.content_length > limits.max_content() {
        Some(invalid_argument("content is too large"@))
    } else if content.content_id.len() != limits.content_id_len {
        Some(bad_content_id())
    } else {
        None
    }
}

/// Validate one peer-visible content descriptor before we trust its sizes.
pub fn validate_peer_content_info(content_info: &ContentInfo, limits: &Limits) -> (outcome: Result<
    (),
    Status,
>)
    ensures
        match content_defect(content_info@, *limits) {
            None => outcome is Ok,
            Some(failure) => fails_with(outcome, failure),
        },
{
    if content_info.content_length <= 0 {
        return Err(Status::invalid_argument("content length must be positive"));
    }
    if content_info.content_length > limits.max_peer_content_bytes_i64() {
        return Err(Status::invalid_argument("content is too large"));
    }
    validate_peer_content_id(content_info.content_id.as_slice(), limits)
}

/// Return one content id as lowercase hexadecimal text.
pub fn content_id_hex(content_id: &[u8]) -> (text: String)
    ensures
        text@ == hex_text(content_id@),
{
    hex_encode(content_id)
}

/// CurrentContent describes the active local revision.
#[derive(Debug, PartialEq, Eq)]
pub struct CurrentContent {
    /// content_id identifies the revision.
    pub content_id: Vec<u8>,
    /// blob_len is the length of its encrypted blob.
    pub blob_len: u64,
    /// created_at_secs is when the revision was made, in whole seconds.
    pub created_at_secs: u64,
    /// created_at_nanos counts the nanoseconds past `created_at_secs`.
    pub created_at_nanos: u32,
}

/// The descriptor of the active local revision.
pub open spec fn current_info(current: CurrentContent) -> ContentInfoView {
    ContentInfoView {
        content_id: current.content_id@,
        content_length: clamp_i64(current.blob_len as int) as i64,
    }
}

/// The failure of an active revision that is too large for peers.
pub open spec fn oversized_content() -> StatusView {
    failed_precondition("current content exceeds the peer transport limit"@)
}

/// Whether `outcome` describes the active revision `current` to peers.
pub open spec fn responder_rule(
    current: Option<CurrentContent>,
    limits: Limits,
    outcome: Result<Option<ContentInfo>, Status>,
) -> bool {
    match current {
        None => outcome matches Ok(content) && content is None,
        Some(content) => if current_info(content).content_length > limits.max_content() {
            fails_with(outcome, oversized_content())
        } else {
            outcome matches Ok(info) && content_view(info) == Some(current_info(content))
        },
    }
}

/// Build the summary of the active local revision that peers may see.
pub fn responder_content(current: &Option<CurrentContent>, limits: &Limits) -> (outcome: Result<
    Option<ContentInfo>,
    Status,
>)
    ensures
        responder_rule(*current, *limits, outcome),
{
    match current {
        None => Ok(None),
        Some(content) => {
            let content_length = i64_from_u64(content.blob_len);
            if content_length > limits.max_peer_content_bytes_i64() {
                return Err(
                    Status::failed_precondition("current content exceeds the peer transport limit"),
                );
            }
            Ok(
                Some(
                    ContentInfo {
                        content_id: bytes_copy(content.content_id.as_slice()),
                        content_length,
                    },
                ),
            )
        },
    }
}

/// Return the summary of the active local revision, which has to exist.
pub fn ensure_responder_content(current: &Option<CurrentContent>, limits: &Limits) -> (outcome:
    Result<ContentInfo, Status>)
    ensures
        match *current {
            None => fails_with(
                outcome,
                failed_precondition("local node has no current content to publish"@),
            ),
            Some(content) => if current_info(content).content_length > limits.max_content() {
                fails_with(outcome, oversized_content())
            } else {
                outcome matches Ok(info) && info@ == current_info(content)
            },
        },
{
    match responder_content(current, limits) {
        Err(status) => Err(status),
        Ok(Some(info)) => Ok(info),
        Ok(None) => Err(
            Status::failed_precondition("local node has no current content to publish"),
        ),
    }
}

/// Whether a peer's view of our revision agrees with ours.
pub open spec fn in_sync(
    ours: Option<ContentInfoView>,
    theirs: Option<ContentInfoView>,
) -> bool {
    match (ours, theirs) {
        (None, None) => true,
        (Some(our), Some(their)) => our.content_id == their.content_id,
        _ => false,
    }
}

/// Report whether our current local content matches the peer's advertised
/// copy of our revision.
pub fn our_content_synced_with_peer(
    our_content: &Option<ContentInfo>,
    peer_view_of_our_content: &Option<ContentInfo>,
) -> (synced: bool)
    ensures
        synced == in_sync(content_view(*our_content), content_view(*peer_view_of_our_content)),
{
    match (our_content, peer_view_of_our_content) {
        (None, None) => true,
        (Some(our), Some(their)) => bytes_eq(
            our.content_id.as_slice(),
            their.content_id.as_slice(),
        ),
        _ => false,
    }
}

/// Whether two optional descriptors name the same revision with the same length.
pub fn same_content(a: &Option<ContentInfo>, b: &Option<ContentInfo>) -> (same: bool)
    ensures
        same == (content_view(*a) == content_view(*b)),
{
    match (a, b) {
        (None, None) => true,
        (Some(x), Some(y)) => x.content_length == y.content_length && bytes_eq(
            x.content_id.as_slice(),
            y.content_id.as_slice(),
        ),
        _ => false,
    }
}

/// Why the owner may not publish, if anything stands against it.
pub open spec fn publication_block(
    recovery_mode_enabled: bool,
    projected_blob_len: Option<u64>,
    limit: int,
) -> Option<Seq<char>> {
    if recovery_mode_enabled {
        Some("recovery mode is enabled; run `bbcli init complete` before publishing"@)
    } else if projected_blob_len matches Some(len) && len > limit {
        Some("current content exceeds the fixed 4 MiB publication limit"@)
    } else {
        None
    }
}

/// Return the current owner-publication guard reason, if any.
pub fn publish_blocked_reason(
    recovery_mode_enabled: bool,
    projected_blob_len: Option<u64>,
    limits: &Limits,
) -> (reason: Option<String>)
    ensures
        match publication_block(
            recovery_mode_enabled,
            projected_blob_len,
            limits.max_peer_content_bytes as int,
        ) {
            None => reason is None,
            Some(text) => reason matches Some(r) && r@ == text,
        },
{
    if recovery_mode_enabled {
        return Some(
            "recovery mode is enabled; run `bbcli init complete` before publishing".to_owned(),
        );
    }
    if let Some(len) = projected_blob_len {
        if len > limits.max_peer_content_bytes as u64 {
            return Some("current content exceeds the fixed 4 MiB publication limit".to_owned());
        }
    }
    None
}

/// Reject one owner-originated publish attempt when safety guards are active.
pub fn ensure_owner_publication_allowed(
    recovery_mode_enabled: bool,
    projected_blob_len: Option<u64>,
    limits: &Limits,
) -> (outcome: Result<(), Status>)
    ensures
        match publication_block(
            recovery_mode_enabled,
            projected_blob_len,
            limits.max_peer_content_bytes as int,
        ) {
            None => outcome is Ok,
            Some(text) => fails_with(outcome, failed_precondition(text)),
        },
{
    match publish_blocked_reason(recovery_mode_enabled, projected_blob_len, limits) {
        None => Ok(()),
        Some(reason) => Err(Status::failed_precondition(reason.as_str())),
    }
}

/// Reject one local file mutation while recovery mode is enabled.
pub fn ensure_local_file_mutations_allowed(recovery_mode_enabled: bool) -> (outcome: Result<
    (),
    Status,
>)
    ensures
        if recovery_mode_enabled {
            fails_with(
                outcome,
                failed_precondition("local file edits are blocked while recovery mode is enabled"@),
            )
        } else {
            outcome is Ok
        },
{
    if recovery_mode_enabled {
        return Err(
            Status::failed_precondition(
                "local file edits are blocked while recovery mode is enabled",
            ),
        );
    }
    Ok(())
}

/// A content descriptor is acceptable exactly when its length is positive and
/// within the limit and its identifier has the right length.
pub proof fn law_acceptable_descriptors(
    content_info: &ContentInfo,
    limits: &Limits,
    outcome: Result<(), Status>,
)
    requires
        limits.max_peer_content_bytes <= i64::MAX,
        call_ensures(validate_peer_content_info, (content_info, limits), outcome),
    ensures
        outcome is Ok <==> {
            &&& 0 < content_info.content_length <= limits.max_peer_content_bytes
            &&& content_info.content_id@.len() == limits.content_id_len
        },
        outcome matches Err(status) ==> status.code is InvalidArgument,
{
}

/// Peers see the active revision by its own identifier and length, unless it
/// is larger than they exchange.
pub proof fn law_active_revision_is_shown_as_it_is(
    current: &Option<CurrentContent>,
    limits: &Limits,
    shown: Result<Option<ContentInfo>, Status>,
    ensured: Result<ContentInfo, Status>,
)
    requires
        limits.max_peer_content_bytes < i64::MAX,
        call_ensures(responder_content, (current, limits), shown),
        call_ensures(ensure_responder_content, (current, limits), ensured),
    ensures
        match *current {
            None => shown matches Ok(info) && info is None && ensured is Err,
            Some(content) => if content.blob_len <= limits.max_peer_content_bytes {
                &&& shown matches Ok(Some(info)) && info.content_id@ == content.content_id@
                    && info.content_length == content.blob_len
                &&& ensured matches Ok(info) && info.content_id@ == content.content_id@
                    && info.content_length == content.blob_len
            } else {
                shown is Err && ensured is Err
            },
        },
        ensured matches Err(status) ==> status.code is FailedPrecondition,
{
}

/// A peer is in sync exactly when both sides have no revision of ours, or both
/// have the one with the same identifier. The lengths play no part.
pub proof fn law_sync_compares_identifiers(
    ours: &Option<ContentInfo>,
    theirs: &Option<ContentInfo>,
    synced: bool,
)
    requires
        call_ensures(our_content_synced_with_peer, (ours, theirs), synced),
    ensures
        *ours is None && *theirs is None ==> synced,
        *ours is Some != *theirs is Some ==> !synced,
        *ours matches Some(our) ==> (*theirs matches Some(their) ==> (synced <==> our.content_id@
            == their.content_id@)),
{
}

/// The owner may publish exactly outside recovery mode and with content that
/// peers can take; the check fails for the very reason that is shown.
pub proof fn law_publication_needs_normal_mode_and_size(
    recovery_mode_enabled: bool,
    projected_blob_len: Option<u64>,
    limits: &Limits,
    reason: Option<String>,
    outcome: Result<(), Status>,
    edits: Result<(), Status>,
)
    requires
        call_ensures(
            publish_blocked_reason,
            (recovery_mode_enabled, projected_blob_len, limits),
            reason,
        ),
        call_ensures(
            ensure_owner_publication_allowed,
            (recovery_mode_enabled, projected_blob_len, limits),
            outcome,
        ),
        call_ensures(ensure_local_file_mutations_allowed, (recovery_mode_enabled,), edits),
    ensures
        reason is None <==> !recovery_mode_enabled && (projected_blob_len matches Some(len) ==> len
            <= limits.max_peer_content_bytes),
        outcome is Ok <==> reason is None,
        outcome matches Err(status) ==> status.code is FailedPrecondition && (reason matches Some(
            text,
        ) && status.message@ == text@),
        edits is Ok <==> !recovery_mode_enabled,
        edits matches Err(status) ==> status.code is FailedPrecondition,
{
}

/// Identifiers are acceptable by their length alone, and two descriptors are
/// the same exactly when identifier and length agree.
pub proof fn law_descriptors_are_compared_in_full(
    id: &[u8],
    limits: &Limits,
    outcome: Result<(), Status>,
    a: &Option<ContentInfo>,
    b: &Option<ContentInfo>,
    same: bool,
    largest: i64,
)
    requires
        call_ensures(validate_peer_content_id, (id, limits), outcome),
        call_ensures(same_content, (a, b), same),
        call_ensures(Limits::max_peer_content_bytes_i64, (limits,), largest),
    ensures
        outcome is Ok <==> id@.len() == limits.content_id_len,
        outcome matches Err(status) ==> status.code is InvalidArgument,
        same <==> (*a is None && *b is None) || (*a is Some && *b is Some && (*a)->0.content_id@
            == (*b)->0.content_id@ && (*a)->0.content_length == (*b)->0.content_length),
        limits.max_peer_content_bytes <= i64::MAX ==> largest == limits.max_peer_content_bytes,
        limits.max_peer_content_bytes > i64::MAX ==> largest == i64::MAX,
{
}

} // verus!

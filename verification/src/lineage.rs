//! Revisions from before this node was set up, and when they must be recovered.

use crate::arith::{clamp_i64, i64_from_u64};
use crate::content::content_id_hex;
use crate::model::{ContentInfo, ContentInfoView};
use crate::outside::hex_text;
use crate::status::{
    failed_precondition, fails_with, map_storage_error, storage_status, Code, Status, StatusView,
    StorageError,
};
use crate::text::{
    decimal, decimal_text, padded_decimal, padded_decimal_text, signed_decimal,
    signed_decimal_text,
};
use vstd::prelude::*;

verus! {

/// RevisionKey orders content revisions without their bodies.
#[derive(Clone, Copy, Debug, PartialEq, Eq, Structural)]
pub struct RevisionKey {
    /// sequence counts the revisions of one lineage.
    pub sequence: u64,
    /// created_at_secs is when the revision was made, in whole seconds.
    pub created_at_secs: u64,
    /// created_at_nanos counts the nanoseconds past `created_at_secs`.
    pub created_at_nanos: u32,
    /// metadata_ciphertext_len is the length of the revision's encrypted metadata.
    pub metadata_ciphertext_len: u32,
}

/// Whether key `a` ranks before key `b`: by sequence, then by time, then by
/// metadata length.
pub open spec fn key_before(a: RevisionKey, b: RevisionKey) -> bool {
    if a.sequence != b.sequence {
        a.sequence < b.sequence
    } else if a.created_at_secs != b.created_at_secs {
        a.created_at_secs < b.created_at_secs
    } else if a.created_at_nanos != b.created_at_nanos {
        a.created_at_nanos < b.created_at_nanos
    } else {
        a.metadata_ciphertext_len < b.metadata_ciphertext_len
    }
}

/// Report whether key `a` ranks before key `b`.
pub fn key_less(a: RevisionKey, b: RevisionKey) -> (less: bool)
    ensures
        less == key_before(a, b),
{
    if a.sequence != b.sequence {
        a.sequence < b.sequence
    } else if a.created_at_secs != b.created_at_secs {
        a.created_at_secs < b.created_at_secs
    } else if a.created_at_nanos != b.created_at_nanos {
        a.created_at_nanos < b.created_at_nanos
    } else {
        a.metadata_ciphertext_len < b.metadata_ciphertext_len
    }
}

/// Whether the revision with key `a` was made before the one with key `b`.
pub open spec fn made_before(a: RevisionKey, b: RevisionKey) -> bool {
    a.created_at_secs < b.created_at_secs || (a.created_at_secs == b.created_at_secs
        && a.created_at_nanos < b.created_at_nanos)
}

/// Whether the revision with key `a` is recovered before the one with key `b`:
/// in timestamp order, and by rank where they were made at the same time.
pub open spec fn recovered_before(a: RevisionKey, b: RevisionKey) -> bool {
    made_before(a, b) || (!made_before(b, a) && key_before(a, b))
}

/// Report whether the revision with key `a` is recovered before the one with key `b`.
pub fn recovered_less(a: RevisionKey, b: RevisionKey) -> (less: bool)
    ensures
        less == recovered_before(a, b),
{
    if a.created_at_secs != b.created_at_secs {
        return a.created_at_secs < b.created_at_secs;
    }
    if a.created_at_nanos != b.created_at_nanos {
        return a.created_at_nanos < b.created_at_nanos;
    }
    key_less(a, b)
}

/// Whether the point in time `a`, seconds and nanoseconds, lies before `b`.
pub open spec fn time_before(a: (i64, i64), b: (i64, i64)) -> bool {
    a.0 < b.0 || (a.0 == b.0 && a.1 < b.1)
}

/// Report whether the point in time `a` lies before `b`.
pub fn time_less(a: (i64, i64), b: (i64, i64)) -> (less: bool)
    ensures
        less == time_before(a, b),
{
    a.0 < b.0 || (a.0 == b.0 && a.1 < b.1)
}

/// LineageWindow bounds the revisions that are still to be recovered.
#[derive(Clone, Copy, Debug, PartialEq, Eq)]
pub struct LineageWindow {
    /// node_initialized_at is when this node was set up.
    pub node_initialized_at: (i64, i64),
    /// recovery_watermark is up to when everything has been recovered, if anything has.
    pub recovery_watermark: Option<(i64, i64)>,
}

/// Whether a revision made at `timestamp` is still to be recovered: it is
/// older than this node and newer than everything recovered so far.
pub open spec fn requires_recovery(timestamp: (i64, i64), window: LineageWindow) -> bool {
    &&& time_before(timestamp, window.node_initialized_at)
    &&& window.recovery_watermark matches Some(watermark) ==> time_before(watermark, timestamp)
}

/// Report whether one authenticated revision timestamp still requires recovery.
pub fn timestamp_requires_recovery(
    timestamp: (i64, i64),
    node_initialized_at: (i64, i64),
    recovery_watermark: Option<(i64, i64)>,
) -> (required: bool)
    ensures
        required == requires_recovery(
            timestamp,
            LineageWindow { node_initialized_at, recovery_watermark },
        ),
{
    if !time_less(timestamp, node_initialized_at) {
        return false;
    }
    match recovery_watermark {
        Some(watermark) => time_less(watermark, timestamp),
        None => true,
    }
}

/// ParsedRevision is one advertised revision with what its identifier encodes.
#[derive(Debug)]
pub struct ParsedRevision {
    /// content is the revision as advertised.
    pub content: ContentInfo,
    /// key is what the content identifier encodes, or why it encodes nothing.
    pub key: Result<RevisionKey, StorageError>,
}

/// PeerRevision is what a peer reports about our revisions.
#[derive(Debug)]
pub struct PeerRevision {
    /// latest_stored is the newest of our revisions that the peer can return.
    pub latest_stored: Option<ParsedRevision>,
    /// latest_known is the newest of our revisions that the peer knows of.
    pub latest_known: Option<ParsedRevision>,
    /// remaining_seconds is our score from the peer's perspective.
    pub remaining_seconds: i64,
    /// requester_pinned reports whether the peer pins us.
    pub requester_pinned: bool,
}

/// The content that a peer reports it can return.
pub open spec fn stored_view(revision: PeerRevision) -> Option<ContentInfoView> {
    match revision.latest_stored {
        Some(parsed) => Some(parsed.content@),
        None => None,
    }
}

/// The content that a peer reports it knows of.
pub open spec fn known_view(revision: PeerRevision) -> Option<ContentInfoView> {
    match revision.latest_known {
        Some(parsed) => Some(parsed.content@),
        None => None,
    }
}

/// Return the ordering key of one revision.
pub fn revision_key(revision: &ParsedRevision) -> (outcome: Result<RevisionKey, Status>)
    ensures
        match revision.key {
            Ok(key) => outcome matches Ok(found) && found == key,
            Err(error) => fails_with(outcome, storage_status(error)),
        },
{
    match &revision.key {
        Ok(key) => Ok(*key),
        Err(error) => Err(map_storage_error(error.clone())),
    }
}

/// When the revision with `key` was made.
pub open spec fn key_time(key: RevisionKey) -> (i64, i64) {
    (clamp_i64(key.created_at_secs as int) as i64, key.created_at_nanos as i64)
}

/// Return when the revision with `key` was made.
pub fn key_timestamp(key: RevisionKey) -> (timestamp: (i64, i64))
    ensures
        timestamp == key_time(key),
        timestamp.0 >= 0,
        0 <= timestamp.1 <= u32::MAX,
{
    (i64_from_u64(key.created_at_secs), key.created_at_nanos as i64)
}

/// Return the authenticated timestamp encoded in one content identifier.
pub fn content_info_timestamp(revision: &ParsedRevision) -> (outcome: Result<(i64, i64), Status>)
    ensures
        match revision.key {
            Ok(key) => outcome matches Ok(timestamp) && timestamp == key_time(key),
            Err(error) => fails_with(outcome, storage_status(error)),
        },
{
    match revision_key(revision) {
        Ok(key) => Ok(key_timestamp(key)),
        Err(status) => Err(status),
    }
}

/// Whether a revision with `key` is still to be recovered.
pub open spec fn in_window(key: RevisionKey, window: Option<LineageWindow>) -> bool {
    window matches Some(bounds) && requires_recovery(key_time(key), bounds)
}

/// Report whether one requester revision falls inside the older-lineage recovery window.
pub fn requester_revision_in_recovery_window(
    revision: &ParsedRevision,
    window: &Option<LineageWindow>,
) -> (outcome: Result<Option<(i64, i64)>, Status>)
    ensures
        match *window {
            None => outcome matches Ok(found) && found is None,
            Some(bounds) => match revision.key {
                Err(error) => fails_with(outcome, storage_status(error)),
                Ok(key) => outcome matches Ok(found) && found == if requires_recovery(
                    key_time(key),
                    bounds,
                ) {
                    Some(key_time(key))
                } else {
                    None
                },
            },
        },
{
    let bounds = match window {
        None => return Ok(None),
        Some(bounds) => bounds,
    };
    let timestamp = match content_info_timestamp(revision) {
        Ok(timestamp) => timestamp,
        Err(status) => return Err(status),
    };
    if timestamp_requires_recovery(
        timestamp,
        bounds.node_initialized_at,
        bounds.recovery_watermark,
    ) {
        return Ok(Some(timestamp));
    }
    Ok(None)
}

/// RecoverableRequesterRevisionSource explains which responder-side view
/// revealed an older requester revision.
#[derive(Clone, Copy, Debug, PartialEq, Eq, Structural)]
pub enum RecoverableRequesterRevisionSource {
    /// LatestStored means the peer can still serve the older requester revision.
    LatestStored,
    /// LatestKnown means the peer only knows the older requester revision exists.
    LatestKnown,
}

/// RecoverableRequesterRevision is one older requester revision that must be
/// recovered before the owner can safely publish.
#[derive(Debug)]
pub struct RecoverableRequesterRevision {
    /// content is the older requester revision metadata.
    pub content: ContentInfo,
    /// timestamp is the authenticated revision timestamp.
    pub timestamp: (i64, i64),
    /// source explains whether the peer can still serve the revision.
    pub source: RecoverableRequesterRevisionSource,
}

/// Verdict is what one advertised revision means for publication.
pub enum Verdict {
    /// Clear means that it does not stand in the way.
    Clear,
    /// Recover means that it has to be recovered first.
    Recover {
        /// content is the older revision.
        content: ContentInfoView,
        /// timestamp is when it was made.
        timestamp: (i64, i64),
        /// source tells which view revealed it.
        source: RecoverableRequesterRevisionSource,
    },
    /// Malformed means that its identifier encodes nothing.
    Malformed(StatusView),
}

/// What one advertised revision means for publication.
pub open spec fn verdict_on(
    revision: Option<ParsedRevision>,
    bounds: LineageWindow,
    source: RecoverableRequesterRevisionSource,
) -> Verdict {
    match revision {
        None => Verdict::Clear,
        Some(parsed) => match parsed.key {
            Err(error) => Verdict::Malformed(storage_status(error)),
            Ok(key) => if requires_recovery(key_time(key), bounds) {
                Verdict::Recover { content: parsed.content@, timestamp: key_time(key), source }
            } else {
                Verdict::Clear
            },
        },
    }
}

/// What a peer's report means for publication: the revision it can return
/// counts before the revision it only knows of.
pub open spec fn recovery_verdict(revision: PeerRevision, window: Option<LineageWindow>) -> Verdict {
    match window {
        None => Verdict::Clear,
        Some(bounds) => {
            let stored = verdict_on(
                revision.latest_stored,
                bounds,
                RecoverableRequesterRevisionSource::LatestStored,
            );
            if stored is Clear {
                verdict_on(
                    revision.latest_known,
                    bounds,
                    RecoverableRequesterRevisionSource::LatestKnown,
                )
            } else {
                stored
            }
        },
    }
}

/// Whether `outcome` reports `verdict`.
pub open spec fn reports_verdict(
    verdict: Verdict,
    outcome: Result<Option<RecoverableRequesterRevision>, Status>,
) -> bool {
    match verdict {
        Verdict::Clear => outcome matches Ok(found) && found is None,
        Verdict::Malformed(failure) => fails_with(outcome, failure),
        Verdict::Recover { content, timestamp, source } => outcome matches Ok(Some(found))
            && found.content@ == content && found.timestamp == timestamp && found.source == source,
    }
}

/// Judge one advertised revision.
fn judge_revision(
    revision: &Option<ParsedRevision>,
    bounds: &LineageWindow,
    source: RecoverableRequesterRevisionSource,
) -> (outcome: Result<Option<RecoverableRequesterRevision>, Status>)
    ensures
        reports_verdict(verdict_on(*revision, *bounds, source), outcome),
{
    match revision {
        None => Ok(None),
        Some(parsed) => {
            let timestamp = match content_info_timestamp(parsed) {
                Ok(timestamp) => timestamp,
                Err(status) => return Err(status),
            };
            if timestamp_requires_recovery(
                timestamp,
                bounds.node_initialized_at,
                bounds.recovery_watermark,
            ) {
                return Ok(
                    Some(
                        RecoverableRequesterRevision {
                            content: parsed.content.clone(),
                            timestamp,
                            source,
                        },
                    ),
                );
            }
            Ok(None)
        },
    }
}

/// Select one requester revision from a peer response that must be recovered
/// before owner-side publication may proceed.
pub fn recoverable_requester_revision(
    revision: &PeerRevision,
    window: &Option<LineageWindow>,
) -> (outcome: Result<Option<RecoverableRequesterRevision>, Status>)
    ensures
        reports_verdict(recovery_verdict(*revision, *window), outcome),
{
    let bounds = match window {
        None => return Ok(None),
        Some(bounds) => bounds,
    };
    match judge_revision(
        &revision.latest_stored,
        bounds,
        RecoverableRequesterRevisionSource::LatestStored,
    ) {
        Ok(None) => judge_revision(
            &revision.latest_known,
            bounds,
            RecoverableRequesterRevisionSource::LatestKnown,
        ),
        other => other,
    }
}

/// Nanoseconds with at least nine digits.
pub open spec fn nanos_text(nanos: nat) -> Seq<char> {
    if nanos < 1_000_000_000 {
        padded_decimal_text(nanos, 9)
    } else {
        decimal_text(nanos)
    }
}

/// How a revision came to light, as text.
pub open spec fn source_text(source: RecoverableRequesterRevisionSource) -> Seq<char> {
    match source {
        RecoverableRequesterRevisionSource::LatestStored => "peer still stores an older requester revision"@,
        RecoverableRequesterRevisionSource::LatestKnown => "peer still knows an older requester revision"@,
    }
}

/// The message that refuses publication while an older revision is to be recovered.
pub open spec fn recovery_message(
    peer_onion: Seq<char>,
    content_id: Seq<u8>,
    timestamp: (i64, i64),
    source: RecoverableRequesterRevisionSource,
) -> Seq<char> {
    source_text(source)
        + " from before this node was initialized; recover it before publishing to "@ + peer_onion
        + " (content_id="@ + hex_text(content_id) + ", timestamp="@ + signed_decimal_text(
        timestamp.0 as int,
    ) + "."@ + nanos_text(timestamp.1 as nat) + ")"@
}

/// Why a peer's report refuses publication, if it does.
pub open spec fn publication_refusal(
    peer_onion: Seq<char>,
    revision: PeerRevision,
    window: Option<LineageWindow>,
) -> Option<StatusView> {
    match recovery_verdict(revision, window) {
        Verdict::Clear => None,
        Verdict::Malformed(failure) => Some(failure),
        Verdict::Recover { content, timestamp, source } => Some(
            failed_precondition(recovery_message(peer_onion, content.content_id, timestamp, source)),
        ),
    }
}

/// Reject owner-side publication until an older requester lineage has been recovered.
pub fn ensure_peer_revision_does_not_require_recovery(
    peer_onion: &str,
    revision: &PeerRevision,
    window: &Option<LineageWindow>,
) -> (outcome: Result<(), Status>)
    ensures
        match publication_refusal(peer_onion@, *revision, *window) {
            None => outcome is Ok,
            Some(failure) => fails_with(outcome, failure),
        },
{
    let found = match recoverable_requester_revision(revision, window) {
        Err(status) => return Err(status),
        Ok(None) => return Ok(()),
        Ok(Some(found)) => found,
    };
    let mut message = match found.source {
        RecoverableRequesterRevisionSource::LatestStored => "peer still stores an older requester revision".to_owned(),
        RecoverableRequesterRevisionSource::LatestKnown => "peer still knows an older requester revision".to_owned(),
    };
    message.append(" from before this node was initialized; recover it before publishing to ");
    message.append(peer_onion);
    message.append(" (content_id=");
    message.append(content_id_hex(found.content.content_id.as_slice()).as_str());
    message.append(", timestamp=");
    message.append(signed_decimal(found.timestamp.0).as_str());
    message.append(".");
    let nanos = found.timestamp.1 as u64;
    if nanos < 1_000_000_000 {
        message.append(padded_decimal(nanos, 9).as_str());
    } else {
        message.append(decimal(nanos).as_str());
    }
    message.append(")");
    Err(Status::new(Code::FailedPrecondition, message))
}

/// Nothing that was made at or after this node's setup, and nothing at or
/// below the recovery watermark, is ever recovered again.
pub proof fn law_recovery_window_bounds(timestamp: (i64, i64), window: LineageWindow)
    ensures
        !time_before(timestamp, window.node_initialized_at) ==> !requires_recovery(
            timestamp,
            window,
        ),
        window.recovery_watermark matches Some(watermark) && !time_before(watermark, timestamp)
            ==> !requires_recovery(timestamp, window),
{
}

/// Advancing the watermark to a recovered revision takes exactly that revision
/// and everything older out of the window.
pub proof fn law_watermark_closes_window(
    timestamp: (i64, i64),
    recovered: (i64, i64),
    window: LineageWindow,
)
    requires
        requires_recovery(recovered, window),
    ensures
        requires_recovery(
            timestamp,
            LineageWindow {
                node_initialized_at: window.node_initialized_at,
                recovery_watermark: Some(recovered),
            },
        ) <==> requires_recovery(timestamp, window) && time_before(recovered, timestamp),
{
}

/// Without a lineage boundary nothing stands in the way of publication.
pub proof fn law_no_boundary_no_recovery(peer_onion: Seq<char>, revision: PeerRevision)
    ensures
        publication_refusal(peer_onion, revision, None) is None,
{
}

/// Whether a readable revision was made before this node was set up and after
/// everything that has been recovered so far.
pub open spec fn shows_older(
    revision: Option<ParsedRevision>,
    window: Option<LineageWindow>,
) -> bool {
    &&& revision matches Some(parsed)
    &&& parsed.key matches Ok(key)
    &&& window matches Some(bounds)
    &&& is_earlier(made_at(key), bounds.node_initialized_at)
    &&& bounds.recovery_watermark matches Some(watermark) ==> is_earlier(watermark, made_at(key))
}

/// Seconds and nanoseconds at which the revision with `key` was made; seconds
/// that do not fit count as the last ones that do.
pub open spec fn made_at(key: RevisionKey) -> (i64, i64) {
    (
        if key.created_at_secs <= i64::MAX {
            key.created_at_secs as i64
        } else {
            i64::MAX
        },
        key.created_at_nanos as i64,
    )
}

/// Whether the seconds come earlier, or the nanoseconds of the same second do.
pub open spec fn is_earlier(a: (i64, i64), b: (i64, i64)) -> bool {
    if a.0 == b.0 {
        a.1 < b.1
    } else {
        a.0 < b.0
    }
}

/// A time needs recovery exactly when it comes before this node's setup and
/// after the watermark, if there is one: neither bound itself does.
pub proof fn law_window_lies_between_watermark_and_setup(
    timestamp: (i64, i64),
    node_initialized_at: (i64, i64),
    recovery_watermark: Option<(i64, i64)>,
    required: bool,
)
    requires
        call_ensures(
            timestamp_requires_recovery,
            (timestamp, node_initialized_at, recovery_watermark),
            required,
        ),
    ensures
        required <==> {
            &&& timestamp.0 < node_initialized_at.0 || (timestamp.0 == node_initialized_at.0
                && timestamp.1 < node_initialized_at.1)
            &&& recovery_watermark matches Some(watermark) ==> (watermark.0 < timestamp.0 || (
            watermark.0 == timestamp.0 && watermark.1 < timestamp.1))
        },
        timestamp == node_initialized_at ==> !required,
        recovery_watermark == Some(timestamp) ==> !required,
{
}

/// Keys compare by sequence first, then by seconds, nanoseconds and metadata
/// length; no key ranks before itself.
pub proof fn law_keys_rank_by_sequence_then_time(a: RevisionKey, b: RevisionKey, less: bool)
    requires
        call_ensures(key_less, (a, b), less),
    ensures
        a.sequence < b.sequence ==> less,
        b.sequence < a.sequence ==> !less,
        a.sequence == b.sequence && a.created_at_secs < b.created_at_secs ==> less,
        a.sequence == b.sequence && b.created_at_secs < a.created_at_secs ==> !less,
        a.sequence == b.sequence && a.created_at_secs == b.created_at_secs ==> {
            &&& a.created_at_nanos < b.created_at_nanos ==> less
            &&& b.created_at_nanos < a.created_at_nanos ==> !less
            &&& a.created_at_nanos == b.created_at_nanos ==> (less <==> a.metadata_ciphertext_len
                < b.metadata_ciphertext_len)
        },
{
}

/// Recovery goes by time first, whatever the sequences are.
pub proof fn law_recovery_goes_by_time_first(a: RevisionKey, b: RevisionKey, less: bool)
    requires
        call_ensures(recovered_less, (a, b), less),
    ensures
        a.created_at_secs < b.created_at_secs ==> less,
        b.created_at_secs < a.created_at_secs ==> !less,
        a.created_at_secs == b.created_at_secs && a.created_at_nanos < b.created_at_nanos ==> less,
        a.created_at_secs == b.created_at_secs && b.created_at_nanos < a.created_at_nanos ==> !less,
        a.created_at_secs == b.created_at_secs && a.created_at_nanos == b.created_at_nanos ==> {
            &&& a.sequence < b.sequence ==> less
            &&& b.sequence < a.sequence ==> !less
            &&& a.sequence == b.sequence ==> (less <==> a.metadata_ciphertext_len
                < b.metadata_ciphertext_len)
        },
{
}

/// A revision's time is what its identifier encodes.
pub proof fn law_revision_time_is_encoded(key: RevisionKey, timestamp: (i64, i64))
    requires
        call_ensures(key_timestamp, (key,), timestamp),
    ensures
        timestamp.1 == key.created_at_nanos,
        key.created_at_secs <= i64::MAX ==> timestamp.0 == key.created_at_secs,
        key.created_at_secs > i64::MAX ==> timestamp.0 == i64::MAX,
{
}

/// A readable report stands in the way of publication exactly when one of its
/// two revisions is older: first the one that the peer can return, then the one
/// that it knows of.
pub proof fn law_verdict_finds_older_revisions(
    revision: PeerRevision,
    window: Option<LineageWindow>,
)
    ensures
        shows_older(revision.latest_stored, window) ==> (recovery_verdict(
            revision,
            window,
        ) matches Verdict::Recover { content, timestamp, source } && content.content_id
            == revision.latest_stored->0.content.content_id@ && timestamp == made_at(
            revision.latest_stored->0.key->Ok_0,
        ) && source == RecoverableRequesterRevisionSource::LatestStored),
        !shows_older(revision.latest_stored, window) && shows_older(revision.latest_known, window)
            && !(revision.latest_stored matches Some(stored) && stored.key is Err) ==> (
        recovery_verdict(
            revision,
            window,
        ) matches Verdict::Recover { content, timestamp, source } && content.content_id
            == revision.latest_known->0.content.content_id@ && timestamp == made_at(
            revision.latest_known->0.key->Ok_0,
        ) && source == RecoverableRequesterRevisionSource::LatestKnown),
        recovery_verdict(revision, window) is Recover ==> shows_older(
            revision.latest_stored,
            window,
        ) || shows_older(revision.latest_known, window),
        recovery_verdict(revision, window) is Malformed <==> {
            &&& window is Some
            &&& !shows_older(revision.latest_stored, window)
            &&& (revision.latest_stored matches Some(stored) && stored.key is Err) || (
            revision.latest_known matches Some(known) && known.key is Err)
        },
        window is None ==> recovery_verdict(revision, window) is Clear,
{
}

/// What is selected for recovery, and what refuses publication, is exactly what
/// a readable report shows as older.
pub proof fn law_publication_waits_for_older_revisions(
    peer_onion: &str,
    revision: &PeerRevision,
    window: &Option<LineageWindow>,
    selected: Result<Option<RecoverableRequesterRevision>, Status>,
    checked: Result<(), Status>,
)
    requires
        call_ensures(recoverable_requester_revision, (revision, window), selected),
        call_ensures(
            ensure_peer_revision_does_not_require_recovery,
            (peer_onion, revision, window),
            checked,
        ),
    ensures
        checked is Ok ==> !shows_older(revision.latest_stored, *window) && !shows_older(
            revision.latest_known,
            *window,
        ),
        selected matches Ok(found) ==> (found is Some <==> shows_older(
            revision.latest_stored,
            *window,
        ) || shows_older(revision.latest_known, *window)),
        checked is Ok <==> (selected matches Ok(found) && found is None),
        shows_older(revision.latest_stored, *window) ==> (selected matches Ok(Some(found))
            && found.content.content_id@ == revision.latest_stored->0.content.content_id@
            && found.source == RecoverableRequesterRevisionSource::LatestStored),
        selected matches Ok(Some(found)) ==> (found.source
            == RecoverableRequesterRevisionSource::LatestKnown ==> found.content.content_id@
            == revision.latest_known->0.content.content_id@ && !shows_older(
            revision.latest_stored,
            *window,
        )),
        selected matches Ok(Some(_)) ==> (checked matches Err(status) && status.code
            == Code::FailedPrecondition),
{
    law_verdict_finds_older_revisions(*revision, *window);
}

/// A revision is in the window exactly when it was made before this node was set
/// up and after everything recovered so far, and then its own time is told.
/// Where nothing is to be recovered no identifier is even looked at; elsewhere a
/// malformed one is an error.
pub proof fn law_window_tells_the_time_of_what_it_holds(
    revision: &ParsedRevision,
    window: &Option<LineageWindow>,
    outcome: Result<Option<(i64, i64)>, Status>,
    key: Result<RevisionKey, Status>,
    time: Result<(i64, i64), Status>,
)
    requires
        call_ensures(requester_revision_in_recovery_window, (revision, window), outcome),
        call_ensures(revision_key, (revision,), key),
        call_ensures(content_info_timestamp, (revision,), time),
    ensures
        outcome is Err <==> *window is Some && revision.key is Err,
        key is Ok <==> revision.key is Ok,
        key matches Ok(found) ==> found == revision.key->Ok_0,
        time is Ok <==> revision.key is Ok,
        time matches Ok(at) ==> {
            let made = revision.key->Ok_0;
            &&& made.created_at_secs <= i64::MAX ==> at.0 == made.created_at_secs
            &&& at.1 == made.created_at_nanos
        },
        *window is None ==> (outcome matches Ok(found) && found is None),
        outcome matches Ok(Some(at)) ==> time == Ok::<(i64, i64), Status>(at),
        *window matches Some(bounds) ==> (time matches Ok(at) ==> {
            let start = bounds.node_initialized_at;
            let young = at.0 < start.0 || at.0 == start.0 && at.1 < start.1;
            let fresh = bounds.recovery_watermark matches Some(mark) ==> mark.0 < at.0 || mark.0
                == at.0 && mark.1 < at.1;
            outcome matches Ok(found) && (found is Some <==> young && fresh)
        }),
{
}

/// Of two points in time one lies before the other by its seconds, then by its
/// nanoseconds, and never both ways.
pub proof fn law_times_stand_in_order(a: (i64, i64), b: (i64, i64), ab: bool, ba: bool)
    requires
        call_ensures(time_less, (a, b), ab),
        call_ensures(time_less, (b, a), ba),
    ensures
        a.0 < b.0 ==> ab && !ba,
        a.0 == b.0 && a.1 < b.1 ==> ab && !ba,
        a == b ==> !ab && !ba,
        !ab && !ba ==> a == b,
{
}

/// A refusal to publish names the peer, the revision to recover and when that
/// was made.
pub proof fn law_refusal_names_peer_revision_and_time(
    peer_onion: &str,
    revision: &PeerRevision,
    window: &Option<LineageWindow>,
    found: RecoverableRequesterRevision,
    status: Status,
    id: &[u8],
    id_text: String,
    secs_text: String,
    nanos_digits: String,
)
    requires
        call_ensures(recoverable_requester_revision, (revision, window), Ok(Some(found))),
        call_ensures(
            ensure_peer_revision_does_not_require_recovery,
            (peer_onion, revision, window),
            Err(status),
        ),
        id@ == found.content.content_id@,
        call_ensures(crate::content::content_id_hex, (id,), id_text),
        call_ensures(crate::text::signed_decimal, (found.timestamp.0,), secs_text),
        0 <= found.timestamp.1 < 1_000_000_000,
        call_ensures(crate::text::padded_decimal, (found.timestamp.1 as u64, 9u64), nanos_digits),
    ensures
        exists|start: Seq<char>|
            status.message@ == #[trigger] (start + peer_onion@) + " (content_id="@ + id_text@
                + ", timestamp="@ + secs_text@ + "."@ + nanos_digits@ + ")"@,
{
    let start = source_text(found.source)
        + " from before this node was initialized; recover it before publishing to "@;
    assert(status.message@ == (start + peer_onion@) + " (content_id="@ + id_text@ + ", timestamp="@
        + secs_text@ + "."@ + nanos_digits@ + ")"@);
}

} // verus!

//! Verifying that a peer still holds our revision.

use crate::arith::{clamp_i64, i64_from_usize};
use crate::content::{responder_content, responder_rule, CurrentContent, Limits};
use crate::lineage::{stored_view, PeerRevision};
use crate::model::{content_view, peer_views, ContentInfo, ContentInfoView, Peer, PeerView};
use crate::outside::sha256;
use crate::publish::PeerStorageOperationState;
use crate::records::{find_peer, is_tracked_peer};
use crate::status::{
    fails_with, invalid_onion, invalid_onion_error, no_store, no_store_error, self_peer,
    self_peer_error, Status,
};
use crate::text::{bytes_copy, bytes_eq, text_eq};
use crate::transfer::{
    judge_sample, sample_passes, sample_range, sample_section, sample_seed, DownloadRequest,
    DownloadResponse,
};
use vstd::prelude::*;

verus! {

/// VerifyPeerStorageUpdate is one progress report of a verification.
#[derive(Clone, Copy, Debug, PartialEq, Eq, Structural)]
pub struct VerifyPeerStorageUpdate {
    /// state tells how far the verification has come.
    pub state: PeerStorageOperationState,
    /// success reports whether the verification has succeeded.
    pub success: bool,
    /// our_content_length is the length of our revision.
    pub our_content_length: i64,
    /// our_content_section_offset is where the sample begins.
    pub our_content_section_offset: i64,
    /// our_content_section_length is how long the sample is.
    pub our_content_section_length: i64,
}

/// VerificationNeed tells what a peer's report leaves to verify.
#[derive(Clone, Copy, Debug, PartialEq, Eq, Structural)]
pub enum VerificationNeed {
    /// Nothing is left to verify because we have no revision.
    Nothing,
    /// Missing means that the peer does not report our revision.
    Missing,
    /// Sample means that the peer's copy has to be sampled.
    Sample,
}

/// What a peer's report leaves to verify.
pub open spec fn need_of(
    ours: Option<ContentInfoView>,
    stored: Option<ContentInfoView>,
) -> VerificationNeed {
    match ours {
        None => VerificationNeed::Nothing,
        Some(content) => if stored matches Some(held) && held.content_id == content.content_id {
            VerificationNeed::Sample
        } else {
            VerificationNeed::Missing
        },
    }
}

/// Decide what a peer's report leaves to verify.
pub fn verification_need(our_content: &Option<ContentInfo>, revision: &PeerRevision) -> (need:
    VerificationNeed)
    ensures
        need == need_of(content_view(*our_content), stored_view(*revision)),
{
    match our_content {
        None => VerificationNeed::Nothing,
        Some(content) => match &revision.latest_stored {
            Some(stored) => if bytes_eq(
                stored.content.content_id.as_slice(),
                content.content_id.as_slice(),
            ) {
                VerificationNeed::Sample
            } else {
                VerificationNeed::Missing
            },
            None => VerificationNeed::Missing,
        },
    }
}

/// SampleRequest is one section of our revision to ask a peer for.
#[derive(Debug)]
pub struct SampleRequest {
    /// offset is where the section begins.
    pub offset: usize,
    /// length is how long it is.
    pub length: usize,
    /// request is what the peer is asked.
    pub request: DownloadRequest,
}

/// Choose the section of our revision to ask a peer for.
fn sample_request(
    peer_public_key: &[u8],
    content_id: &[u8],
    now_secs: u64,
    blob_len: usize,
) -> (sample: SampleRequest)
    ensures
        (sample.offset as int, sample.length as int) == sample_range(
            sha256(sample_seed(peer_public_key@, content_id@, now_secs)),
            blob_len,
        ),
        sample.offset + sample.length <= blob_len,
        sample.request.content_id@ == content_id@,
        sample.request.offset == clamp_i64(sample.offset as int),
        sample.request.length == clamp_i64(sample.length as int),
        sample.request.reference_content_id@.len() == 0,
{
    let range = sample_section(peer_public_key, content_id, now_secs, blob_len);
    let reference_content_id: Vec<u8> = Vec::new();
    SampleRequest {
        offset: range.0,
        length: range.1,
        request: DownloadRequest {
            content_id: bytes_copy(content_id),
            offset: i64_from_usize(range.0),
            length: i64_from_usize(range.1),
            reference_content_id,
        },
    }
}

/// VerificationFinding is what one verification found out.
#[derive(Debug)]
pub enum VerificationFinding {
    /// NoLocalContent means that there was nothing to verify.
    NoLocalContent,
    /// MissingContent means that the peer does not report our revision.
    MissingContent {
        /// our_content_length is the length of our revision.
        our_content_length: i64,
    },
    /// Sampled means that the peer's copy was sampled.
    Sampled {
        /// content is our revision.
        content: ContentInfo,
        /// offset is where the sample began.
        offset: usize,
        /// length is how long it was.
        length: usize,
        /// passed reports whether the peer returned our bytes.
        passed: bool,
    },
}

/// Judge a peer's answer to a sample request.
fn sampled_finding(
    content: ContentInfo,
    local_blob: &[u8],
    sample: &SampleRequest,
    response: &DownloadResponse,
) -> (finding: VerificationFinding)
    requires
        sample.offset + sample.length <= local_blob@.len(),
    ensures
        finding == (VerificationFinding::Sampled {
            content,
            offset: sample.offset,
            length: sample.length,
            passed: sample_passes(
                local_blob@,
                sample.offset as int,
                sample.length as int,
                *response,
            ),
        }),
{
    let passed = judge_sample(local_blob, sample.offset, sample.length, response);
    VerificationFinding::Sampled { content, offset: sample.offset, length: sample.length, passed }
}

/// VerificationEffects is what a verification changes on record for a tracked peer.
#[derive(Debug)]
pub struct VerificationEffects {
    /// verified_content_id is our revision that the peer has proved to hold, if any.
    pub verified_content_id: Option<Vec<u8>>,
    /// passed reports whether the peer earns or loses score.
    pub passed: bool,
}

/// VerificationConclusion is how one verification ends.
#[derive(Debug)]
pub struct VerificationConclusion {
    /// updates lists the progress reports.
    pub updates: Vec<VerifyPeerStorageUpdate>,
    /// effects is what changes on record, for a tracked peer.
    pub effects: Option<VerificationEffects>,
}

/// A progress report before anything was sampled.
pub open spec fn early_update(state: PeerStorageOperationState) -> VerifyPeerStorageUpdate {
    VerifyPeerStorageUpdate {
        state,
        success: false,
        our_content_length: 0,
        our_content_section_offset: 0,
        our_content_section_length: 0,
    }
}

/// The last progress report on a finding.
pub open spec fn last_update(finding: VerificationFinding) -> VerifyPeerStorageUpdate {
    match finding {
        VerificationFinding::NoLocalContent => VerifyPeerStorageUpdate {
            success: true,
            ..early_update(PeerStorageOperationState::Completed)
        },
        VerificationFinding::MissingContent { our_content_length } => VerifyPeerStorageUpdate {
            our_content_length,
            ..early_update(PeerStorageOperationState::PeerMissingOurContent)
        },
        VerificationFinding::Sampled { content, offset, length, passed } => VerifyPeerStorageUpdate {
            state: if passed {
                PeerStorageOperationState::Completed
            } else {
                PeerStorageOperationState::InvalidContentReturned
            },
            success: passed,
            our_content_length: content.content_length,
            our_content_section_offset: clamp_i64(offset as int) as i64,
            our_content_section_length: clamp_i64(length as int) as i64,
        },
    }
}

/// Whether a finding speaks for the peer.
pub open spec fn finding_passes(finding: VerificationFinding) -> bool {
    last_update(finding).success
}

/// Our revision that the peer has proved to hold by a finding, if any.
pub open spec fn proved_content(finding: VerificationFinding) -> Option<Seq<u8>> {
    match finding {
        VerificationFinding::Sampled { content, passed, .. } => if passed {
            Some(content@.content_id)
        } else {
            None
        },
        _ => None,
    }
}

/// The content of optional bytes.
pub open spec fn bytes_view(bytes: Option<Vec<u8>>) -> Option<Seq<u8>> {
    match bytes {
        Some(content) => Some(content@),
        None => None,
    }
}

/// Whether `effects` is what a finding changes on record.
pub open spec fn effects_of(
    finding: VerificationFinding,
    is_known: bool,
    effects: Option<VerificationEffects>,
) -> bool {
    match effects {
        None => !is_known,
        Some(change) => is_known && bytes_view(change.verified_content_id) == proved_content(finding)
            && change.passed == finding_passes(finding),
    }
}

/// Build a progress report before anything was sampled.
fn early(state: PeerStorageOperationState) -> (update: VerifyPeerStorageUpdate)
    ensures
        update == early_update(state),
{
    VerifyPeerStorageUpdate {
        state,
        success: false,
        our_content_length: 0,
        our_content_section_offset: 0,
        our_content_section_length: 0,
    }
}

/// VerificationPhase tells what one attempt waits for.
#[derive(Clone, Copy, Debug, PartialEq, Eq, Structural)]
pub enum VerificationPhase {
    /// Connect waits for a connection.
    Connect,
    /// Fetch waits for the peer's report.
    Fetch,
    /// Record waits until the report is on record.
    Record,
    /// Inspect waits for our active revision.
    Inspect,
    /// Read waits for the bytes of our active revision.
    Read,
    /// Download waits for the sampled section.
    Download,
    /// Score waits until the outcome is on record.
    Score,
    /// Exchange waits until known peers are exchanged.
    Exchange,
    /// Done waits for nothing.
    Done,
}

/// VerificationAction is what has to be done next.
#[derive(Debug)]
pub enum VerificationAction {
    /// Connect dials the peer.
    Connect {
        /// track_peer reports whether the contact counts for the records.
        track_peer: bool,
    },
    /// FetchRevision asks the peer what it holds.
    FetchRevision,
    /// RecordReport puts the peer's report on record.
    RecordReport,
    /// InspectContent looks up our active revision.
    InspectContent,
    /// ReadBlob reads the bytes of our active revision.
    ReadBlob,
    /// Download asks the peer for the sampled section.
    Download(DownloadRequest),
    /// RecordOutcome puts the outcome on record.
    RecordOutcome(VerificationEffects),
    /// ExchangePeers exchanges known peers.
    ExchangePeers,
    /// Finish reports the outcome.
    Finish,
}

/// VerificationAttempt is one attempt to verify one peer.
#[derive(Debug)]
pub struct VerificationAttempt {
    peer_public_key: Vec<u8>,
    peer_was_tracked: bool,
    phase: VerificationPhase,
    revision: Option<PeerRevision>,
    our_content: Option<ContentInfo>,
    local_blob: Vec<u8>,
    sample: Option<SampleRequest>,
    finding: Option<VerificationFinding>,
}

/// VerificationView is the mathematical content of a `VerificationAttempt`.
pub struct VerificationView {
    /// peer_public_key identifies the peer.
    pub peer_public_key: Seq<u8>,
    /// peer_was_tracked reports whether the peer was on record when the
    /// attempt began.
    pub peer_was_tracked: bool,
    /// phase is how far the attempt has come.
    pub phase: VerificationPhase,
    /// revision is the peer's report.
    pub revision: Option<PeerRevision>,
    /// our_content is our active revision, once it is to be sampled.
    pub our_content: Option<ContentInfoView>,
    /// local_blob holds the bytes of our active revision.
    pub local_blob: Seq<u8>,
    /// sample is where the sampled section begins and how long it is.
    pub sample: Option<(int, int)>,
    /// finding is what the attempt found out.
    pub finding: Option<VerificationFinding>,
}

impl View for VerificationAttempt {
    type V = VerificationView;

    closed spec fn view(&self) -> VerificationView {
        VerificationView {
            peer_public_key: self.peer_public_key@,
            peer_was_tracked: self.peer_was_tracked,
            phase: self.phase,
            revision: self.revision,
            our_content: content_view(self.our_content),
            local_blob: self.local_blob@,
            sample: match self.sample {
                Some(sample) => Some((sample.offset as int, sample.length as int)),
                None => None,
            },
            finding: self.finding,
        }
    }
}

impl VerificationView {
    /// Whether a report is at hand wherever one is needed, a revision and a
    /// section of it wherever they are sampled, and a finding wherever the
    /// attempt is over. Only the outcome of a tracked peer goes on record.
    pub open spec fn valid(self) -> bool {
        &&& self.phase == VerificationPhase::Record || self.phase == VerificationPhase::Inspect
            ==> self.revision is Some
        &&& self.phase == VerificationPhase::Record ==> self.peer_was_tracked
        &&& self.phase == VerificationPhase::Read || self.phase == VerificationPhase::Download
            ==> self.our_content is Some
        &&& self.phase == VerificationPhase::Download ==> self.sample is Some && 0
            <= (self.sample->0).0 && 0 <= (self.sample->0).1 && (self.sample->0).0 + (self.sample->0).1
            <= self.local_blob.len()
        &&& self.phase == VerificationPhase::Score || self.phase == VerificationPhase::Exchange
            ==> self.peer_was_tracked && self.finding is Some
        &&& self.phase == VerificationPhase::Done ==> self.finding is Some
    }

    /// The attempt in another phase.
    pub open spec fn at(self, phase: VerificationPhase) -> VerificationView {
        VerificationView { phase, ..self }
    }

    /// The attempt once it has found something out.
    pub open spec fn concluding(self, finding: VerificationFinding) -> VerificationView {
        VerificationView {
            finding: Some(finding),
            phase: if self.peer_was_tracked {
                VerificationPhase::Score
            } else {
                VerificationPhase::Done
            },
            ..self
        }
    }
}

/// The attempt before anything has been done.
pub open spec fn fresh_verification(key: Seq<u8>, peer_was_tracked: bool) -> VerificationView {
    VerificationView {
        peer_public_key: key,
        peer_was_tracked,
        phase: VerificationPhase::Connect,
        revision: None,
        our_content: None,
        local_blob: Seq::<u8>::empty(),
        sample: None,
        finding: None,
    }
}

/// Whether `outcome` begins to verify a peer.
pub open spec fn begins_verification(
    peer_onion: Seq<char>,
    own_onion: Seq<char>,
    key: Option<Vec<u8>>,
    peers: Option<Seq<PeerView>>,
    outcome: Result<VerificationAttempt, Status>,
) -> bool {
    if peer_onion == own_onion {
        fails_with(outcome, self_peer())
    } else {
        match key {
            None => fails_with(outcome, invalid_onion()),
            Some(public_key) => match peers {
                None => fails_with(outcome, no_store()),
                Some(records) => outcome matches Ok(attempt) && attempt@ == fresh_verification(
                    public_key@,
                    find_peer(records, public_key@) is Some,
                ) && attempt.wf(),
            },
        }
    }
}

/// Whether `request` asks for the section of the revision `id` that begins at
/// `sample.0` and is `sample.1` bytes long.
pub open spec fn asks_for(request: DownloadRequest, id: Seq<u8>, sample: (int, int)) -> bool {
    &&& request.content_id@ == id
    &&& request.offset == clamp_i64(sample.0)
    &&& request.length == clamp_i64(sample.1)
    &&& request.reference_content_id@.len() == 0
}

/// Whether `action` is what an attempt has to do next.
pub open spec fn verifies_next(attempt: VerificationView, action: VerificationAction) -> bool {
    match attempt.phase {
        VerificationPhase::Connect => action matches VerificationAction::Connect { track_peer }
            && track_peer == attempt.peer_was_tracked,
        VerificationPhase::Fetch => action is FetchRevision,
        VerificationPhase::Record => action is RecordReport,
        VerificationPhase::Inspect => action is InspectContent,
        VerificationPhase::Read => action is ReadBlob,
        VerificationPhase::Download => action matches VerificationAction::Download(request)
            && asks_for(request, attempt.our_content->0.content_id, attempt.sample->0),
        VerificationPhase::Score => action matches VerificationAction::RecordOutcome(effects)
            && effects_of(attempt.finding->0, true, Some(effects)),
        VerificationPhase::Exchange => action is ExchangePeers,
        VerificationPhase::Done => action is Finish,
    }
}

/// The attempt once our active revision is known.
pub open spec fn inspected(attempt: VerificationView, ours: Option<ContentInfo>) -> VerificationView {
    match need_of(content_view(ours), stored_view(attempt.revision->0)) {
        VerificationNeed::Nothing => attempt.concluding(VerificationFinding::NoLocalContent),
        VerificationNeed::Missing => attempt.concluding(
            VerificationFinding::MissingContent { our_content_length: ours->0.content_length },
        ),
        VerificationNeed::Sample => VerificationView {
            our_content: content_view(ours),
            phase: VerificationPhase::Read,
            ..attempt
        },
    }
}

/// The section of a revision that is sampled at `now`.
pub open spec fn section_at(key: Seq<u8>, id: Seq<u8>, now: u64, blob_len: usize) -> (int, int) {
    sample_range(sha256(sample_seed(key, id, now)), blob_len)
}

/// Whether the report of a peer leads from `attempt` to `next`.
pub open spec fn takes_report(
    attempt: VerificationView,
    revision: PeerRevision,
    next: VerificationView,
) -> bool {
    next == (VerificationView {
        revision: Some(revision),
        phase: if attempt.peer_was_tracked {
            VerificationPhase::Record
        } else {
            VerificationPhase::Inspect
        },
        ..attempt
    })
}

/// Whether looking up our active revision leads from `attempt` to `next`.
pub open spec fn inspects_content(
    attempt: VerificationView,
    current: Option<CurrentContent>,
    limits: Limits,
    outcome: Result<(), Status>,
    next: VerificationView,
) -> bool {
    exists|ours: Result<Option<ContentInfo>, Status>| #[trigger]
        responder_rule(current, limits, ours) && match ours {
            Err(status) => fails_with(outcome, status@) && next == attempt,
            Ok(content) => outcome is Ok && next == inspected(attempt, content),
        }
}

/// Whether the bytes of our active revision lead from `attempt` to `next`.
pub open spec fn takes_blob(
    attempt: VerificationView,
    blob: Seq<u8>,
    now_secs: u64,
    next: VerificationView,
) -> bool {
    next == (VerificationView {
        local_blob: blob,
        sample: Some(
            section_at(
                attempt.peer_public_key,
                attempt.our_content->0.content_id,
                now_secs,
                blob.len() as usize,
            ),
        ),
        phase: VerificationPhase::Download,
        ..attempt
    })
}

/// Whether the section that a peer returned leads from `attempt` to `next`.
pub open spec fn judges_section(
    attempt: VerificationView,
    response: DownloadResponse,
    next: VerificationView,
) -> bool {
    exists|content: ContentInfo| #[trigger]
        content@ == attempt.our_content->0 && next == attempt.concluding(
            VerificationFinding::Sampled {
                content,
                offset: (attempt.sample->0).0 as usize,
                length: (attempt.sample->0).1 as usize,
                passed: sample_passes(
                    attempt.local_blob,
                    (attempt.sample->0).0,
                    (attempt.sample->0).1,
                    response,
                ),
            },
        )
}

/// Whether `updates` tell how a finished attempt went.
pub open spec fn tells_progress(
    attempt: VerificationView,
    updates: Seq<VerifyPeerStorageUpdate>,
) -> bool {
    updates == seq![
        early_update(PeerStorageOperationState::ConnectingToPeer),
        early_update(PeerStorageOperationState::VerifyingContent),
        last_update(attempt.finding->0),
    ]
}

/// Copy a request for a section.
fn copy_request(request: &DownloadRequest) -> (copy: DownloadRequest)
    ensures
        copy.content_id@ == request.content_id@,
        copy.offset == request.offset,
        copy.length == request.length,
        copy.reference_content_id@ == request.reference_content_id@,
{
    DownloadRequest {
        content_id: bytes_copy(request.content_id.as_slice()),
        offset: request.offset,
        length: request.length,
        reference_content_id: bytes_copy(request.reference_content_id.as_slice()),
    }
}

/// Tell what a finding puts on record for a tracked peer.
fn finding_effects(finding: &VerificationFinding) -> (effects: VerificationEffects)
    ensures
        effects_of(*finding, true, Some(effects)),
{
    match finding {
        VerificationFinding::NoLocalContent => VerificationEffects {
            verified_content_id: None,
            passed: true,
        },
        VerificationFinding::MissingContent { .. } => VerificationEffects {
            verified_content_id: None,
            passed: false,
        },
        VerificationFinding::Sampled { content, passed, .. } => VerificationEffects {
            verified_content_id: if *passed {
                Some(bytes_copy(content.content_id.as_slice()))
            } else {
                None
            },
            passed: *passed,
        },
    }
}

/// Report a finding.
fn finding_update(finding: &VerificationFinding) -> (update: VerifyPeerStorageUpdate)
    ensures
        update == last_update(*finding),
{
    let base = early(PeerStorageOperationState::Completed);
    match finding {
        VerificationFinding::NoLocalContent => VerifyPeerStorageUpdate { success: true, ..base },
        VerificationFinding::MissingContent { our_content_length } => VerifyPeerStorageUpdate {
            state: PeerStorageOperationState::PeerMissingOurContent,
            our_content_length: *our_content_length,
            ..base
        },
        VerificationFinding::Sampled { content, offset, length, passed } => VerifyPeerStorageUpdate {
            state: if *passed {
                PeerStorageOperationState::Completed
            } else {
                PeerStorageOperationState::InvalidContentReturned
            },
            success: *passed,
            our_content_length: content.content_length,
            our_content_section_offset: i64_from_usize(*offset),
            our_content_section_length: i64_from_usize(*length),
        },
    }
}

impl VerificationAttempt {
    /// Begin one attempt to verify a peer's stored copy of our content.
    pub fn verify_peer_storage_updates_once(
        peer_onion: &str,
        own_onion: &str,
        peer_public_key: &Option<Vec<u8>>,
        peers: Option<&[Peer]>,
    ) -> (outcome: Result<VerificationAttempt, Status>)
        ensures
            begins_verification(
                peer_onion@,
                own_onion@,
                *peer_public_key,
                match peers {
                    Some(records) => Some(peer_views(records@)),
                    None => None,
                },
                outcome,
            ),
    {
        if text_eq(peer_onion, own_onion) {
            return Err(self_peer_error());
        }
        let key = match peer_public_key {
            None => return Err(invalid_onion_error()),
            Some(key) => key,
        };
        let records = match peers {
            None => return Err(no_store_error()),
            Some(records) => records,
        };
        Ok(
            VerificationAttempt {
                peer_public_key: bytes_copy(key.as_slice()),
                peer_was_tracked: is_tracked_peer(records, key.as_slice()),
                phase: VerificationPhase::Connect,
                revision: None,
                our_content: None,
                local_blob: Vec::new(),
                sample: None,
                finding: None,
            },
        )
    }

    /// Whether a section that is sampled is asked for as it is.
    pub closed spec fn asks_as_sampled(&self) -> bool {
        self.phase == VerificationPhase::Download ==> asks_for(
            self.sample->0.request,
            self@.our_content->0.content_id,
            self@.sample->0,
        )
    }

    /// Whether the attempt is in a state that it can be in.
    pub open spec fn wf(&self) -> bool {
        self@.valid() && self.asks_as_sampled()
    }

    /// Return what has to be done next.
    pub fn action(&self) -> (action: VerificationAction)
        requires
            self.wf(),
        ensures
            verifies_next(self@, action),
    {
        match self.phase {
            VerificationPhase::Connect => VerificationAction::Connect {
                track_peer: self.peer_was_tracked,
            },
            VerificationPhase::Fetch => VerificationAction::FetchRevision,
            VerificationPhase::Record => VerificationAction::RecordReport,
            VerificationPhase::Inspect => VerificationAction::InspectContent,
            VerificationPhase::Read => VerificationAction::ReadBlob,
            VerificationPhase::Download => match &self.sample {
                Some(sample) => VerificationAction::Download(copy_request(&sample.request)),
                None => VerificationAction::Finish,
            },
            VerificationPhase::Score => match &self.finding {
                Some(finding) => VerificationAction::RecordOutcome(finding_effects(finding)),
                None => VerificationAction::Finish,
            },
            VerificationPhase::Exchange => VerificationAction::ExchangePeers,
            VerificationPhase::Done => VerificationAction::Finish,
        }
    }

    /// Return the peer's report.
    pub fn report(&self) -> (report: &Option<PeerRevision>)
        ensures
            *report == self@.revision,
    {
        &self.revision
    }

    /// Take note that the peer was reached.
    pub fn connected(&mut self)
        requires
            old(self).wf(),
            old(self)@.phase == VerificationPhase::Connect,
        ensures
            final(self).wf(),
            final(self)@ == old(self)@.at(VerificationPhase::Fetch),
    {
        self.phase = VerificationPhase::Fetch;
    }

    /// Take note of the peer's report. Only that of a tracked peer goes on
    /// record.
    pub fn revision_received(&mut self, revision: PeerRevision)
        requires
            old(self).wf(),
            old(self)@.phase == VerificationPhase::Fetch,
        ensures
            final(self).wf(),
            takes_report(old(self)@, revision, final(self)@),
    {
        self.revision = Some(revision);
        self.phase = if self.peer_was_tracked {
            VerificationPhase::Record
        } else {
            VerificationPhase::Inspect
        };
    }

    /// Take note that the report is on record.
    pub fn report_recorded(&mut self)
        requires
            old(self).wf(),
            old(self)@.phase == VerificationPhase::Record,
        ensures
            final(self).wf(),
            final(self)@ == old(self)@.at(VerificationPhase::Inspect),
    {
        self.phase = VerificationPhase::Inspect;
    }

    /// Decide what to do about our active revision: there may be none, the peer
    /// may not hold it, or else it is sampled.
    pub fn content_inspected(&mut self, current: &Option<CurrentContent>, limits: &Limits) -> (outcome:
        Result<(), Status>)
        requires
            old(self).wf(),
            old(self)@.phase == VerificationPhase::Inspect,
        ensures
            final(self).wf(),
            inspects_content(old(self)@, *current, *limits, outcome, final(self)@),
    {
        let ours = responder_content(current, limits);
        let ghost given = ours;
        assert(responder_rule(*current, *limits, given));
        let content = match ours {
            Err(status) => return Err(status),
            Ok(content) => content,
        };
        let need = match &self.revision {
            Some(revision) => verification_need(&content, revision),
            None => VerificationNeed::Nothing,
        };
        match need {
            VerificationNeed::Sample => {
                self.our_content = content;
                self.phase = VerificationPhase::Read;
            },
            VerificationNeed::Nothing => {
                self.conclude(VerificationFinding::NoLocalContent);
            },
            VerificationNeed::Missing => {
                let our_content_length = match &content {
                    Some(info) => info.content_length,
                    None => 0,
                };
                self.conclude(VerificationFinding::MissingContent { our_content_length });
            },
        }
        Ok(())
    }

    /// Take note of a finding.
    fn conclude(&mut self, finding: VerificationFinding)
        requires
            old(self).wf(),
        ensures
            final(self).wf(),
            final(self)@ == old(self)@.concluding(finding),
    {
        self.finding = Some(finding);
        self.phase = if self.peer_was_tracked {
            VerificationPhase::Score
        } else {
            VerificationPhase::Done
        };
    }

    /// Take over the bytes of our active revision, and choose the section of
    /// them to sample now.
    pub fn blob_read(&mut self, local_blob: Vec<u8>, now_secs: u64)
        requires
            old(self).wf(),
            old(self)@.phase == VerificationPhase::Read,
        ensures
            final(self).wf(),
            takes_blob(old(self)@, local_blob@, now_secs, final(self)@),
    {
        let sample = match &self.our_content {
            Some(content) => sample_request(
                self.peer_public_key.as_slice(),
                content.content_id.as_slice(),
                now_secs,
                local_blob.len(),
            ),
            None => return,
        };
        self.sample = Some(sample);
        self.local_blob = local_blob;
        self.phase = VerificationPhase::Download;
    }

    /// Judge the section that the peer returned.
    pub fn section_received(&mut self, response: &DownloadResponse)
        requires
            old(self).wf(),
            old(self)@.phase == VerificationPhase::Download,
        ensures
            final(self).wf(),
            judges_section(old(self)@, *response, final(self)@),
    {
        let finding = match (&self.our_content, &self.sample) {
            (Some(content), Some(sample)) => sampled_finding(
                content.clone(),
                self.local_blob.as_slice(),
                sample,
                response,
            ),
            _ => return,
        };
        self.conclude(finding);
    }

    /// Take note that the outcome is on record.
    pub fn outcome_recorded(&mut self)
        requires
            old(self).wf(),
            old(self)@.phase == VerificationPhase::Score,
        ensures
            final(self).wf(),
            final(self)@ == old(self)@.at(VerificationPhase::Exchange),
    {
        self.phase = VerificationPhase::Exchange;
    }

    /// Take note that known peers were exchanged.
    pub fn peers_exchanged(&mut self)
        requires
            old(self).wf(),
            old(self)@.phase == VerificationPhase::Exchange,
        ensures
            final(self).wf(),
            final(self)@ == old(self)@.at(VerificationPhase::Done),
    {
        self.phase = VerificationPhase::Done;
    }

    /// Return the progress reports of a finished attempt.
    pub fn updates(&self) -> (updates: Vec<VerifyPeerStorageUpdate>)
        requires
            self.wf(),
            self@.phase == VerificationPhase::Done,
        ensures
            tells_progress(self@, updates@),
    {
        let mut updates: Vec<VerifyPeerStorageUpdate> = Vec::new();
        updates.push(early(PeerStorageOperationState::ConnectingToPeer));
        updates.push(early(PeerStorageOperationState::VerifyingContent));
        if let Some(finding) = &self.finding {
            updates.push(finding_update(finding));
        }
        assert(updates@ =~= seq![
            early_update(PeerStorageOperationState::ConnectingToPeer),
            early_update(PeerStorageOperationState::VerifyingContent),
            last_update(self@.finding->0),
        ]);
        updates
    }
}

/// The length of an optional revision.
pub open spec fn length_of(content: Option<ContentInfoView>) -> i64 {
    match content {
        Some(info) => info.content_length,
        None => 0,
    }
}

/// Conclude a verification that failed after all its attempts: a peer that
/// could not be reached loses score if it is tracked, and any other failure is
/// passed on.
///
/// `our_content` is the active revision as peers may see it.
pub fn verify_peer_storage_updates_with_policy(
    error: Status,
    retryable: bool,
    peer_was_tracked: bool,
    our_content: &Result<Option<ContentInfo>, Status>,
) -> (outcome: Result<VerificationConclusion, Status>)
    ensures
        if !retryable {
            fails_with(outcome, error@)
        } else {
            match *our_content {
                Err(status) => fails_with(outcome, status@),
                Ok(content) => outcome matches Ok(conclusion) && conclusion.updates@ == seq![
                    early_update(PeerStorageOperationState::ConnectingToPeer),
                    VerifyPeerStorageUpdate {
                        our_content_length: length_of(content_view(content)),
                        ..early_update(PeerStorageOperationState::PeerUnavailable)
                    },
                ] && match conclusion.effects {
                    None => !peer_was_tracked,
                    Some(change) => peer_was_tracked && change.verified_content_id is None
                        && !change.passed,
                },
            }
        },
{
    if !retryable {
        return Err(error);
    }
    let our_content_length = match our_content {
        Err(status) => return Err(status.clone()),
        Ok(Some(content)) => content.content_length,
        Ok(None) => 0,
    };
    let mut updates: Vec<VerifyPeerStorageUpdate> = Vec::new();
    updates.push(early(PeerStorageOperationState::ConnectingToPeer));
    updates.push(
        VerifyPeerStorageUpdate {
            our_content_length,
            ..early(PeerStorageOperationState::PeerUnavailable)
        },
    );
    let effects = if peer_was_tracked {
        Some(VerificationEffects { verified_content_id: None, passed: false })
    } else {
        None
    };
    assert(updates@ =~= seq![
        early_update(PeerStorageOperationState::ConnectingToPeer),
        VerifyPeerStorageUpdate {
            our_content_length,
            ..early_update(PeerStorageOperationState::PeerUnavailable)
        },
    ]);
    Ok(VerificationConclusion { updates, effects })
}

/// A peer is recorded as holding a revision of ours only by returning its
/// bytes, and then it also earns score.
pub proof fn law_only_a_passed_sample_proves_content(
    finding: VerificationFinding,
    effects: VerificationEffects,
)
    requires
        effects_of(finding, true, Some(effects)),
    ensures
        effects.verified_content_id is Some ==> finding is Sampled && finding->passed
            && effects.passed,
        finding is MissingContent ==> !effects.passed,
        finding is NoLocalContent ==> effects.passed && effects.verified_content_id is None,
{
}

/// Verifying a peer that is not tracked puts nothing on record: neither its
/// report nor the outcome, and no peers are exchanged with it.
pub proof fn law_untracked_peers_leave_no_trace(
    attempt: VerificationView,
    action: VerificationAction,
)
    requires
        attempt.valid(),
        !attempt.peer_was_tracked,
        verifies_next(attempt, action),
    ensures
        !(action is RecordReport),
        !(action is RecordOutcome),
        !(action is ExchangePeers),
{
}

/// A peer that reports our revision and serves the sampled section of it
/// passes, and is recorded as holding it.
pub proof fn law_honest_holder_passes(
    content: ContentInfo,
    blob: Seq<u8>,
    offset: usize,
    length: usize,
    response: DownloadResponse,
)
    requires
        offset + length <= blob.len(),
        crate::transfer::serves(response, blob, offset as int, length as int),
    ensures
        ({
            let finding = VerificationFinding::Sampled {
                content,
                offset,
                length,
                passed: sample_passes(blob, offset as int, length as int, response),
            };
            &&& finding_passes(finding)
            &&& proved_content(finding) == Some(content@.content_id)
        }),
{
    crate::transfer::law_honest_sample_passes(blob, offset as int, length as int, response);
}

/// A peer's copy is sampled exactly when we have a revision and the peer reports
/// that it can return that very one; without a revision nothing is left to
/// verify, whatever the peer reports.
pub proof fn law_only_a_reported_copy_is_sampled(
    ours: &Option<ContentInfo>,
    revision: &PeerRevision,
    need: VerificationNeed,
)
    requires
        call_ensures(verification_need, (ours, revision), need),
    ensures
        need is Nothing <==> *ours is None,
        need is Sample <==> (*ours matches Some(content) && revision.latest_stored matches Some(
            stored,
        ) && stored.content.content_id@ == content.content_id@),
        need is Missing <==> *ours is Some && !(*ours matches Some(content)
            && revision.latest_stored matches Some(stored) && stored.content.content_id@
            == content.content_id@),
{
}

/// Once our active revision is known, an attempt goes on to read its bytes only
/// for a peer that reports to hold it; otherwise it ends, with success only if we
/// have no revision.
pub proof fn law_inspection_decides_by_the_report(
    attempt: VerificationView,
    ours: Option<ContentInfo>,
)
    requires
        attempt.revision is Some,
    ensures
        ({
            let next = inspected(attempt, ours);
            let held = ours is Some && attempt.revision->0.latest_stored is Some
                && attempt.revision->0.latest_stored->0.content.content_id@ == ours->0.content_id@;
            let done = if attempt.peer_was_tracked {
                VerificationPhase::Score
            } else {
                VerificationPhase::Done
            };
            &&& held ==> next.phase == VerificationPhase::Read && next.our_content is Some
                && next.our_content->0.content_id == ours->0.content_id@
            &&& ours is None ==> next.phase == done && next.finding
                == Some(VerificationFinding::NoLocalContent)
            &&& ours is Some && !held ==> next.phase == done && (
            next.finding matches Some(VerificationFinding::MissingContent { our_content_length })
                && our_content_length == ours->0.content_length)
        }),
{
}

/// What goes on record for a tracked peer: a revision as held only after a
/// sample that passed, and then the sampled one; and score is lost after a
/// failed sample and for a missing revision, and earned otherwise.
pub proof fn law_outcome_on_record_follows_the_finding(
    finding: VerificationFinding,
    effects: VerificationEffects,
)
    requires
        effects_of(finding, true, Some(effects)),
    ensures
        match finding {
            VerificationFinding::NoLocalContent => effects.passed && effects.verified_content_id
                is None,
            VerificationFinding::MissingContent { .. } => !effects.passed
                && effects.verified_content_id is None,
            VerificationFinding::Sampled { content, passed, .. } => {
                &&& effects.passed == passed
                &&& passed ==> (effects.verified_content_id matches Some(id) && id@
                    == content.content_id@)
                &&& !passed ==> effects.verified_content_id is None
            },
        },
{
}

/// A peer whose answer to a sample has any byte missing or different, another
/// length or another digest is not recorded as holding our revision and loses
/// score; one whose answer is exactly ours is recorded and earns score.
pub proof fn law_sample_with_a_wrong_byte_costs_score(
    content: ContentInfo,
    blob: Seq<u8>,
    offset: usize,
    length: usize,
    response: DownloadResponse,
    effects: VerificationEffects,
)
    requires
        offset + length <= blob.len() <= i64::MAX,
        effects_of(
            VerificationFinding::Sampled {
                content,
                offset,
                length,
                passed: sample_passes(blob, offset as int, length as int, response),
            },
            true,
            Some(effects),
        ),
    ensures
        effects.passed <==> {
            &&& response.section matches Some(crate::transfer::Section::RawBytes(bytes))
            &&& bytes@.len() == length
            &&& forall|i: int| 0 <= i < length ==> #[trigger] bytes@[i] == blob[offset + i]
            &&& response.total_length == blob.len()
            &&& response.sha256@ == sha256(blob)
        },
        effects.verified_content_id is Some <==> effects.passed,
        effects.verified_content_id matches Some(id) ==> id@ == content.content_id@,
{
    if let Some(crate::transfer::Section::RawBytes(bytes)) = response.section {
        if bytes@.len() == length && (forall|i: int|
            0 <= i < length ==> #[trigger] bytes@[i] == blob[offset + i]) {
            assert(bytes@ =~= blob.subrange(offset as int, offset + length));
        }
    }
}

/// The last progress report tells how the finding ends: completed with success,
/// or with the failure that was found, and what was sampled of what length.
pub proof fn law_last_report_tells_the_finding(finding: VerificationFinding)
    ensures
        ({
            let update = last_update(finding);
            match finding {
                VerificationFinding::NoLocalContent => update.success && update.state
                    == PeerStorageOperationState::Completed && update.our_content_length == 0,
                VerificationFinding::MissingContent { our_content_length } => !update.success
                    && update.state == PeerStorageOperationState::PeerMissingOurContent
                    && update.our_content_length == our_content_length,
                VerificationFinding::Sampled { content, offset, length, passed } => {
                    &&& update.success == passed
                    &&& update.state == if passed {
                        PeerStorageOperationState::Completed
                    } else {
                        PeerStorageOperationState::InvalidContentReturned
                    }
                    &&& update.our_content_length == content.content_length
                    &&& offset <= i64::MAX ==> update.our_content_section_offset == offset
                    &&& length <= i64::MAX ==> update.our_content_section_length == length
                },
            }
        }),
{
}

/// Only a failure that may pass by itself counts as an unreachable peer, which
/// costs a tracked peer score and proves nothing; other failures are passed on.
pub proof fn law_unreachable_peers_lose_score(
    error: Status,
    retryable: bool,
    peer_was_tracked: bool,
    our_content: &Result<Option<ContentInfo>, Status>,
    outcome: Result<VerificationConclusion, Status>,
)
    requires
        call_ensures(
            verify_peer_storage_updates_with_policy,
            (error, retryable, peer_was_tracked, our_content),
            outcome,
        ),
    ensures
        outcome is Ok <==> retryable && *our_content is Ok,
        !retryable ==> (outcome matches Err(status) && status@ == error@),
        outcome matches Ok(conclusion) ==> {
            &&& conclusion.effects is Some <==> peer_was_tracked
            &&& conclusion.effects matches Some(effects) ==> !effects.passed
                && effects.verified_content_id is None
            &&& conclusion.updates@.len() == 2
            &&& conclusion.updates@[1].state == PeerStorageOperationState::PeerUnavailable
            &&& !conclusion.updates@[0].success && !conclusion.updates@[1].success
            &&& *our_content matches Ok(Some(content))
                ==> conclusion.updates@[1].our_content_length == content.content_length
        },
{
}

/// Verifying begins with any other peer that has a key, and remembers whether
/// the peer is on record.
pub proof fn law_verification_begins_with_any_other_peer(
    peer_onion: &str,
    own_onion: &str,
    key: &Option<Vec<u8>>,
    peers: Option<&[Peer]>,
    outcome: Result<VerificationAttempt, Status>,
)
    requires
        call_ensures(
            VerificationAttempt::verify_peer_storage_updates_once,
            (peer_onion, own_onion, key, peers),
            outcome,
        ),
    ensures
        outcome is Ok <==> peer_onion@ != own_onion@ && *key is Some && peers is Some,
        outcome matches Ok(attempt) ==> {
            &&& attempt@.phase == VerificationPhase::Connect
            &&& attempt@.peer_public_key == key->0@
            &&& attempt@.peer_was_tracked <==> exists|i: int|
                0 <= i < peers->0@.len() && (#[trigger] peers->0@[i]).onion_pubkey@ == key->0@
        },
{
    if peers is Some && *key is Some {
        crate::records::lemma_find_first(peers->0@, key->0@);
    }
}

/// The report of a peer on record goes on record before anything else is done
/// with it, and that of any other peer does not; the report itself is kept as it
/// came.
pub proof fn law_reports_of_tracked_peers_go_on_record(
    attempt: VerificationView,
    revision: PeerRevision,
    next: VerificationView,
    action: VerificationAction,
)
    requires
        takes_report(attempt, revision, next),
        verifies_next(next, action),
    ensures
        next.revision == Some(revision),
        action is RecordReport <==> attempt.peer_was_tracked,
        action is InspectContent <==> !attempt.peer_was_tracked,
        next.peer_public_key == attempt.peer_public_key,
        next.peer_was_tracked == attempt.peer_was_tracked,
{
}

/// An active revision that is too large is refused and nothing changes. Without
/// one, or where the peer does not report the active one, the attempt is over;
/// otherwise its bytes are read next.
pub proof fn law_only_reported_revisions_are_read(
    attempt: VerificationView,
    current: Option<CurrentContent>,
    limits: Limits,
    outcome: Result<(), Status>,
    next: VerificationView,
    action: VerificationAction,
)
    requires
        inspects_content(attempt, current, limits, outcome, next),
        attempt.revision is Some,
        attempt.phase == VerificationPhase::Inspect,
        verifies_next(next, action),
        limits.max_peer_content_bytes < i64::MAX,
    ensures
        outcome is Err <==> (current matches Some(content) && content.blob_len
            > limits.max_peer_content_bytes),
        outcome is Err ==> next == attempt,
        outcome is Ok ==> {
            let stored = attempt.revision->0.latest_stored;
            let held = current is Some && stored is Some && stored->0.content.content_id@
                == current->0.content_id@;
            &&& action is ReadBlob <==> held
            &&& !held && attempt.peer_was_tracked ==> (action matches VerificationAction::RecordOutcome(
                effects,
            ) && effects.verified_content_id is None && (effects.passed <==> current is None))
            &&& !held && !attempt.peer_was_tracked ==> action is Finish
        },
{
}

/// The section that is asked for lies inside our bytes, and is the one that is
/// judged: the peer passes exactly when it returns those bytes of ours, at that
/// length, with the length and digest of the whole. Then and only then it is
/// recorded as holding the revision, if it is on record at all.
pub proof fn law_sampled_section_decides(
    attempt: VerificationView,
    blob: Seq<u8>,
    now_secs: u64,
    asked: VerificationView,
    request: VerificationAction,
    response: DownloadResponse,
    next: VerificationView,
    action: VerificationAction,
)
    requires
        takes_blob(attempt, blob, now_secs, asked),
        attempt.our_content is Some,
        blob.len() <= usize::MAX,
        blob.len() <= i64::MAX,
        asked.valid(),
        verifies_next(asked, request),
        judges_section(asked, response, next),
        verifies_next(next, action),
    ensures
        request matches VerificationAction::Download(section) && {
            let holds = {
                &&& response.section matches Some(crate::transfer::Section::RawBytes(bytes))
                &&& bytes@.len() == section.length
                &&& forall|i: int|
                    0 <= i < section.length ==> #[trigger] bytes@[i] == blob[section.offset + i]
                &&& response.total_length == blob.len()
                &&& response.sha256@ == sha256(blob)
            };
            &&& section.content_id@ == attempt.our_content->0.content_id
            &&& 0 <= section.offset
            &&& 0 <= section.length
            &&& section.offset + section.length <= blob.len()
            &&& attempt.peer_was_tracked ==> (action matches VerificationAction::RecordOutcome(
                effects,
            ) && (effects.passed <==> holds) && (effects.verified_content_id is Some <==> holds) && (
            effects.verified_content_id matches Some(id) ==> id@
                == attempt.our_content->0.content_id))
            &&& !attempt.peer_was_tracked ==> action is Finish
            &&& next.finding matches Some(VerificationFinding::Sampled { content, passed, .. })
                && content@ == attempt.our_content->0 && (passed <==> holds)
        },
{
    let at = asked.sample->0;
    if let Some(crate::transfer::Section::RawBytes(bytes)) = response.section {
        if bytes@.len() == at.1 && (forall|i: int|
            0 <= i < at.1 ==> #[trigger] bytes@[i] == blob[at.0 + i]) {
            assert(bytes@ =~= blob.subrange(at.0, at.0 + at.1));
        }
    }
}

/// A finished attempt tells of connecting, of verifying and of its end, and of
/// success only there and only if the peer passed or nothing was to verify.
pub proof fn law_verification_progress_is_told_in_order(
    attempt: VerificationView,
    updates: Seq<VerifyPeerStorageUpdate>,
)
    requires
        tells_progress(attempt, updates),
        attempt.finding is Some,
    ensures
        updates.len() == 3,
        updates[0].state == PeerStorageOperationState::ConnectingToPeer,
        updates[1].state == PeerStorageOperationState::VerifyingContent,
        !updates[0].success && !updates[1].success,
        updates[2].success <==> attempt.finding->0 is NoLocalContent || (
        attempt.finding->0 matches VerificationFinding::Sampled { passed, .. } && passed),
        updates[2].state == PeerStorageOperationState::Completed <==> updates[2].success,
        updates[2].state == PeerStorageOperationState::PeerMissingOurContent
            <==> attempt.finding->0 is MissingContent,
{
}

/// The section that a peer is asked for is the one that its key, our revision
/// and the time select, and it is not empty unless our revision is.
pub proof fn law_peer_key_revision_and_time_select_the_section(
    attempt: VerificationView,
    blob: Seq<u8>,
    now_secs: u64,
    asked: VerificationView,
    request: VerificationAction,
    key: &[u8],
    id: &[u8],
    blob_len: usize,
    selected: (usize, usize),
)
    requires
        takes_blob(attempt, blob, now_secs, asked),
        attempt.our_content is Some,
        blob.len() == blob_len <= i64::MAX,
        verifies_next(asked, request),
        key@ == attempt.peer_public_key,
        id@ == attempt.our_content->0.content_id,
        call_ensures(crate::transfer::sample_section, (key, id, now_secs, blob_len), selected),
    ensures
        request matches VerificationAction::Download(section) && section.offset == selected.0
            && section.length == selected.1 && section.reference_content_id@.len() == 0 && (
        blob_len > 0 ==> section.length > 0),
        asked.local_blob == blob,
        asked.our_content == attempt.our_content,
        asked.peer_public_key == attempt.peer_public_key,
        asked.peer_was_tracked == attempt.peer_was_tracked,
{
}

/// Only the last progress report tells of lengths: that of our revision, and
/// the section where one was sampled.
pub proof fn law_only_the_last_report_tells_lengths(
    attempt: VerificationView,
    updates: Seq<VerifyPeerStorageUpdate>,
)
    requires
        tells_progress(attempt, updates),
        attempt.finding is Some,
    ensures
        forall|i: int|
            0 <= i < 2 ==> (#[trigger] updates[i]).our_content_length == 0
                && updates[i].our_content_section_offset == 0
                && updates[i].our_content_section_length == 0,
        attempt.finding->0 is NoLocalContent ==> updates[2].our_content_length == 0,
        attempt.finding->0 matches VerificationFinding::MissingContent { our_content_length }
            ==> updates[2].our_content_length == our_content_length,
        attempt.finding->0 matches VerificationFinding::Sampled { content, offset, length, passed }
            ==> {
            &&& updates[2].our_content_length == content.content_length
            &&& offset <= i64::MAX ==> updates[2].our_content_section_offset == offset
            &&& length <= i64::MAX ==> updates[2].our_content_section_length == length
            &&& updates[2].state == PeerStorageOperationState::InvalidContentReturned <==> !passed
        },
        !(attempt.finding->0 is Sampled) ==> updates[2].our_content_section_offset == 0
            && updates[2].our_content_section_length == 0,
{
}

/// The reports on a peer that could not be reached begin with the attempt to
/// connect and tell of no section.
pub proof fn law_unreachable_peers_are_reported(
    error: Status,
    peer_was_tracked: bool,
    our_content: &Result<Option<ContentInfo>, Status>,
    conclusion: VerificationConclusion,
)
    requires
        call_ensures(
            verify_peer_storage_updates_with_policy,
            (error, true, peer_was_tracked, our_content),
            Ok(conclusion),
        ),
    ensures
        conclusion.updates@.len() == 2,
        conclusion.updates@[0].state == PeerStorageOperationState::ConnectingToPeer,
        conclusion.updates@[0].our_content_length == 0,
        forall|i: int|
            0 <= i < 2 ==> (#[trigger] conclusion.updates@[i]).our_content_section_offset == 0
                && conclusion.updates@[i].our_content_section_length == 0,
        *our_content matches Ok(None) ==> conclusion.updates@[1].our_content_length == 0,
{
}

/// Each phase of an attempt has one action of its own, and a peer is dialled as
/// one on record exactly when it is.
pub proof fn law_each_step_has_its_action(attempt: VerificationView, action: VerificationAction)
    requires
        verifies_next(attempt, action),
    ensures
        action is Connect <==> attempt.phase == VerificationPhase::Connect,
        action is FetchRevision <==> attempt.phase == VerificationPhase::Fetch,
        action is RecordReport <==> attempt.phase == VerificationPhase::Record,
        action is InspectContent <==> attempt.phase == VerificationPhase::Inspect,
        action is ReadBlob <==> attempt.phase == VerificationPhase::Read,
        action is Download <==> attempt.phase == VerificationPhase::Download,
        action is RecordOutcome <==> attempt.phase == VerificationPhase::Score,
        action is ExchangePeers <==> attempt.phase == VerificationPhase::Exchange,
        action is Finish <==> attempt.phase == VerificationPhase::Done,
        action matches VerificationAction::Connect { track_peer } ==> track_peer
            == attempt.peer_was_tracked,
{
}

/// Verifying ourselves, or without a store, is refused for the state of the
/// node; verifying a hostname without a key is refused for the request.
pub proof fn law_refused_verification_tells_why(
    peer_onion: &str,
    own_onion: &str,
    key: &Option<Vec<u8>>,
    peers: Option<&[Peer]>,
    outcome: Result<VerificationAttempt, Status>,
)
    requires
        call_ensures(
            VerificationAttempt::verify_peer_storage_updates_once,
            (peer_onion, own_onion, key, peers),
            outcome,
        ),
    ensures
        outcome matches Err(status) ==> (status.code is InvalidArgument <==> peer_onion@
            != own_onion@ && *key is None),
        outcome matches Err(status) ==> (status.code is FailedPrecondition <==> peer_onion@
            == own_onion@ || *key is Some),
{
}

} // verus!

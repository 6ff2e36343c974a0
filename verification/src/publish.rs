//! Publishing our current revision to one peer.

use crate::lineage::{
    ensure_peer_revision_does_not_require_recovery, known_view, publication_refusal,
    recoverable_requester_revision, recovery_verdict, stored_view, LineageWindow, PeerRevision,
    Verdict,
};
use crate::model::{content_view, ContentInfo, ContentInfoView};
use crate::status::{
    fails_with, invalid_onion, invalid_onion_error, self_peer, self_peer_error, Status,
};
use crate::text::{bytes_eq, text_eq};
use vstd::prelude::*;

verus! {

/// PeerStorageOperationState tells how far an operation on a peer has come.
#[derive(Clone, Copy, Debug, PartialEq, Eq, Structural)]
pub enum PeerStorageOperationState {
    /// ConnectingToPeer means that the peer is being contacted.
    ConnectingToPeer,
    /// PublishingToPeer means that our revision is being offered.
    PublishingToPeer,
    /// SyncingContents means that the peer has taken our offer.
    SyncingContents,
    /// VerifyingContent means that the peer's copy is being sampled.
    VerifyingContent,
    /// Completed means that the operation succeeded.
    Completed,
    /// PeerMissingOurContent means that the peer does not hold our revision.
    PeerMissingOurContent,
    /// InvalidContentReturned means that the peer returned other bytes than ours.
    InvalidContentReturned,
    /// PeerUnavailable means that the peer could not be reached.
    PeerUnavailable,
}

/// SetContentRevisionStorageResult is what a peer says it did with our offer.
#[derive(Clone, Copy, Debug, PartialEq, Eq, Structural)]
pub enum SetContentRevisionStorageResult {
    /// Unknown stands for any answer that is not listed here.
    Unknown,
    /// MirroredBytesCached means that the peer holds our bytes.
    MirroredBytesCached,
    /// SidecarOnly means that the peer only took note of our revision.
    SidecarOnly,
}

/// PublicationStorageResult is what operators are told about a publication.
#[derive(Clone, Copy, Debug, PartialEq, Eq, Structural)]
pub enum PublicationStorageResult {
    /// Unknown means that nothing was offered or the answer is not understood.
    Unknown,
    /// MirroredBytesCached means that the peer holds our bytes.
    MirroredBytesCached,
    /// SidecarOnly means that the peer only took note of our revision.
    SidecarOnly,
}

/// What operators are told about a peer's answer.
pub open spec fn told(result: SetContentRevisionStorageResult) -> PublicationStorageResult {
    match result {
        SetContentRevisionStorageResult::Unknown => PublicationStorageResult::Unknown,
        SetContentRevisionStorageResult::MirroredBytesCached => PublicationStorageResult::MirroredBytesCached,
        SetContentRevisionStorageResult::SidecarOnly => PublicationStorageResult::SidecarOnly,
    }
}

/// Translate one peer-publication storage outcome into what operators are told.
pub fn proto_publication_storage_result(result: SetContentRevisionStorageResult) -> (r:
    PublicationStorageResult)
    ensures
        r == told(result),
{
    match result {
        SetContentRevisionStorageResult::Unknown => PublicationStorageResult::Unknown,
        SetContentRevisionStorageResult::MirroredBytesCached => PublicationStorageResult::MirroredBytesCached,
        SetContentRevisionStorageResult::SidecarOnly => PublicationStorageResult::SidecarOnly,
    }
}

/// PublishToPeerUpdate is one progress report of a publication.
#[derive(Clone, Copy, Debug, PartialEq, Eq, Structural)]
pub struct PublishToPeerUpdate {
    /// state tells how far the publication has come.
    pub state: PeerStorageOperationState,
    /// success reports whether the publication has succeeded.
    pub success: bool,
    /// their_content_length is how much we hold for the peer.
    pub their_content_length: i64,
    /// their_content_downloaded_bytes is how much of that was just fetched.
    pub their_content_downloaded_bytes: i64,
    /// our_content_length is the length of our revision.
    pub our_content_length: i64,
    /// our_content_uploaded_bytes is how much of it the peer has taken over.
    pub our_content_uploaded_bytes: i64,
    /// storage_result is what the peer did with it.
    pub storage_result: PublicationStorageResult,
}

/// PublishPhase is how far one publication attempt has come.
#[derive(Clone, Copy, Debug, PartialEq, Eq, Structural)]
pub enum PublishPhase {
    /// Connect waits for the connection.
    Connect,
    /// Fetch waits for the peer's report.
    Fetch,
    /// Observe waits for the report to be put on record.
    Observe,
    /// Recover waits for a recovery pass.
    Recover,
    /// Refetch waits for the report after a recovery pass.
    Refetch,
    /// Pin waits for the peer's pin claim to be put on record.
    Pin,
    /// Prepare waits for the local revision and what we hold for the peer.
    Prepare,
    /// Advertise waits for the advertisement to be put on record.
    Advertise,
    /// Offer waits for the peer's answer to our offer.
    Offer,
    /// Exchange waits for the peer exchange.
    Exchange,
    /// Done means that the attempt succeeded.
    Done,
}

/// PublishAction is what a publication attempt does next.
#[derive(Debug)]
pub enum PublishAction {
    /// Connect contacts the peer.
    Connect,
    /// FetchRevision asks the peer what it reports about our revisions.
    FetchRevision,
    /// RecordObservation puts the peer's report on record.
    RecordObservation,
    /// RunRecovery runs a recovery pass.
    RunRecovery,
    /// RecordPinClaim puts on record whether the peer pins us.
    RecordPinClaim(bool),
    /// Prepare makes sure that we have a revision and looks up what we hold for the peer.
    Prepare,
    /// RecordAdvertisement puts on record that we advertise a revision, and
    /// deducts score for an earlier advertisement that the peer never fetched.
    RecordAdvertisement(ContentInfo),
    /// Offer offers our revision in place of the one that the peer knows of.
    Offer {
        /// previous is our revision that the peer knows of.
        previous: Option<ContentInfo>,
        /// content is the revision that we offer.
        content: ContentInfo,
    },
    /// ExchangePeers exchanges known peers.
    ExchangePeers,
    /// Finish reports success.
    Finish,
}

/// OfferRefusal is a peer's refusal of our offer.
#[derive(Debug)]
pub struct OfferRefusal {
    /// status is the failure as the peer reported it.
    pub status: Status,
    /// previous_mismatch reports whether the peer refused because it knows of
    /// another revision of ours than we thought.
    pub previous_mismatch: bool,
}

/// PublishAttempt is one attempt to publish to one peer.
#[derive(Debug)]
pub struct PublishAttempt {
    peer_onion: String,
    phase: PublishPhase,
    revision: Option<PeerRevision>,
    window: Option<LineageWindow>,
    our_content: Option<ContentInfo>,
    their_content_length: i64,
    uploaded: i64,
    storage_result: PublicationStorageResult,
    accepted: bool,
    retried: bool,
}

/// PublishView is the mathematical content of a `PublishAttempt`.
pub struct PublishView {
    /// peer_onion names the peer.
    pub peer_onion: Seq<char>,
    /// phase is how far the attempt has come.
    pub phase: PublishPhase,
    /// revision is the peer's last report.
    pub revision: Option<PeerRevision>,
    /// window is the recovery window that the report was last judged by.
    pub window: Option<LineageWindow>,
    /// our_content is the revision to publish, once it is known.
    pub our_content: Option<ContentInfoView>,
    /// their_content_length is how much we hold for the peer.
    pub their_content_length: i64,
    /// uploaded is how much of our revision the peer has taken over.
    pub uploaded: i64,
    /// storage_result is what the peer did with it.
    pub storage_result: PublicationStorageResult,
    /// accepted reports whether the peer has taken our offer.
    pub accepted: bool,
    /// retried reports whether the offer has been repeated.
    pub retried: bool,
}

impl View for PublishAttempt {
    type V = PublishView;

    closed spec fn view(&self) -> PublishView {
        PublishView {
            peer_onion: self.peer_onion@,
            phase: self.phase,
            revision: self.revision,
            window: self.window,
            our_content: content_view(self.our_content),
            their_content_length: self.their_content_length,
            uploaded: self.uploaded,
            storage_result: self.storage_result,
            accepted: self.accepted,
            retried: self.retried,
        }
    }
}

/// Whether the peer already holds `content`.
pub open spec fn already_holds(revision: PeerRevision, content: ContentInfoView) -> bool {
    stored_view(revision) matches Some(stored) && stored.content_id == content.content_id
}

impl PublishView {
    /// Whether a report is at hand wherever one is needed, a revision to
    /// publish wherever it is offered, and nothing is offered to a peer that
    /// holds it already or that still reports an older revision of ours. An
    /// attempt comes to its end only at a peer that holds our revision already
    /// or has taken our offer.
    pub open spec fn valid(self) -> bool {
        let judged = match self.phase {
            PublishPhase::Pin | PublishPhase::Prepare | PublishPhase::Advertise
            | PublishPhase::Offer => true,
            _ => false,
        };
        let offering = self.phase == PublishPhase::Advertise || self.phase == PublishPhase::Offer;
        &&& self.phase == PublishPhase::Observe || judged ==> self.revision is Some
        &&& judged ==> recovery_verdict(self.revision->0, self.window) is Clear
        &&& offering || self.phase == PublishPhase::Exchange || self.phase == PublishPhase::Done
            ==> self.our_content is Some
        &&& self.phase == PublishPhase::Prepare ==> self.our_content is None
        &&& offering ==> !already_holds(self.revision->0, self.our_content->0)
        &&& self.phase == PublishPhase::Exchange || self.phase == PublishPhase::Done
            ==> self.accepted || (self.revision is Some && already_holds(
            self.revision->0,
            self.our_content->0,
        ))
    }

    /// The attempt in another phase.
    pub open spec fn at(self, phase: PublishPhase) -> PublishView {
        PublishView { phase, ..self }
    }

    /// The attempt once a report is judged and a revision is at hand: it is
    /// offered unless the peer holds it already.
    pub open spec fn deciding_offer(self) -> PublishView {
        if already_holds(self.revision->0, self.our_content->0) {
            self.at(PublishPhase::Exchange)
        } else {
            self.at(PublishPhase::Advertise)
        }
    }
}

/// The attempt before anything has been done.
pub open spec fn fresh_attempt(peer_onion: Seq<char>) -> PublishView {
    PublishView {
        peer_onion,
        phase: PublishPhase::Connect,
        revision: None,
        window: None,
        our_content: None,
        their_content_length: 0,
        uploaded: 0,
        storage_result: PublicationStorageResult::Unknown,
        accepted: false,
        retried: false,
    }
}

/// Whether `action` is what an attempt does next.
pub open spec fn acts(attempt: PublishView, action: PublishAction) -> bool {
    match attempt.phase {
        PublishPhase::Connect => action is Connect,
        PublishPhase::Fetch | PublishPhase::Refetch => action is FetchRevision,
        PublishPhase::Observe => action is RecordObservation,
        PublishPhase::Recover => action is RunRecovery,
        PublishPhase::Pin => action matches PublishAction::RecordPinClaim(pinned) && pinned
            == attempt.revision->0.requester_pinned,
        PublishPhase::Prepare => action is Prepare,
        PublishPhase::Advertise => action matches PublishAction::RecordAdvertisement(content)
            && Some(content@) == attempt.our_content,
        PublishPhase::Offer => action matches PublishAction::Offer { previous, content }
            && content_view(previous) == known_view(attempt.revision->0) && Some(content@)
            == attempt.our_content,
        PublishPhase::Exchange => action is ExchangePeers,
        PublishPhase::Done => action is Finish,
    }
}

/// Whether an attempt moves from `before` to `after` with `outcome` by taking
/// the peer's report. After a recovery pass the report must no longer show an
/// older revision of ours.
pub open spec fn takes_report(
    before: PublishView,
    revision: PeerRevision,
    window: Option<LineageWindow>,
    after: PublishView,
    outcome: Result<(), Status>,
) -> bool {
    let received = PublishView { revision: Some(revision), window, ..before };
    if before.phase == PublishPhase::Fetch {
        outcome is Ok && after == received.at(PublishPhase::Observe)
    } else {
        match publication_refusal(before.peer_onion, revision, window) {
            Some(failure) => fails_with(outcome, failure) && after == before,
            None => outcome is Ok && after == received.at(PublishPhase::Pin),
        }
    }
}

/// Whether an attempt moves from `before` to `after` with `outcome` once the
/// peer's report is on record.
pub open spec fn judges_report(
    before: PublishView,
    after: PublishView,
    outcome: Result<(), Status>,
) -> bool {
    match recovery_verdict(before.revision->0, before.window) {
        Verdict::Malformed(failure) => fails_with(outcome, failure) && after == before,
        Verdict::Recover { .. } => outcome is Ok && after == before.at(PublishPhase::Recover),
        Verdict::Clear => outcome is Ok && after == before.at(PublishPhase::Pin),
    }
}

/// Whether an attempt moves from `before` to `after` with `outcome` by the
/// peer's answer to our offer.
pub open spec fn answers_offer(
    before: PublishView,
    answer: Result<SetContentRevisionStorageResult, OfferRefusal>,
    after: PublishView,
    outcome: Result<(), Status>,
) -> bool {
    match answer {
        Ok(result) => outcome is Ok && after == (PublishView {
            uploaded: before.our_content->0.content_length,
            storage_result: told(result),
            accepted: true,
            ..before
        }).at(PublishPhase::Exchange),
        Err(refusal) => if refusal.previous_mismatch && !before.retried {
            outcome is Ok && after == (PublishView { retried: true, ..before }).at(
                PublishPhase::Fetch,
            )
        } else {
            fails_with(outcome, refusal.status@) && after == before
        },
    }
}

/// The progress reports of an attempt that succeeded.
pub open spec fn success_updates(attempt: PublishView) -> Seq<PublishToPeerUpdate> {
    let length = attempt.our_content->0.content_length;
    let base = PublishToPeerUpdate {
        state: PeerStorageOperationState::ConnectingToPeer,
        success: false,
        their_content_length: 0,
        their_content_downloaded_bytes: 0,
        our_content_length: 0,
        our_content_uploaded_bytes: 0,
        storage_result: PublicationStorageResult::Unknown,
    };
    let synced = PublishToPeerUpdate {
        state: PeerStorageOperationState::SyncingContents,
        their_content_length: attempt.their_content_length,
        our_content_length: length,
        our_content_uploaded_bytes: attempt.uploaded,
        storage_result: attempt.storage_result,
        ..base
    };
    seq![
        base,
        PublishToPeerUpdate {
            state: PeerStorageOperationState::PublishingToPeer,
            their_content_length: attempt.their_content_length,
            ..base
        },
        synced,
        PublishToPeerUpdate {
            state: PeerStorageOperationState::Completed,
            success: true,
            ..synced
        },
    ]
}

impl PublishAttempt {
    /// Begin one proposal attempt against a peer.
    pub fn publish_to_peer_updates_once(
        peer_onion: &str,
        own_onion: &str,
        peer_key_valid: bool,
    ) -> (outcome: Result<PublishAttempt, Status>)
        ensures
            if peer_onion@ == own_onion@ {
                fails_with(outcome, self_peer())
            } else if !peer_key_valid {
                fails_with(outcome, invalid_onion())
            } else {
                outcome matches Ok(attempt) && attempt@ == fresh_attempt(peer_onion@)
                    && attempt@.valid()
            },
    {
        if text_eq(peer_onion, own_onion) {
            return Err(self_peer_error());
        }
        if !peer_key_valid {
            return Err(invalid_onion_error());
        }
        Ok(
            PublishAttempt {
                peer_onion: peer_onion.to_owned(),
                phase: PublishPhase::Connect,
                revision: None,
                window: None,
                our_content: None,
                their_content_length: 0,
                uploaded: 0,
                storage_result: PublicationStorageResult::Unknown,
                accepted: false,
                retried: false,
            },
        )
    }

    /// Tell what to do next.
    pub fn action(&self) -> (action: PublishAction)
        requires
            self@.valid(),
        ensures
            acts(self@, action),
    {
        match self.phase {
            PublishPhase::Connect => PublishAction::Connect,
            PublishPhase::Fetch => PublishAction::FetchRevision,
            PublishPhase::Refetch => PublishAction::FetchRevision,
            PublishPhase::Observe => PublishAction::RecordObservation,
            PublishPhase::Recover => PublishAction::RunRecovery,
            PublishPhase::Pin => match &self.revision {
                Some(revision) => PublishAction::RecordPinClaim(revision.requester_pinned),
                None => PublishAction::Finish,
            },
            PublishPhase::Prepare => PublishAction::Prepare,
            PublishPhase::Advertise => match &self.our_content {
                Some(content) => PublishAction::RecordAdvertisement(content.clone()),
                None => PublishAction::Finish,
            },
            PublishPhase::Offer => match (&self.revision, &self.our_content) {
                (Some(revision), Some(content)) => {
                    let previous = match &revision.latest_known {
                        Some(known) => Some(known.content.clone()),
                        None => None,
                    };
                    PublishAction::Offer { previous, content: content.clone() }
                },
                _ => PublishAction::Finish,
            },
            PublishPhase::Exchange => PublishAction::ExchangePeers,
            PublishPhase::Done => PublishAction::Finish,
        }
    }

    /// Return the peer's last report.
    pub fn report(&self) -> (report: &Option<PeerRevision>)
        ensures
            *report == self@.revision,
    {
        &self.revision
    }

    /// Take note that the peer is connected.
    pub fn connected(&mut self)
        requires
            old(self)@.valid(),
            old(self)@.phase == PublishPhase::Connect,
        ensures
            final(self)@.valid(),
            final(self)@ == old(self)@.at(PublishPhase::Fetch),
    {
        self.phase = PublishPhase::Fetch;
    }

    /// Take the peer's report. After a recovery pass it must no longer show an
    /// older revision of ours.
    pub fn revision_received(&mut self, revision: PeerRevision, window: Option<LineageWindow>) -> (outcome:
        Result<(), Status>)
        requires
            old(self)@.valid(),
            old(self)@.phase == PublishPhase::Fetch || old(self)@.phase == PublishPhase::Refetch,
        ensures
            final(self)@.valid(),
            takes_report(old(self)@, revision, window, final(self)@, outcome),
    {
        let refetched = self.phase == PublishPhase::Refetch;
        if refetched {
            match ensure_peer_revision_does_not_require_recovery(
                self.peer_onion.as_str(),
                &revision,
                &window,
            ) {
                Err(status) => return Err(status),
                Ok(()) => {},
            }
        }
        self.revision = Some(revision);
        self.window = window;
        self.phase = if refetched {
            PublishPhase::Pin
        } else {
            PublishPhase::Observe
        };
        Ok(())
    }

    /// Take note that the report is on record, and decide whether a recovery
    /// pass has to come first.
    pub fn observed(&mut self) -> (outcome: Result<(), Status>)
        requires
            old(self)@.valid(),
            old(self)@.phase == PublishPhase::Observe,
        ensures
            final(self)@.valid(),
            judges_report(old(self)@, final(self)@, outcome),
    {
        let next = match &self.revision {
            None => PublishPhase::Fetch,
            Some(revision) => match recoverable_requester_revision(revision, &self.window) {
                Err(status) => return Err(status),
                Ok(Some(_)) => PublishPhase::Recover,
                Ok(None) => PublishPhase::Pin,
            },
        };
        self.phase = next;
        Ok(())
    }

    /// Take note that the recovery pass is over.
    pub fn recovered(&mut self)
        requires
            old(self)@.valid(),
            old(self)@.phase == PublishPhase::Recover,
        ensures
            final(self)@.valid(),
            final(self)@ == old(self)@.at(PublishPhase::Refetch),
    {
        self.phase = PublishPhase::Refetch;
    }

    /// Offer our revision unless the peer holds it already.
    fn decide_offer(&mut self)
        requires
            old(self)@.revision is Some,
            old(self)@.our_content is Some,
        ensures
            final(self)@ == old(self)@.deciding_offer(),
    {
        let holds = match (&self.revision, &self.our_content) {
            (Some(revision), Some(content)) => match &revision.latest_stored {
                Some(stored) => bytes_eq(
                    stored.content.content_id.as_slice(),
                    content.content_id.as_slice(),
                ),
                None => false,
            },
            _ => false,
        };
        self.phase = if holds {
            PublishPhase::Exchange
        } else {
            PublishPhase::Advertise
        };
    }

    /// Take note that the peer's pin claim is on record.
    pub fn pin_claim_recorded(&mut self)
        requires
            old(self)@.valid(),
            old(self)@.phase == PublishPhase::Pin,
        ensures
            final(self)@.valid(),
            final(self)@ == if old(self)@.our_content is None {
                old(self)@.at(PublishPhase::Prepare)
            } else {
                old(self)@.deciding_offer()
            },
    {
        if self.our_content.is_none() {
            self.phase = PublishPhase::Prepare;
        } else {
            self.decide_offer();
        }
    }

    /// Take the revision to publish and how much we hold for the peer.
    pub fn prepared(&mut self, their_content_length: i64, our_content: ContentInfo)
        requires
            old(self)@.valid(),
            old(self)@.phase == PublishPhase::Prepare,
        ensures
            final(self)@.valid(),
            final(self)@ == (PublishView {
                our_content: Some(our_content@),
                their_content_length,
                ..old(self)@
            }).deciding_offer(),
    {
        self.our_content = Some(our_content);
        self.their_content_length = their_content_length;
        self.decide_offer();
    }

    /// Take note that the advertisement is on record.
    pub fn advertised(&mut self)
        requires
            old(self)@.valid(),
            old(self)@.phase == PublishPhase::Advertise,
        ensures
            final(self)@.valid(),
            final(self)@ == old(self)@.at(PublishPhase::Offer),
    {
        self.phase = PublishPhase::Offer;
    }

    /// Take the peer's answer to our offer. A peer that knows of another
    /// revision of ours than we thought is asked once more; any other refusal
    /// ends the attempt.
    pub fn offer_answered(
        &mut self,
        answer: Result<SetContentRevisionStorageResult, OfferRefusal>,
    ) -> (outcome: Result<(), Status>)
        requires
            old(self)@.valid(),
            old(self)@.phase == PublishPhase::Offer,
        ensures
            final(self)@.valid(),
            answers_offer(old(self)@, answer, final(self)@, outcome),
    {
        match answer {
            Ok(result) => {
                self.storage_result = proto_publication_storage_result(result);
                self.accepted = true;
                self.uploaded = match &self.our_content {
                    Some(content) => content.content_length,
                    None => 0,
                };
                self.phase = PublishPhase::Exchange;
                Ok(())
            },
            Err(refusal) => {
                if refusal.previous_mismatch && !self.retried {
                    self.retried = true;
                    self.phase = PublishPhase::Fetch;
                    return Ok(());
                }
                Err(refusal.status)
            },
        }
    }

    /// Take note that the peer exchange is over.
    pub fn peers_exchanged(&mut self)
        requires
            old(self)@.valid(),
            old(self)@.phase == PublishPhase::Exchange,
        ensures
            final(self)@.valid(),
            final(self)@ == old(self)@.at(PublishPhase::Done),
    {
        self.phase = PublishPhase::Done;
    }

    /// Return the progress reports once the attempt has succeeded.
    pub fn updates(&self) -> (updates: Vec<PublishToPeerUpdate>)
        requires
            self@.valid(),
            self@.phase == PublishPhase::Done,
        ensures
            updates@ == success_updates(self@),
    {
        let our_content_length = match &self.our_content {
            Some(content) => content.content_length,
            None => 0,
        };
        let base = PublishToPeerUpdate {
            state: PeerStorageOperationState::ConnectingToPeer,
            success: false,
            their_content_length: 0,
            their_content_downloaded_bytes: 0,
            our_content_length: 0,
            our_content_uploaded_bytes: 0,
            storage_result: PublicationStorageResult::Unknown,
        };
        let synced = PublishToPeerUpdate {
            state: PeerStorageOperationState::SyncingContents,
            success: false,
            their_content_length: self.their_content_length,
            their_content_downloaded_bytes: 0,
            our_content_length,
            our_content_uploaded_bytes: self.uploaded,
            storage_result: self.storage_result,
        };
        let mut updates: Vec<PublishToPeerUpdate> = Vec::new();
        updates.push(base);
        updates.push(
            PublishToPeerUpdate {
                state: PeerStorageOperationState::PublishingToPeer,
                their_content_length: self.their_content_length,
                ..base
            },
        );
        updates.push(synced);
        updates.push(
            PublishToPeerUpdate {
                state: PeerStorageOperationState::Completed,
                success: true,
                ..synced
            },
        );
        assert(updates@ =~= success_updates(self@));
        updates
    }
}

/// Our revision is never offered while the peer still reports an older one
/// that has to be recovered, nor to a peer that holds it already.
pub proof fn law_no_offer_before_recovery(attempt: PublishView, action: PublishAction)
    requires
        attempt.valid(),
        acts(attempt, action),
        action is Offer,
    ensures
        recovery_verdict(attempt.revision->0, attempt.window) is Clear,
        !already_holds(attempt.revision->0, attempt.our_content->0),
{
}

/// Only the last progress report tells of success.
pub proof fn law_success_is_reported_last(attempt: PublishView, i: int)
    requires
        0 <= i < 4,
    ensures
        success_updates(attempt).len() == 4,
        success_updates(attempt)[i].success <==> i == 3,
        success_updates(attempt)[i].success ==> success_updates(attempt)[i].state
            == PeerStorageOperationState::Completed,
{
}

/// Whatever the peer knows of, our revision is offered next exactly when the
/// report does not name it as the one that the peer can return.
pub proof fn law_offer_follows_the_stored_revision(attempt: PublishView)
    requires
        attempt.revision is Some,
        attempt.our_content is Some,
    ensures
        ({
            let stored = attempt.revision->0.latest_stored;
            let next = attempt.deciding_offer();
            let held = stored is Some && stored->0.content.content_id@
                == attempt.our_content->0.content_id;
            &&& held ==> next == (PublishView { phase: PublishPhase::Exchange, ..attempt })
            &&& !held ==> next == (PublishView { phase: PublishPhase::Advertise, ..attempt })
        }),
{
}

/// An attempt that succeeds without an accepted offer does so because the
/// peer's last report names our revision as one that the peer can return.
pub proof fn law_success_means_held_or_accepted(attempt: PublishView)
    requires
        attempt.valid(),
        attempt.phase == PublishPhase::Exchange || attempt.phase == PublishPhase::Done,
    ensures
        attempt.our_content is Some,
        attempt.accepted || (attempt.revision is Some && attempt.revision->0.latest_stored is Some
            && attempt.revision->0.latest_stored->0.content.content_id@
            == attempt.our_content->0.content_id),
{
}

/// What is advertised and offered is our revision, in place of the one that the
/// peer last reported to know of.
pub proof fn law_offer_names_our_revision(attempt: PublishView, action: PublishAction)
    requires
        attempt.valid(),
        acts(attempt, action),
    ensures
        action matches PublishAction::RecordAdvertisement(content) ==> Some(content@)
            == attempt.our_content,
        action matches PublishAction::Offer { previous, content } ==> {
            &&& Some(content@) == attempt.our_content
            &&& previous is Some <==> attempt.revision->0.latest_known is Some
            &&& previous matches Some(known) ==> known.content_id@
                == attempt.revision->0.latest_known->0.content.content_id@ && known.content_length
                == attempt.revision->0.latest_known->0.content.content_length
        },
        action matches PublishAction::RecordPinClaim(pinned) ==> pinned
            == attempt.revision->0.requester_pinned,
        action is Finish ==> attempt.phase == PublishPhase::Done,
{
}

/// An accepted offer counts as uploaded whole; a refusal for another revision
/// than thought leads to one more look at the peer's report and no second one;
/// every other refusal ends the attempt with the peer's own failure.
pub proof fn law_refused_offer_is_repeated_once(
    before: PublishView,
    answer: Result<SetContentRevisionStorageResult, OfferRefusal>,
    after: PublishView,
    outcome: Result<(), Status>,
)
    requires
        before.our_content is Some,
        answers_offer(before, answer, after, outcome),
    ensures
        answer is Ok ==> outcome is Ok && after.phase == PublishPhase::Exchange && after.accepted
            && after.uploaded == before.our_content->0.content_length,
        answer matches Ok(SetContentRevisionStorageResult::MirroredBytesCached)
            ==> after.storage_result == PublicationStorageResult::MirroredBytesCached,
        answer matches Ok(SetContentRevisionStorageResult::SidecarOnly) ==> after.storage_result
            == PublicationStorageResult::SidecarOnly,
        answer matches Ok(SetContentRevisionStorageResult::Unknown) ==> after.storage_result
            == PublicationStorageResult::Unknown,
        answer matches Err(refusal) ==> {
            &&& !after.accepted || before.accepted
            &&& outcome is Ok <==> refusal.previous_mismatch && !before.retried
            &&& outcome is Ok ==> after.phase == PublishPhase::Fetch && after.retried
            &&& outcome matches Err(status) ==> status@ == refusal.status@
        },
        after.our_content == before.our_content,
        before.retried ==> after.retried,
{
}

/// A peer's report sends an attempt into recovery exactly when it shows, among
/// what the peer can return or knows of, a readable revision that was made
/// before this node was set up and after everything recovered so far.
pub proof fn law_older_revisions_are_recovered_first(
    before: PublishView,
    after: PublishView,
    outcome: Result<(), Status>,
)
    requires
        before.revision is Some,
        judges_report(before, after, outcome),
    ensures
        ({
            let report = before.revision->0;
            &&& outcome is Ok && after.phase == PublishPhase::Recover ==> crate::lineage::shows_older(
                report.latest_stored,
                before.window,
            ) || crate::lineage::shows_older(report.latest_known, before.window)
            &&& crate::lineage::shows_older(report.latest_stored, before.window) ==> outcome is Ok
                && after.phase == PublishPhase::Recover
            &&& outcome is Ok && crate::lineage::shows_older(report.latest_known, before.window)
                ==> after.phase == PublishPhase::Recover
            &&& outcome is Ok ==> after.phase == PublishPhase::Recover || after.phase
                == PublishPhase::Pin
        }),
{
    crate::lineage::law_verdict_finds_older_revisions(before.revision->0, before.window);
}

/// The progress reports tell of connecting, publishing, syncing and success, in
/// this order. What we hold for the peer shows from publishing on, and our
/// revision and what became of it from syncing on.
pub proof fn law_progress_is_reported_in_order(attempt: PublishView)
    requires
        attempt.our_content is Some,
    ensures
        ({
            let updates = success_updates(attempt);
            &&& updates.len() == 4
            &&& updates[0].state == PeerStorageOperationState::ConnectingToPeer
            &&& updates[1].state == PeerStorageOperationState::PublishingToPeer
            &&& updates[2].state == PeerStorageOperationState::SyncingContents
            &&& updates[3].state == PeerStorageOperationState::Completed
            &&& !updates[0].success && !updates[1].success && !updates[2].success
            &&& updates[3].success
            &&& updates[0].their_content_length == 0
            &&& forall|i: int|
                1 <= i < 4 ==> (#[trigger] updates[i]).their_content_length
                    == attempt.their_content_length
            &&& forall|i: int|
                0 <= i < 2 ==> (#[trigger] updates[i]).our_content_length == 0
                    && updates[i].our_content_uploaded_bytes == 0 && updates[i].storage_result
                    == PublicationStorageResult::Unknown
            &&& forall|i: int|
                2 <= i < 4 ==> (#[trigger] updates[i]).our_content_length
                    == attempt.our_content->0.content_length && updates[i].our_content_uploaded_bytes
                    == attempt.uploaded && updates[i].storage_result == attempt.storage_result
            &&& forall|i: int|
                0 <= i < 4 ==> (#[trigger] updates[i]).their_content_downloaded_bytes == 0
        }),
{
}

/// Publishing begins with any other peer that has a key, from the start; what
/// the peer did with an offer is told as it said.
pub proof fn law_publication_begins_from_the_start(
    peer_onion: &str,
    own_onion: &str,
    key_valid: bool,
    outcome: Result<PublishAttempt, Status>,
    result: SetContentRevisionStorageResult,
    shown: PublicationStorageResult,
)
    requires
        call_ensures(
            PublishAttempt::publish_to_peer_updates_once,
            (peer_onion, own_onion, key_valid),
            outcome,
        ),
        call_ensures(proto_publication_storage_result, (result,), shown),
    ensures
        outcome is Ok <==> peer_onion@ != own_onion@ && key_valid,
        outcome matches Ok(attempt) ==> {
            &&& attempt@.peer_onion == peer_onion@
            &&& attempt@.phase == PublishPhase::Connect
            &&& attempt@.revision is None
            &&& attempt@.our_content is None
            &&& !attempt@.accepted
        },
        shown is MirroredBytesCached <==> result is MirroredBytesCached,
        shown is SidecarOnly <==> result is SidecarOnly,
        shown is Unknown <==> result is Unknown,
{
}

/// Each phase of an attempt has one action of its own.
pub proof fn law_each_phase_has_its_action(attempt: PublishView, action: PublishAction)
    requires
        attempt.valid(),
        acts(attempt, action),
    ensures
        action is Connect <==> attempt.phase == PublishPhase::Connect,
        action is FetchRevision <==> attempt.phase == PublishPhase::Fetch || attempt.phase
            == PublishPhase::Refetch,
        action is RecordObservation <==> attempt.phase == PublishPhase::Observe,
        action is RunRecovery <==> attempt.phase == PublishPhase::Recover,
        action is RecordPinClaim <==> attempt.phase == PublishPhase::Pin,
        action is Prepare <==> attempt.phase == PublishPhase::Prepare,
        action is RecordAdvertisement <==> attempt.phase == PublishPhase::Advertise,
        action is Offer <==> attempt.phase == PublishPhase::Offer,
        action is ExchangePeers <==> attempt.phase == PublishPhase::Exchange,
        action is Finish <==> attempt.phase == PublishPhase::Done,
{
}

/// The first report is kept whatever it shows. The one after a recovery pass is
/// kept only if it shows no older revision of ours, and a report that is not
/// kept leaves the attempt as it was.
pub proof fn law_report_is_kept_unless_recovery_failed(
    before: PublishView,
    revision: PeerRevision,
    window: Option<LineageWindow>,
    after: PublishView,
    outcome: Result<(), Status>,
)
    requires
        before.phase == PublishPhase::Fetch || before.phase == PublishPhase::Refetch,
        takes_report(before, revision, window, after, outcome),
    ensures
        before.phase == PublishPhase::Fetch ==> outcome is Ok,
        outcome is Ok ==> after.revision == Some(revision) && after.window == window,
        outcome is Ok ==> after.phase == if before.phase == PublishPhase::Fetch {
            PublishPhase::Observe
        } else {
            PublishPhase::Pin
        },
        before.phase == PublishPhase::Refetch && outcome is Ok ==> !crate::lineage::shows_older(
            revision.latest_stored,
            window,
        ) && !crate::lineage::shows_older(revision.latest_known, window),
        outcome is Err ==> after == before,
        after.peer_onion == before.peer_onion,
        after.our_content == before.our_content,
        after.their_content_length == before.their_content_length,
        after.uploaded == before.uploaded,
        after.storage_result == before.storage_result,
        after.accepted == before.accepted,
        after.retried == before.retried,
{
    crate::lineage::law_verdict_finds_older_revisions(revision, window);
}

/// Judging a report changes nothing but the phase, and a report that cannot be
/// judged leaves the attempt as it was.
pub proof fn law_judging_moves_the_phase_alone(
    before: PublishView,
    after: PublishView,
    outcome: Result<(), Status>,
)
    requires
        judges_report(before, after, outcome),
    ensures
        after == (PublishView { phase: after.phase, ..before }),
        outcome is Err ==> after == before,
{
}

/// Publishing to ourselves is refused for the state of the node, publishing to a
/// hostname without a key for the request.
pub proof fn law_refused_publication_tells_why(
    peer_onion: &str,
    own_onion: &str,
    key_valid: bool,
    outcome: Result<PublishAttempt, Status>,
)
    requires
        call_ensures(
            PublishAttempt::publish_to_peer_updates_once,
            (peer_onion, own_onion, key_valid),
            outcome,
        ),
    ensures
        outcome matches Err(status) ==> (status.code is FailedPrecondition <==> peer_onion@
            == own_onion@),
        outcome matches Err(status) ==> (status.code is InvalidArgument <==> peer_onion@
            != own_onion@),
{
}

} // verus!

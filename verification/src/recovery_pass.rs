//! One automatic recovery pass from the first probe to the summary.

use crate::collections::texts;
use crate::content::CurrentContent;
use crate::lineage::{
    in_window, key_time, shows_older, time_before, LineageWindow, ParsedRevision, PeerRevision, RevisionKey,
};
use crate::recovery::{
    after_known, after_peer, after_report, applicable, candidate_views, counts_applied, empty_scan,
    law_scan_sets_nest, lists_oldest_first, needs_restore, nested, noted, noted_if,
    parsed_in_window, reports_pass, scan_failure, starts_from, CandidateView, Candidates,
    RecoveryCandidate, RecoveryMergeOutcome, RecoveryPassAccumulator, RecoveryPassSummary,
    RecoveryScan, ScanView,
};
use crate::status::{fails_with, Status, StorageError};
use crate::text::text_eq;
use vstd::prelude::*;

verus! {

/// RecoveryPass scans all peers and then applies what they still hold, in
/// timestamp order. A peer that cannot be probed and a revision that cannot be
/// applied are passed over.
#[derive(Debug)]
pub struct RecoveryPass {
    peers: Vec<String>,
    next_peer: usize,
    scan: RecoveryScan,
    candidates: Vec<RecoveryCandidate>,
    next_candidate: usize,
    totals: RecoveryPassAccumulator,
}

/// RecoveryAction is what a recovery pass does next.
#[derive(Debug)]
pub enum RecoveryAction {
    /// Probe asks the named peer about our revisions.
    Probe(String),
    /// Apply restores or merges one revision.
    Apply(RecoveryCandidate),
    /// Finish renders the summary.
    Finish,
}

/// The items other than `own`, in order.
pub open spec fn others(items: Seq<Seq<char>>, own: Seq<char>) -> Seq<Seq<char>>
    decreases items.len(),
{
    if items.len() == 0 {
        Seq::<Seq<char>>::empty()
    } else if items.last() == own {
        others(items.drop_last(), own)
    } else {
        others(items.drop_last(), own).push(items.last())
    }
}

/// Copy the items other than `own`.
pub fn other_peers(items: &[String], own: &str) -> (rest: Vec<String>)
    ensures
        texts(rest@) == others(texts(items@), own@),
{
    let ghost views = texts(items@);
    let mut rest: Vec<String> = Vec::new();
    let mut i: usize = 0;
    assert(texts(rest@) =~= others(views.take(0), own@));
    while i < items.len()
        invariant
            i <= items.len(),
            views == texts(items@),
            texts(rest@) == others(views.take(i as int), own@),
        decreases items.len() - i,
    {
        let ghost before = rest@;
        assert(views.take(i + 1).drop_last() =~= views.take(i as int));
        assert(views.take(i + 1).last() == items@[i as int]@);
        if !text_eq(items[i].as_str(), own) {
            rest.push(items[i].clone());
            assert(texts(rest@) =~= texts(before).push(views[i as int]));
        }
        i += 1;
    }
    assert(views.take(i as int) =~= views);
    rest
}

impl RecoveryPass {
    /// The peers that are still to be probed.
    pub closed spec fn unprobed(&self) -> Seq<Seq<char>> {
        texts(self.peers@).skip(self.next_peer as int)
    }

    /// What has been reported so far.
    pub closed spec fn reported(&self) -> ScanView {
        self.scan@
    }

    /// What is still to be applied, once every peer has been probed.
    pub closed spec fn pending(&self) -> Seq<CandidateView> {
        candidate_views(self.candidates@).skip(self.next_candidate as int)
    }

    /// The account of the pass, once every peer has been probed.
    pub closed spec fn account(&self) -> RecoveryPassAccumulator {
        self.totals
    }

    /// Positions stay within their lists.
    pub closed spec fn wf(&self) -> bool {
        &&& self.scan.wf()
        &&& self.next_peer <= self.peers@.len()
        &&& self.next_candidate <= self.candidates@.len()
    }

    /// Whether applying can begin: all that is applicable is pending, in
    /// timestamp order, and nothing has been accounted for yet.
    pub open spec fn ready(&self) -> bool {
        &&& lists_oldest_first(self.pending(), applicable(self.reported()))
        &&& starts_from(self.account(), self.reported())
    }

    /// Begin a pass over `known_peers`, leaving out the node itself.
    pub fn run_recovery_pass(known_peers: &[String], own_onion: &str) -> (pass: Self)
        ensures
            pass.wf(),
            pass.unprobed() == others(texts(known_peers@), own_onion@),
            pass.reported() == empty_scan(),
            pass.ready(),
    {
        let scan = RecoveryScan::new();
        let totals = scan.accumulator();
        let candidates = scan.candidates_to_apply();
        let pass = RecoveryPass {
            peers: other_peers(known_peers, own_onion),
            next_peer: 0,
            scan,
            candidates,
            next_candidate: 0,
            totals,
        };
        assert(pass.unprobed() =~= others(texts(known_peers@), own_onion@));
        assert(pass.pending() =~= candidate_views(candidates@));
        pass
    }

    /// Tell what to do next.
    pub fn action(&self) -> (action: RecoveryAction)
        requires
            self.wf(),
        ensures
            if self.unprobed().len() > 0 {
                action matches RecoveryAction::Probe(peer) && peer@ == self.unprobed()[0]
            } else if self.pending().len() > 0 {
                action matches RecoveryAction::Apply(candidate) && candidate@ == self.pending()[0]
            } else {
                action is Finish
            },
    {
        if self.next_peer < self.peers.len() {
            return RecoveryAction::Probe(self.peers[self.next_peer].clone());
        }
        if self.next_candidate < self.candidates.len() {
            return RecoveryAction::Apply(self.candidates[self.next_candidate].clone());
        }
        RecoveryAction::Finish
    }

    /// Take note of what the probed peer answered. A failure ends the pass.
    pub fn probed(
        &mut self,
        answer: &Result<PeerRevision, Status>,
        window: &Option<LineageWindow>,
        current: &Option<CurrentContent>,
        current_blob: &Result<(), StorageError>,
    ) -> (outcome: Result<(), Status>)
        requires
            old(self).wf(),
            old(self).unprobed().len() > 0,
        ensures
            final(self).wf(),
            takes_answer(
                *old(self),
                *answer,
                *window,
                *current,
                *current_blob,
                outcome,
                *final(self),
            ),
    {
        assert(self.next_peer < self.peers.len());
        assert(self.unprobed()[0] == self.peers@[self.next_peer as int]@);
        if let Ok(revision) = answer {
            match self.scan.observe_peer(
                self.peers[self.next_peer].as_str(),
                revision,
                window,
                current,
                current_blob,
            ) {
                Err(status) => return Err(status),
                Ok(()) => {},
            }
        }
        self.next_peer = self.next_peer + 1;
        assert(self.unprobed() =~= old(self).unprobed().drop_first());
        if self.next_peer == self.peers.len() {
            self.candidates = self.scan.candidates_to_apply();
            self.next_candidate = 0;
            self.totals = self.scan.accumulator();
            assert(self.pending() =~= candidate_views(self.candidates@));
        }
        Ok(())
    }

    /// Take note of how applying the next revision went.
    pub fn applied(&mut self, result: &Result<(RecoveryMergeOutcome, i64), Status>)
        requires
            old(self).wf(),
            old(self).unprobed().len() == 0,
            old(self).pending().len() > 0,
        ensures
            final(self).wf(),
            takes_result(*old(self), *result, *final(self)),
    {
        assert(self.next_candidate < self.candidates.len());
        assert(self.pending()[0] == self.candidates@[self.next_candidate as int]@);
        if let Ok(done) = result {
            self.totals.note_applied(&self.candidates[self.next_candidate], done.0, done.1);
        }
        self.next_candidate = self.next_candidate + 1;
        assert(self.pending() =~= old(self).pending().drop_first());
    }

    /// Render the summary once nothing is left to do.
    pub fn finish(&self, publication_blocked_reason: Option<String>) -> (summary:
        RecoveryPassSummary)
        requires
            self.wf(),
            self.unprobed().len() == 0,
            self.pending().len() == 0,
        ensures
            reports_pass(
                summary,
                self.account(),
                match publication_blocked_reason {
                    Some(reason) => Some(reason@),
                    None => None,
                },
            ),
    {
        self.totals.summary(publication_blocked_reason)
    }
}

/// Whether the answer of the probed peer leads from `pass` to `after`.
pub open spec fn takes_answer(
    pass: RecoveryPass,
    answer: Result<PeerRevision, Status>,
    window: Option<LineageWindow>,
    current: Option<CurrentContent>,
    blob: Result<(), StorageError>,
    outcome: Result<(), Status>,
    after: RecoveryPass,
) -> bool {
    match answer {
        Err(_) => {
            &&& outcome is Ok
            &&& after.unprobed() == pass.unprobed().drop_first()
            &&& after.reported() == pass.reported()
            &&& after.unprobed().len() == 0 ==> after.ready()
        },
        Ok(revision) => match scan_failure(revision, current, blob) {
            Some(failure) => fails_with(outcome, failure),
            None => {
                &&& outcome is Ok
                &&& after.unprobed() == pass.unprobed().drop_first()
                &&& after.reported() == after_peer(
                    pass.reported(),
                    pass.unprobed()[0],
                    revision,
                    window,
                    current,
                    blob,
                )
                &&& after.unprobed().len() == 0 ==> after.ready()
            },
        },
    }
}

/// Whether applying the next revision leads from `pass` to `after`.
pub open spec fn takes_result(
    pass: RecoveryPass,
    result: Result<(RecoveryMergeOutcome, i64), Status>,
    after: RecoveryPass,
) -> bool {
    &&& after.unprobed() == pass.unprobed()
    &&& after.reported() == pass.reported()
    &&& after.pending() == pass.pending().drop_first()
    &&& match result {
        Ok(done) => counts_applied(
            pass.account(),
            after.account(),
            pass.pending()[0],
            done.0,
            done.1 as int,
        ),
        Err(_) => after.account() == pass.account(),
    }
}

/// PeerReport is what one probed peer answered.
pub struct PeerReport {
    /// peer names the peer.
    pub peer: Seq<char>,
    /// revision is what the peer reports about our revisions.
    pub revision: PeerRevision,
}

/// The scan after all of `reports`, in order.
pub open spec fn scan_of(
    reports: Seq<PeerReport>,
    window: Option<LineageWindow>,
    current: Option<CurrentContent>,
    blob: Result<(), StorageError>,
) -> ScanView
    decreases reports.len(),
{
    if reports.len() == 0 {
        empty_scan()
    } else {
        after_peer(
            scan_of(reports.drop_last(), window, current, blob),
            reports.last().peer,
            reports.last().revision,
            window,
            current,
            blob,
        )
    }
}

/// Whether a revision's key is what its content identifier encodes.
pub open spec fn parsed_by(
    revision: Option<ParsedRevision>,
    encoded: spec_fn(Seq<u8>) -> Result<RevisionKey, StorageError>,
) -> bool {
    revision matches Some(parsed) ==> parsed.key == encoded(parsed.content@.content_id)
}

/// Whether every reported key is what its content identifier encodes.
pub open spec fn all_parsed_by(
    reports: Seq<PeerReport>,
    encoded: spec_fn(Seq<u8>) -> Result<RevisionKey, StorageError>,
) -> bool {
    forall|i: int|
        0 <= i < reports.len() ==> parsed_by(
            (#[trigger] reports[i]).revision.latest_known,
            encoded,
        ) && parsed_by(reports[i].revision.latest_stored, encoded)
}

/// Whether every candidate has the key that its identifier encodes, and is
/// still to be recovered.
spec fn all_in_window(
    candidates: Candidates,
    window: Option<LineageWindow>,
    encoded: spec_fn(Seq<u8>) -> Result<RevisionKey, StorageError>,
) -> bool {
    forall|id: Seq<u8>| #[trigger]
        candidates.dom().contains(id) ==> encoded(id) == Ok::<RevisionKey, StorageError>(
            candidates[id].key,
        ) && in_window(candidates[id].key, window)
}

/// Whether a revision is among the candidates if it is still to be recovered.
spec fn found_if_older(
    candidates: Candidates,
    revision: Option<ParsedRevision>,
    window: Option<LineageWindow>,
) -> bool {
    revision matches Some(parsed) ==> parsed.key matches Ok(key) ==> in_window(key, window)
        ==> candidates.dom().contains(parsed.content@.content_id)
}

/// A scan lists exactly the reported revisions that are still to be recovered.
proof fn lemma_scan_of(
    reports: Seq<PeerReport>,
    encoded: spec_fn(Seq<u8>) -> Result<RevisionKey, StorageError>,
    window: Option<LineageWindow>,
    current: Option<CurrentContent>,
    blob: Result<(), StorageError>,
)
    requires
        all_parsed_by(reports, encoded),
    ensures
        ({
            let scan = scan_of(reports, window, current, blob);
            &&& nested(scan)
            &&& scan.older_lineage.dom().finite()
            &&& scan.recoverable.dom().finite()
            &&& all_in_window(scan.older_lineage, window, encoded)
            &&& all_in_window(scan.recoverable, window, encoded)
            &&& forall|i: int|
                0 <= i < reports.len() ==> found_if_older(
                    scan.older_lineage,
                    (#[trigger] reports[i]).revision.latest_known,
                    window,
                ) && found_if_older(
                    scan.older_lineage,
                    reports[i].revision.latest_stored,
                    window,
                )
        }),
    decreases reports.len(),
{
    if reports.len() > 0 {
        let rest = reports.drop_last();
        let report = reports.last();
        assert(report == reports[reports.len() - 1]);
        assert forall|i: int| 0 <= i < rest.len() implies parsed_by(
            (#[trigger] rest[i]).revision.latest_known,
            encoded,
        ) && parsed_by(rest[i].revision.latest_stored, encoded) by {
            assert(rest[i] == reports[i]);
        }
        lemma_scan_of(rest, encoded, window, current, blob);
        let before = scan_of(rest, window, current, blob);
        law_scan_sets_nest(before, report.peer, report.revision, window, current, blob);
        let scan = scan_of(reports, window, current, blob);
        assert forall|i: int| 0 <= i < reports.len() implies found_if_older(
            scan.older_lineage,
            (#[trigger] reports[i]).revision.latest_known,
            window,
        ) && found_if_older(scan.older_lineage, reports[i].revision.latest_stored, window) by {
            if i < rest.len() {
                assert(rest[i] == reports[i]);
            }
        }
    }
}

/// What peers know of does not depend on what is still to be recovered.
proof fn lemma_known_ignores_window(
    reports: Seq<PeerReport>,
    window: Option<LineageWindow>,
    current: Option<CurrentContent>,
    blob: Result<(), StorageError>,
    later_window: Option<LineageWindow>,
    later_current: Option<CurrentContent>,
    later_blob: Result<(), StorageError>,
)
    ensures
        scan_of(reports, window, current, blob).known == scan_of(
            reports,
            later_window,
            later_current,
            later_blob,
        ).known,
        scan_of(reports, window, current, blob).peers_with_any_versions == scan_of(
            reports,
            later_window,
            later_current,
            later_blob,
        ).peers_with_any_versions,
    decreases reports.len(),
{
    if reports.len() > 0 {
        lemma_known_ignores_window(
            reports.drop_last(),
            window,
            current,
            blob,
            later_window,
            later_current,
            later_blob,
        );
    }
}

/// Whether a revision is not to be recovered.
spec fn left_alone(revision: Option<ParsedRevision>, window: Option<LineageWindow>) -> bool {
    revision matches Some(parsed) ==> parsed.key matches Ok(key) ==> !in_window(key, window)
}

/// While the active blob is present, reports of revisions that are not to be
/// recovered give nothing to apply.
proof fn lemma_nothing_to_apply(
    reports: Seq<PeerReport>,
    window: Option<LineageWindow>,
    current: Option<CurrentContent>,
)
    requires
        forall|i: int|
            0 <= i < reports.len() ==> left_alone(
                (#[trigger] reports[i]).revision.latest_known,
                window,
            ) && left_alone(reports[i].revision.latest_stored, window),
    ensures
        ({
            let scan = scan_of(reports, window, current, Ok(()));
            &&& scan.older_lineage == Candidates::empty()
            &&& scan.recoverable == Candidates::empty()
            &&& scan.current_restore == Candidates::empty()
        }),
    decreases reports.len(),
{
    if reports.len() > 0 {
        let rest = reports.drop_last();
        assert(reports.last() == reports[reports.len() - 1]);
        assert forall|i: int| 0 <= i < rest.len() implies left_alone(
            (#[trigger] rest[i]).revision.latest_known,
            window,
        ) && left_alone(rest[i].revision.latest_stored, window) by {
            assert(rest[i] == reports[i]);
        }
        lemma_nothing_to_apply(rest, window, current);
    }
}

/// Whether a revision, if there is one, was made at or before `watermark`.
pub open spec fn at_or_before(revision: Option<ParsedRevision>, watermark: (i64, i64)) -> bool {
    revision matches Some(parsed) ==> parsed.key matches Ok(key) ==> !time_before(
        watermark,
        key_time(key),
    )
}

/// Where every reported revision was made at or before the recovery watermark
/// and the active blob is present, a pass finds nothing to recover and applies
/// nothing.
pub proof fn law_recovered_reports_leave_no_work(
    reports: Seq<PeerReport>,
    node_initialized_at: (i64, i64),
    watermark: (i64, i64),
    current: Option<CurrentContent>,
    list: Seq<CandidateView>,
)
    requires
        forall|i: int|
            0 <= i < reports.len() ==> at_or_before(
                (#[trigger] reports[i]).revision.latest_known,
                watermark,
            ) && at_or_before(reports[i].revision.latest_stored, watermark),
        ({
            let window = LineageWindow { node_initialized_at, recovery_watermark: Some(watermark) };
            lists_oldest_first(list, applicable(scan_of(reports, Some(window), current, Ok(()))))
        }),
    ensures
        ({
            let window = LineageWindow { node_initialized_at, recovery_watermark: Some(watermark) };
            let scan = scan_of(reports, Some(window), current, Ok(()));
            &&& scan.older_lineage == Candidates::empty()
            &&& scan.recoverable == Candidates::empty()
            &&& applicable(scan) == Candidates::empty()
        }),
        list.len() == 0,
{
    let window = LineageWindow { node_initialized_at, recovery_watermark: Some(watermark) };
    let scan = scan_of(reports, Some(window), current, Ok(()));
    lemma_nothing_to_apply(reports, Some(window), current);
    assert(applicable(scan) =~= Candidates::empty());
    if list.len() > 0 {
        assert(applicable(scan).dom().contains(list[0].content_id));
    }
}

/// Once a pass has applied every older revision that was reported, and the
/// watermark lies at or past all of them, a pass over the same reports with the
/// active blob present succeeds, finds as many revisions as before, finds none
/// to recover and applies none.
pub proof fn law_repeated_pass_applies_nothing(
    reports: Seq<PeerReport>,
    encoded: spec_fn(Seq<u8>) -> Result<RevisionKey, StorageError>,
    window: LineageWindow,
    current: Option<CurrentContent>,
    blob: Result<(), StorageError>,
    applied: Seq<CandidateView>,
    found: RecoveryPassAccumulator,
    watermark: (i64, i64),
    later_current: Option<CurrentContent>,
    pending: Seq<CandidateView>,
    later_found: RecoveryPassAccumulator,
    summary: RecoveryPassSummary,
    blocked: Option<Seq<char>>,
)
    requires
        all_parsed_by(reports, encoded),
        ({
            let first = scan_of(reports, Some(window), current, blob);
            &&& lists_oldest_first(applied, applicable(first))
            &&& starts_from(found, first)
            &&& first.older_lineage.dom().len() == first.recoverable.dom().len()
            &&& first.older_lineage.dom().len() > 0
        }),
        forall|a: int|
            0 <= a < applied.len() ==> !time_before(watermark, key_time((#[trigger] applied[a]).key)),
        ({
            let moved = LineageWindow { recovery_watermark: Some(watermark), ..window };
            let second = scan_of(reports, Some(moved), later_current, Ok(()));
            &&& lists_oldest_first(pending, applicable(second))
            &&& starts_from(later_found, second)
            &&& reports_pass(summary, later_found, blocked)
        }),
    ensures
        forall|i: int|
            0 <= i < reports.len() && scan_failure((#[trigger] reports[i]).revision, current, blob)
                is None ==> scan_failure(reports[i].revision, later_current, Ok(())) is None,
        pending.len() == 0,
        summary.total_versions_found == found.total_versions_found,
        summary.peers_with_any_versions == found.peers_with_any_versions,
        summary.older_lineage_versions_found == 0,
        summary.older_lineage_recoverable_versions_found == 0,
        summary.applied_versions == 0,
        summary.latest_applied_content_id@.len() == 0,
{
    let open = Some(window);
    let moved = Some(LineageWindow { recovery_watermark: Some(watermark), ..window });
    let first = scan_of(reports, open, current, blob);
    let second = scan_of(reports, moved, later_current, Ok(()));
    lemma_scan_of(reports, encoded, open, current, blob);
    lemma_known_ignores_window(reports, open, current, blob, moved, later_current, Ok(()));
    assert(first.recoverable.dom() =~= first.older_lineage.dom()) by {
        assert(first.recoverable.dom().subset_of(first.older_lineage.dom()));
        vstd::set_lib::lemma_subset_equality(first.recoverable.dom(), first.older_lineage.dom());
    }
    assert forall|id: Seq<u8>| #[trigger] first.older_lineage.dom().contains(id) implies !time_before(
        watermark,
        key_time(first.older_lineage[id].key),
    ) by {
        assert(first.recoverable.dom().contains(id));
        assert(applicable(first).dom().contains(id));
        let a = choose|a: int| 0 <= a < applied.len() && (#[trigger] applied[a]).content_id == id;
        assert(applicable(first)[id] == applied[a]);
        assert(applied[a].key == first.older_lineage[id].key);
    }
    let some = first.older_lineage.dom().choose();
    assert(first.older_lineage.dom().contains(some));
    assert forall|i: int| 0 <= i < reports.len() implies left_alone(
        (#[trigger] reports[i]).revision.latest_known,
        moved,
    ) && left_alone(reports[i].revision.latest_stored, moved) by {
        lemma_left_alone(
            first.older_lineage,
            reports[i].revision.latest_known,
            encoded,
            window,
            watermark,
            some,
        );
        lemma_left_alone(
            first.older_lineage,
            reports[i].revision.latest_stored,
            encoded,
            window,
            watermark,
            some,
        );
    }
    lemma_nothing_to_apply(reports, moved, later_current);
    assert(applicable(second) =~= Candidates::empty());
    if pending.len() > 0 {
        assert(applicable(second).dom().contains(pending[0].content_id));
    }
    assert(Candidates::empty().dom().len() == 0);
}

/// A reported revision is not to be recovered once the watermark lies at or
/// past every older one that was found.
proof fn lemma_left_alone(
    older: Candidates,
    revision: Option<ParsedRevision>,
    encoded: spec_fn(Seq<u8>) -> Result<RevisionKey, StorageError>,
    window: LineageWindow,
    watermark: (i64, i64),
    some: Seq<u8>,
)
    requires
        parsed_by(revision, encoded),
        found_if_older(older, revision, Some(window)),
        all_in_window(older, Some(window), encoded),
        older.dom().contains(some),
        forall|id: Seq<u8>| #[trigger]
            older.dom().contains(id) ==> !time_before(watermark, key_time(older[id].key)),
    ensures
        left_alone(
            revision,
            Some(LineageWindow { recovery_watermark: Some(watermark), ..window }),
        ),
{
    if let Some(parsed) = revision {
        if let Ok(key) = parsed.key {
            if in_window(key, Some(window)) {
                assert(older.dom().contains(parsed.content@.content_id));
            }
        }
    }
}

/// Whether a revision is `id` and its identifier can be read.
pub open spec fn is_readable(revision: Option<ParsedRevision>, id: Seq<u8>) -> bool {
    revision matches Some(parsed) && parsed.content.content_id@ == id && parsed.key is Ok
}

/// Whether a peer says that it can return the older revision `id`.
pub open spec fn returns_older(
    report: PeerReport,
    id: Seq<u8>,
    window: Option<LineageWindow>,
) -> bool {
    is_readable(report.revision.latest_stored, id) && shows_older(
        report.revision.latest_stored,
        window,
    )
}

/// Whether a peer says that it can return the active revision, which is `id`,
/// while our own blob of it is missing.
pub open spec fn returns_missing(
    report: PeerReport,
    id: Seq<u8>,
    current: Option<CurrentContent>,
    blob: Result<(), StorageError>,
) -> bool {
    &&& is_readable(report.revision.latest_stored, id)
    &&& current matches Some(content) && content.content_id@ == id
    &&& blob matches Err(StorageError::FileNotFound)
}

/// Whether a peer says that it can return the revision `id`, and it is older and
/// not recovered yet, or active with our own blob of it missing.
pub open spec fn returns_work(
    report: PeerReport,
    id: Seq<u8>,
    window: Option<LineageWindow>,
    current: Option<CurrentContent>,
    blob: Result<(), StorageError>,
) -> bool {
    returns_older(report, id, window) || returns_missing(report, id, current, blob)
}

/// Whether a peer says that it knows of the revision `id` or can return it.
pub open spec fn mentions(report: PeerReport, id: Seq<u8>) -> bool {
    is_readable(report.revision.latest_known, id) || is_readable(report.revision.latest_stored, id)
}

/// Whether a peer says that it knows of the older revision `id` or can return it.
pub open spec fn mentions_older(
    report: PeerReport,
    id: Seq<u8>,
    window: Option<LineageWindow>,
) -> bool {
    ||| is_readable(report.revision.latest_known, id) && shows_older(
        report.revision.latest_known,
        window,
    )
    ||| is_readable(report.revision.latest_stored, id) && shows_older(
        report.revision.latest_stored,
        window,
    )
}

/// Whether `candidates` names `peer` as a source of the revision `id`.
pub open spec fn names_source(candidates: Candidates, id: Seq<u8>, peer: Seq<char>) -> bool {
    candidates.dom().contains(id) && candidates[id].peers.contains(peer)
}

/// Noting a report adds its peer as a source of its revision, and nothing else.
proof fn lemma_noted(
    candidates: Candidates,
    id: Seq<u8>,
    length: i64,
    key: RevisionKey,
    peer: Seq<char>,
)
    ensures
        forall|x: Seq<u8>, q: Seq<char>| #[trigger]
            names_source(noted(candidates, id, length, key, peer), x, q) <==> names_source(
                candidates,
                x,
                q,
            ) || (x == id && q == peer),
        forall|x: Seq<u8>| #[trigger]
            noted(candidates, id, length, key, peer).dom().contains(x)
                <==> candidates.dom().contains(x) || x == id,
{
    let after = noted(candidates, id, length, key, peer);
    assert forall|x: Seq<u8>, q: Seq<char>| #[trigger] names_source(after, x, q) <==> names_source(
        candidates,
        x,
        q,
    ) || (x == id && q == peer) by {
        if x == id {
            if candidates.dom().contains(id) {
                let listed = candidates[id].peers;
                if !listed.contains(peer) {
                    let next = listed.push(peer);
                    assert(next[listed.len() as int] == peer);
                    if listed.contains(q) {
                        let k = choose|k: int| 0 <= k < listed.len() && listed[k] == q;
                        assert(next[k] == q);
                    }
                    if next.contains(q) && q != peer {
                        let k = choose|k: int| 0 <= k < next.len() && next[k] == q;
                        assert(listed[k] == q);
                    }
                }
            } else {
                assert(seq![peer][0] == peer);
            }
        }
    }
}

/// Noting a report that counts only under a condition.
proof fn lemma_noted_if(
    candidates: Candidates,
    counts: bool,
    revision: ParsedRevision,
    peer: Seq<char>,
)
    ensures
        forall|x: Seq<u8>, q: Seq<char>| #[trigger]
            names_source(noted_if(candidates, counts, revision, peer), x, q) <==> names_source(
                candidates,
                x,
                q,
            ) || (counts && revision.key is Ok && x == revision.content.content_id@ && q == peer),
        forall|x: Seq<u8>| #[trigger]
            noted_if(candidates, counts, revision, peer).dom().contains(x)
                <==> candidates.dom().contains(x) || (counts && revision.key is Ok && x
                == revision.content.content_id@),
{
    if let Ok(key) = revision.key {
        lemma_noted(
            candidates,
            revision.content@.content_id,
            revision.content.content_length,
            key,
            peer,
        );
    }
}

/// What one report adds to a scan.
proof fn lemma_after_peer(
    scan: ScanView,
    report: PeerReport,
    window: Option<LineageWindow>,
    current: Option<CurrentContent>,
    blob: Result<(), StorageError>,
    x: Seq<u8>,
    q: Seq<char>,
)
    requires
        crate::recovery::keys_consistent(report.revision),
    ensures
        ({
            let after = after_peer(scan, report.peer, report.revision, window, current, blob);
            let ours = q == report.peer;
            &&& names_source(after.known, x, q) <==> names_source(scan.known, x, q) || (ours
                && mentions(report, x))
            &&& names_source(after.older_lineage, x, q) <==> names_source(scan.older_lineage, x, q)
                || (ours && mentions_older(report, x, window))
            &&& names_source(after.recoverable, x, q) <==> names_source(scan.recoverable, x, q) || (
            ours && returns_older(report, x, window))
            &&& names_source(after.current_restore, x, q) <==> names_source(
                scan.current_restore,
                x,
                q,
            ) || (ours && returns_missing(report, x, current, blob))
            &&& after.known.dom().contains(x) <==> scan.known.dom().contains(x) || mentions(report, x)
            &&& after.older_lineage.dom().contains(x) <==> scan.older_lineage.dom().contains(x)
                || mentions_older(report, x, window)
            &&& after.recoverable.dom().contains(x) <==> scan.recoverable.dom().contains(x)
                || returns_older(report, x, window)
            &&& after.current_restore.dom().contains(x) <==> scan.current_restore.dom().contains(x)
                || returns_missing(report, x, current, blob)
        }),
{
    let revision = report.revision;
    let peer = report.peer;
    let mut first = scan;
    if let Some(known) = revision.latest_known {
        lemma_noted_if(scan.known, true, known, peer);
        lemma_noted_if(scan.older_lineage, parsed_in_window(known, window), known, peer);
        first = after_report(scan, peer, known, window);
    }
    if let Some(stored) = revision.latest_stored {
        lemma_noted_if(first.known, true, stored, peer);
        lemma_noted_if(first.older_lineage, parsed_in_window(stored, window), stored, peer);
        let next = after_known(scan, peer, revision, window);
        lemma_noted_if(next.recoverable, parsed_in_window(stored, window), stored, peer);
        lemma_noted_if(
            next.current_restore,
            needs_restore(stored.content@.content_id, current, blob),
            stored,
            peer,
        );
    }
}

/// A scan names exactly the peers that reported a revision as its sources: for
/// what is known, all that mention it; for what is older, all that mention it as
/// older; for what can be recovered and what is to be restored, all that say
/// they can return it, whatever else they know of.
pub proof fn law_scan_names_every_source(
    reports: Seq<PeerReport>,
    encoded: spec_fn(Seq<u8>) -> Result<RevisionKey, StorageError>,
    window: Option<LineageWindow>,
    current: Option<CurrentContent>,
    blob: Result<(), StorageError>,
    id: Seq<u8>,
    peer: Seq<char>,
)
    requires
        all_parsed_by(reports, encoded),
    ensures
        ({
            let scan = scan_of(reports, window, current, blob);
            &&& names_source(scan.known, id, peer) <==> exists|i: int|
                0 <= i < reports.len() && (#[trigger] reports[i]).peer == peer && mentions(
                    reports[i],
                    id,
                )
            &&& names_source(scan.older_lineage, id, peer) <==> exists|i: int|
                0 <= i < reports.len() && (#[trigger] reports[i]).peer == peer && mentions_older(
                    reports[i],
                    id,
                    window,
                )
            &&& names_source(scan.recoverable, id, peer) <==> exists|i: int|
                0 <= i < reports.len() && (#[trigger] reports[i]).peer == peer && returns_older(
                    reports[i],
                    id,
                    window,
                )
            &&& names_source(scan.current_restore, id, peer) <==> exists|i: int|
                0 <= i < reports.len() && (#[trigger] reports[i]).peer == peer && returns_missing(
                    reports[i],
                    id,
                    current,
                    blob,
                )
            &&& scan.known.dom().contains(id) <==> exists|i: int|
                0 <= i < reports.len() && mentions(#[trigger] reports[i], id)
            &&& scan.older_lineage.dom().contains(id) <==> exists|i: int|
                0 <= i < reports.len() && mentions_older(#[trigger] reports[i], id, window)
            &&& scan.recoverable.dom().contains(id) <==> exists|i: int|
                0 <= i < reports.len() && returns_older(#[trigger] reports[i], id, window)
            &&& scan.current_restore.dom().contains(id) <==> exists|i: int|
                0 <= i < reports.len() && returns_missing(#[trigger] reports[i], id, current, blob)
        }),
    decreases reports.len(),
{
    if reports.len() > 0 {
        let rest = reports.drop_last();
        let report = reports.last();
        let last = reports.len() - 1;
        assert(reports[last] == report);
        assert forall|i: int| 0 <= i < rest.len() implies parsed_by(
            (#[trigger] rest[i]).revision.latest_known,
            encoded,
        ) && parsed_by(rest[i].revision.latest_stored, encoded) by {
            assert(rest[i] == reports[i]);
        }
        law_scan_names_every_source(rest, encoded, window, current, blob, id, peer);
        let before = scan_of(rest, window, current, blob);
        lemma_after_peer(before, report, window, current, blob, id, peer);
        assert(forall|i: int| 0 <= i < rest.len() ==> reports[i] == #[trigger] rest[i]);
        assert(forall|i: int| 0 <= i < rest.len() ==> rest[i] == #[trigger] reports[i]);
    }
}

/// Every revision that a peer says it can return is in the list to apply, with
/// that peer among its sources, if it is older and not recovered yet, or if it is
/// the active one and our own blob of it is missing. Nothing else is in the list.
pub proof fn law_whatever_peers_can_return_is_applied(
    reports: Seq<PeerReport>,
    encoded: spec_fn(Seq<u8>) -> Result<RevisionKey, StorageError>,
    window: Option<LineageWindow>,
    current: Option<CurrentContent>,
    blob: Result<(), StorageError>,
    list: Seq<CandidateView>,
)
    requires
        all_parsed_by(reports, encoded),
        lists_oldest_first(list, applicable(scan_of(reports, window, current, blob))),
    ensures
        forall|i: int, id: Seq<u8>|
            0 <= i < reports.len() && #[trigger] returns_work(
                reports[i],
                id,
                window,
                current,
                blob,
            ) ==> lists_source(
                list,
                id,
                reports[i].peer,
            ),
        forall|a: int|
            0 <= a < list.len() ==> exists|i: int|
                0 <= i < reports.len() && (returns_older(
                    #[trigger] reports[i],
                    (#[trigger] list[a]).content_id,
                    window,
                ) || returns_missing(reports[i], list[a].content_id, current, blob)),
        forall|a: int, peer: Seq<char>|
            0 <= a < list.len() && #[trigger] list[a].peers.contains(peer) ==> exists|i: int|
                0 <= i < reports.len() && (#[trigger] reports[i]).peer == peer && is_readable(
                    reports[i].revision.latest_stored,
                    list[a].content_id,
                ),
{
    let scan = scan_of(reports, window, current, blob);
    let work = applicable(scan);
    lemma_scan_of(reports, encoded, window, current, blob);
    assert forall|i: int, id: Seq<u8>|
        0 <= i < reports.len() && #[trigger] returns_work(
            reports[i],
            id,
            window,
            current,
            blob,
        ) implies lists_source(
        list,
        id,
        reports[i].peer,
    ) by {
        let peer = reports[i].peer;
        law_scan_names_every_source(reports, encoded, window, current, blob, id, peer);
        assert(work.dom().contains(id));
        if scan.recoverable.dom().contains(id) {
            assert(in_window(scan.recoverable[id].key, window));
            assert(returns_older(reports[i], id, window));
            assert(names_source(scan.recoverable, id, peer));
        } else {
            assert(names_source(scan.current_restore, id, peer));
        }
        let a = choose|a: int| 0 <= a < list.len() && (#[trigger] list[a]).content_id == id;
        assert(list[a].peers.contains(peer));
    }
    assert forall|a: int| 0 <= a < list.len() implies exists|i: int|
        0 <= i < reports.len() && (returns_older(
            #[trigger] reports[i],
            (#[trigger] list[a]).content_id,
            window,
        ) || returns_missing(reports[i], list[a].content_id, current, blob)) by {
        let id = list[a].content_id;
        law_scan_names_every_source(reports, encoded, window, current, blob, id, Seq::empty());
        assert(work.dom().contains(id));
        if scan.recoverable.dom().contains(id) {
            let i = choose|i: int|
                0 <= i < reports.len() && returns_older(#[trigger] reports[i], id, window);
            assert(returns_older(reports[i], list[a].content_id, window));
        } else {
            let i = choose|i: int|
                0 <= i < reports.len() && returns_missing(
                    #[trigger] reports[i],
                    id,
                    current,
                    blob,
                );
            assert(returns_missing(reports[i], list[a].content_id, current, blob));
        }
    }
    assert forall|a: int, peer: Seq<char>|
        0 <= a < list.len() && #[trigger] list[a].peers.contains(peer) implies exists|i: int|
        0 <= i < reports.len() && (#[trigger] reports[i]).peer == peer && is_readable(
            reports[i].revision.latest_stored,
            list[a].content_id,
        ) by {
        let id = list[a].content_id;
        law_scan_names_every_source(reports, encoded, window, current, blob, id, peer);
        assert(work[id] == list[a]);
        if scan.recoverable.dom().contains(id) {
            assert(names_source(scan.recoverable, id, peer));
        } else {
            assert(names_source(scan.current_restore, id, peer));
        }
    }
}

/// Whether a list names `peer` as a source of the revision `id`.
pub open spec fn lists_source(list: Seq<CandidateView>, id: Seq<u8>, peer: Seq<char>) -> bool {
    exists|a: int|
        0 <= a < list.len() && (#[trigger] list[a]).content_id == id && list[a].peers.contains(peer)
}

/// Work comes in timestamp order, and no two items are the same revision.
pub proof fn law_work_is_sorted_by_time(
    list: Seq<CandidateView>,
    candidates: Candidates,
    a: int,
    b: int,
)
    requires
        lists_oldest_first(list, candidates),
        0 <= a < b < list.len(),
    ensures
        list[a].key.created_at_secs <= list[b].key.created_at_secs,
        list[a].key.created_at_secs == list[b].key.created_at_secs
            ==> list[a].key.created_at_nanos <= list[b].key.created_at_nanos,
        list[a].content_id != list[b].content_id,
{
    assert(crate::recovery::older_first(list[a], list[b]));
    crate::text::lemma_bytes_before_irreflexive(list[a].content_id);
    if list[a].content_id == list[b].content_id {
        assert(candidates[list[a].content_id] == list[a]);
        assert(candidates[list[b].content_id] == list[b]);
    }
}

/// As many peers reported something as reports mention a readable revision.
pub proof fn law_reporting_peers_are_counted(
    reports: Seq<PeerReport>,
    window: Option<LineageWindow>,
    current: Option<CurrentContent>,
    blob: Result<(), StorageError>,
    encoded: spec_fn(Seq<u8>) -> Result<RevisionKey, StorageError>,
)
    requires
        reports.len() <= i64::MAX,
        all_parsed_by(reports, encoded),
    ensures
        scan_of(reports, window, current, blob).peers_with_any_versions == reports.filter(
            |report: PeerReport|
                (report.revision.latest_known matches Some(known) && known.key is Ok) || (
                report.revision.latest_stored matches Some(stored) && stored.key is Ok),
        ).len(),
        scan_of(reports, window, current, blob).peers_with_any_versions <= reports.len(),
    decreases reports.len(),
{
    reveal(Seq::filter);
    if reports.len() > 0 {
        let rest = reports.drop_last();
        assert(reports.last() == reports[reports.len() - 1]);
        assert forall|i: int| 0 <= i < rest.len() implies parsed_by(
            (#[trigger] rest[i]).revision.latest_known,
            encoded,
        ) && parsed_by(rest[i].revision.latest_stored, encoded) by {
            assert(rest[i] == reports[i]);
        }
        law_reporting_peers_are_counted(rest, window, current, blob, encoded);
    }
}

/// A pass asks all peers before it applies anything, applies everything before
/// it is over, and takes both in order.
pub proof fn law_pass_asks_before_it_applies(pass: &RecoveryPass, action: RecoveryAction)
    requires
        call_ensures(RecoveryPass::action, (pass,), action),
    ensures
        action is Probe <==> pass.unprobed().len() > 0,
        action is Finish <==> pass.unprobed().len() == 0 && pass.pending().len() == 0,
        action matches RecoveryAction::Probe(peer) ==> peer@ == pass.unprobed()[0],
        action matches RecoveryAction::Apply(candidate) ==> candidate@ == pass.pending()[0]
            && pass.unprobed().len() == 0,
{
}

/// Each peer is asked once. One that does not answer changes nothing else. What
/// one that answers knows of is known from then on, and what it can return and is
/// still to be recovered, or is the active revision whose blob is missing, can be
/// fetched from it from then on. Only an unreadable answer ends the pass.
pub proof fn law_each_answer_is_taken_once(
    pass: RecoveryPass,
    answer: Result<PeerRevision, Status>,
    window: Option<LineageWindow>,
    current: Option<CurrentContent>,
    blob: Result<(), StorageError>,
    outcome: Result<(), Status>,
    after: RecoveryPass,
)
    requires
        takes_answer(pass, answer, window, current, blob, outcome, after),
        pass.unprobed().len() > 0,
    ensures
        answer is Err ==> outcome is Ok && after.reported() == pass.reported(),
        outcome is Ok ==> after.unprobed() == pass.unprobed().drop_first(),
        outcome is Err <==> (answer matches Ok(revision) && revision.latest_stored matches Some(
            stored,
        ) && (stored.key is Err || (current matches Some(content) && content.content_id@
            == stored.content.content_id@ && (blob matches Err(error) && !(error is FileNotFound))))),
        outcome is Ok ==> (answer matches Ok(revision) ==> {
            let peer = pass.unprobed()[0];
            let told = after.reported();
            &&& revision.latest_known matches Some(known) ==> (known.key is Ok
                ==> told.known.dom().contains(known.content.content_id@)
                && told.known[known.content.content_id@].peers.contains(peer))
            &&& revision.latest_stored matches Some(stored) ==> {
                let id = stored.content.content_id@;
                &&& shows_older(revision.latest_stored, window)
                    ==> told.recoverable.dom().contains(id)
                    && told.recoverable[id].peers.contains(peer)
                &&& !shows_older(revision.latest_stored, window) ==> told.recoverable
                    == pass.reported().recoverable
                &&& (current matches Some(content) && content.content_id@ == id && (
                blob matches Err(error) && error is FileNotFound))
                    ==> told.current_restore.dom().contains(id)
                    && told.current_restore[id].peers.contains(peer)
            }
        }),
{
    if let Ok(revision) = answer {
        if outcome is Ok {
            let peer = pass.unprobed()[0];
            let before = pass.reported();
            let first = match revision.latest_known {
                Some(known) => after_report(before, peer, known, window),
                None => before,
            };
            if let Some(known) = revision.latest_known {
                if let Ok(key) = known.key {
                    crate::recovery::law_first_report_fixes_the_candidate(
                        before.known,
                        known.content@.content_id,
                        known.content.content_length,
                        key,
                        peer,
                        known.content@.content_id,
                        peer,
                    );
                    if let Some(stored) = revision.latest_stored {
                        if let Ok(other) = stored.key {
                            crate::recovery::law_first_report_fixes_the_candidate(
                                first.known,
                                stored.content@.content_id,
                                stored.content.content_length,
                                other,
                                peer,
                                known.content@.content_id,
                                peer,
                            );
                        }
                    }
                }
            }
            if let Some(stored) = revision.latest_stored {
                if let Ok(key) = stored.key {
                    let id = stored.content@.content_id;
                    let length = stored.content.content_length;
                    crate::recovery::law_first_report_fixes_the_candidate(
                        before.recoverable,
                        id,
                        length,
                        key,
                        peer,
                        id,
                        peer,
                    );
                    crate::recovery::law_first_report_fixes_the_candidate(
                        before.current_restore,
                        id,
                        length,
                        key,
                        peer,
                        id,
                        peer,
                    );
                }
            }
        }
    }
}

/// Each revision is applied once and in turn; one that could not be applied is
/// not accounted for.
pub proof fn law_each_revision_is_applied_once(
    pass: RecoveryPass,
    result: Result<(RecoveryMergeOutcome, i64), Status>,
    after: RecoveryPass,
)
    requires
        takes_result(pass, result, after),
        pass.pending().len() > 0,
    ensures
        after.pending() == pass.pending().drop_first(),
        after.pending().len() == pass.pending().len() - 1,
        after.reported() == pass.reported(),
        result is Err ==> after.account() == pass.account(),
        result matches Ok(done) ==> counts_applied(
            pass.account(),
            after.account(),
            pass.pending()[0],
            done.0,
            done.1 as int,
        ),
{
}

} // verus!

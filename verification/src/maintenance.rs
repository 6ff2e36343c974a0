//! Planning one background maintenance pass over the peers.

use crate::arith::{at_least_zero, at_least_zero_i64, clamp_i64, i64_from_usize};
use crate::collections::{texts, TextSet};
use crate::inventory::{inventory_views, NamedPeer, PeerInventoryEntry, PeerInventoryEntryView};
use crate::outside::{thread_generator, Draws};
use crate::publication::{
    choose_publication_candidates, pool_views, selected_from, PublicationCandidate,
    PublicationCandidateView,
};
use crate::storage_report::{find_record, keeps_up, record_of, PeerStorageInfo};
use crate::text::text_eq;
use crate::timestamps::optional_timestamp_parts;
use vstd::prelude::*;

verus! {

/// BackgroundMaintenancePeerAction describes what one maintenance pass should
/// do with one known peer.
#[derive(Debug, PartialEq, Eq)]
pub struct BackgroundMaintenancePeerAction {
    /// peer_onion is the peer onion hostname to contact.
    pub peer_onion: String,
    /// propose reports whether the pass should run peer publication first.
    pub propose: bool,
    /// check reports whether the pass should run peer verification.
    pub check: bool,
}

/// BackgroundMaintenancePlan is one snapshot of automatic peer-maintenance
/// work derived from the current local state.
#[derive(Debug, PartialEq, Eq)]
pub struct BackgroundMaintenancePlan {
    /// peer_actions lists the per-peer work in priority order.
    pub peer_actions: Vec<BackgroundMaintenancePeerAction>,
    /// fresh_replica_count is the number of currently verified fresh replicas
    /// for our active content revision.
    pub fresh_replica_count: i64,
    /// min_replicas_target is the configured minimum fresh replica target.
    pub min_replicas_target: i64,
}

/// ActionView is the mathematical content of a `BackgroundMaintenancePeerAction`.
pub struct ActionView {
    /// peer_onion is the peer onion hostname to contact.
    pub peer_onion: Seq<char>,
    /// propose reports whether the pass should run peer publication first.
    pub propose: bool,
    /// check reports whether the pass should run peer verification.
    pub check: bool,
}

impl View for BackgroundMaintenancePeerAction {
    type V = ActionView;

    open spec fn view(&self) -> ActionView {
        ActionView { peer_onion: self.peer_onion@, propose: self.propose, check: self.check }
    }
}

/// The contents of a list of actions.
pub open spec fn action_views(actions: Seq<BackgroundMaintenancePeerAction>) -> Seq<ActionView> {
    actions.map_values(|action: BackgroundMaintenancePeerAction| action@)
}

/// The row of the peer with a hostname, where a later row replaces an earlier one.
pub open spec fn row_of(rows: Seq<PeerStorageInfo>, onion: Seq<char>) -> Option<PeerStorageInfo>
    decreases rows.len(),
{
    if rows.len() == 0 {
        None
    } else if rows.last().onion_service_id@ == onion {
        Some(rows.last())
    } else {
        row_of(rows.drop_last(), onion)
    }
}

/// Find the row of the peer with a hostname.
fn find_row<'a>(rows: &'a [PeerStorageInfo], onion: &str) -> (found: Option<&'a PeerStorageInfo>)
    ensures
        match found {
            Some(row) => row_of(rows@, onion@) == Some(*row),
            None => row_of(rows@, onion@) is None,
        },
{
    let mut i: usize = rows.len();
    assert(rows@.take(i as int) =~= rows@);
    while i > 0
        invariant
            i <= rows.len(),
            row_of(rows@.take(i as int), onion@) == row_of(rows@, onion@),
        decreases i,
    {
        i = i - 1;
        assert(rows@.take(i + 1).drop_last() =~= rows@.take(i as int));
        if text_eq(rows[i].onion_service_id.as_str(), onion) {
            return Some(&rows[i]);
        }
    }
    None
}

/// Whether the peer with a hostname answered and holds our active revision.
pub open spec fn is_fresh(rows: Seq<PeerStorageInfo>, onion: Seq<char>) -> bool {
    row_of(rows, onion) matches Some(row) && keeps_up(row)
}

/// The peers that answered and hold our active revision.
pub open spec fn fresh_peers(rows: Seq<PeerStorageInfo>) -> Set<Seq<char>> {
    Set::new(|onion: Seq<char>| is_fresh(rows, onion))
}

/// A row is found under its hostname.
proof fn lemma_row_listed(rows: Seq<PeerStorageInfo>, onion: Seq<char>)
    ensures
        row_of(rows, onion) is Some <==> exists|i: int|
            0 <= i < rows.len() && (#[trigger] rows[i]).onion_service_id@ == onion,
    decreases rows.len(),
{
    if rows.len() > 0 {
        let rest = rows.drop_last();
        lemma_row_listed(rest, onion);
        assert(rows[rows.len() - 1] == rows.last());
        if exists|i: int| 0 <= i < rest.len() && (#[trigger] rest[i]).onion_service_id@ == onion {
            let i = choose|i: int|
                0 <= i < rest.len() && (#[trigger] rest[i]).onion_service_id@ == onion;
            assert(rows[i] == rest[i]);
        }
        if exists|i: int| 0 <= i < rows.len() && (#[trigger] rows[i]).onion_service_id@ == onion {
            let i = choose|i: int|
                0 <= i < rows.len() && (#[trigger] rows[i]).onion_service_id@ == onion;
            if i < rest.len() {
                assert(rest[i] == rows[i]);
            }
        }
    }
}

/// Collect the peers that answered and hold our active revision.
fn collect_fresh(rows: &[PeerStorageInfo]) -> (fresh: TextSet)
    ensures
        fresh.wf(),
        fresh@ == fresh_peers(rows@),
{
    let mut fresh = TextSet::new();
    let mut i: usize = 0;
    while i < rows.len()
        invariant
            i <= rows.len(),
            fresh.wf(),
            forall|onion: Seq<char>| #[trigger]
                fresh@.contains(onion) <==> is_fresh(rows@, onion) && exists|k: int|
                    0 <= k < i && (#[trigger] rows@[k]).onion_service_id@ == onion,
        decreases rows.len() - i,
    {
        let onion = &rows[i].onion_service_id;
        let ghost before = fresh@;
        let counts = match find_row(rows, onion.as_str()) {
            Some(row) => row.online && row.our_content_synced,
            None => false,
        };
        if counts {
            fresh.insert(onion.clone());
        }
        i += 1;
        proof {
            assert forall|x: Seq<char>| #[trigger]
                fresh@.contains(x) <==> is_fresh(rows@, x) && exists|k: int|
                    0 <= k < i && (#[trigger] rows@[k]).onion_service_id@ == x by {
                if exists|k: int| 0 <= k < i && (#[trigger] rows@[k]).onion_service_id@ == x {
                    let k = choose|k: int|
                        0 <= k < i && (#[trigger] rows@[k]).onion_service_id@ == x;
                    if k < i - 1 {
                        assert(before.contains(x) <==> is_fresh(rows@, x));
                    }
                }
                if before.contains(x) {
                    let k = choose|k: int|
                        0 <= k < i - 1 && (#[trigger] rows@[k]).onion_service_id@ == x;
                    assert(0 <= k < i);
                }
                assert(rows@[i - 1].onion_service_id@ == onion@);
            }
        }
    }
    proof {
        assert forall|x: Seq<char>| fresh@.contains(x) <==> fresh_peers(rows@).contains(x) by {
            if is_fresh(rows@, x) {
                lemma_row_listed(rows@, x);
            }
        }
        assert(fresh@ =~= fresh_peers(rows@));
    }
    fresh
}

/// Whether an inventory entry is due for reciprocal publication: its peer
/// answered, we hold bytes for it, and it does not hold our active revision.
pub open spec fn reciprocal_due(
    entry: PeerInventoryEntryView,
    rows: Seq<PeerStorageInfo>,
    has_content: bool,
) -> bool {
    &&& row_of(rows, entry.onion_service_id) matches Some(row)
    &&& row.online
    &&& entry.stored_content_bytes > 0
    &&& !(row.our_content_synced && has_content)
}

/// The peers that are due for reciprocal publication.
pub open spec fn reciprocal_peers(
    inventory: Seq<PeerInventoryEntryView>,
    rows: Seq<PeerStorageInfo>,
    has_content: bool,
) -> Set<Seq<char>> {
    Set::new(
        |onion: Seq<char>|
            exists|i: int|
                0 <= i < inventory.len() && (#[trigger] inventory[i]).onion_service_id == onion
                    && reciprocal_due(inventory[i], rows, has_content),
    )
}

/// Collect the peers that are due for reciprocal publication.
fn collect_reciprocal(inventory: &[PeerInventoryEntry], rows: &[PeerStorageInfo], has_content: bool) -> (due:
    TextSet)
    ensures
        due.wf(),
        due@ == reciprocal_peers(inventory_views(inventory@), rows@, has_content),
{
    let ghost views = inventory_views(inventory@);
    let mut due = TextSet::new();
    let mut i: usize = 0;
    while i < inventory.len()
        invariant
            i <= inventory.len(),
            views == inventory_views(inventory@),
            due.wf(),
            forall|onion: Seq<char>| #[trigger]
                due@.contains(onion) <==> exists|k: int|
                    0 <= k < i && (#[trigger] views[k]).onion_service_id == onion && reciprocal_due(
                        views[k],
                        rows@,
                        has_content,
                    ),
        decreases inventory.len() - i,
    {
        let entry = &inventory[i];
        let ghost before = due@;
        assert(views[i as int] == entry@);
        let counts = match find_row(rows, entry.onion_service_id.as_str()) {
            Some(row) => row.online && entry.stored_content_bytes > 0 && !(row.our_content_synced
                && has_content),
            None => false,
        };
        if counts {
            due.insert(entry.onion_service_id.clone());
        }
        i += 1;
        proof {
            assert forall|x: Seq<char>| #[trigger] due@.contains(x) <==> exists|k: int|
                0 <= k < i && (#[trigger] views[k]).onion_service_id == x && reciprocal_due(
                    views[k],
                    rows@,
                    has_content,
                ) by {
                if exists|k: int|
                    0 <= k < i && (#[trigger] views[k]).onion_service_id == x && reciprocal_due(
                        views[k],
                        rows@,
                        has_content,
                    ) {
                    let k = choose|k: int|
                        0 <= k < i && (#[trigger] views[k]).onion_service_id == x && reciprocal_due(
                            views[k],
                            rows@,
                            has_content,
                        );
                    if k < i - 1 {
                        assert(before.contains(x));
                    }
                }
                if before.contains(x) {
                    let k = choose|k: int|
                        0 <= k < i - 1 && (#[trigger] views[k]).onion_service_id == x
                            && reciprocal_due(views[k], rows@, has_content);
                    assert(0 <= k < i);
                }
                assert(views[i - 1] == entry@);
            }
        }
    }
    assert(due@ =~= reciprocal_peers(views, rows@, has_content));
    due
}

/// The candidate for a replica refill that an inventory entry makes, if it
/// does: its peer answered, is on record, does not hold our active revision,
/// and nothing else is planned for it.
pub open spec fn refill_candidate(
    entry: PeerInventoryEntryView,
    rows: Seq<PeerStorageInfo>,
    peers: Seq<NamedPeer>,
    planned: Set<Seq<char>>,
) -> Option<PublicationCandidateView> {
    match (row_of(rows, entry.onion_service_id), record_of(peers, entry.onion_service_id)) {
        (Some(row), Some(peer)) => if !row.online || row.our_content_synced || planned.contains(
            entry.onion_service_id,
        ) {
            None
        } else {
            Some(
                PublicationCandidateView {
                    peer_onion: entry.onion_service_id,
                    pinned_by_us: peer.pinned_by_us,
                    pins_us: peer.pins_us,
                    first_seen_at: match peer.first_seen_at {
                        Some(at) => (at.seconds, at.nanos as i64),
                        None => (0, 0),
                    },
                    successful_calls: peer.successful_calls,
                    failed_calls: peer.failed_calls,
                    stores_peer_data: entry.stored_content_bytes > 0,
                },
            )
        },
        _ => None,
    }
}

/// The candidates for a replica refill, in inventory order.
pub open spec fn refill_candidates(
    inventory: Seq<PeerInventoryEntryView>,
    rows: Seq<PeerStorageInfo>,
    peers: Seq<NamedPeer>,
    planned: Set<Seq<char>>,
) -> Seq<PublicationCandidateView>
    decreases inventory.len(),
{
    if inventory.len() == 0 {
        Seq::<PublicationCandidateView>::empty()
    } else {
        let rest = refill_candidates(inventory.drop_last(), rows, peers, planned);
        match refill_candidate(inventory.last(), rows, peers, planned) {
            Some(candidate) => rest.push(candidate),
            None => rest,
        }
    }
}

/// Build the candidate that an inventory entry makes.
fn entry_candidate(
    entry: &PeerInventoryEntry,
    rows: &[PeerStorageInfo],
    peers: &[NamedPeer],
    fresh: &TextSet,
    reciprocal: &TextSet,
) -> (candidate: Option<PublicationCandidate>)
    requires
        fresh.wf(),
        reciprocal.wf(),
    ensures
        match candidate {
            Some(found) => refill_candidate(entry@, rows@, peers@, fresh@.union(reciprocal@))
                == Some(found@),
            None => refill_candidate(entry@, rows@, peers@, fresh@.union(reciprocal@)) is None,
        },
{
    let onion = entry.onion_service_id.as_str();
    let row = match find_row(rows, onion) {
        Some(row) => row,
        None => return None,
    };
    let peer = match find_record(peers, onion) {
        Some(peer) => peer,
        None => return None,
    };
    if !row.online || row.our_content_synced || fresh.contains(onion) || reciprocal.contains(
        onion,
    ) {
        return None;
    }
    let first_seen_at = match optional_timestamp_parts(peer.first_seen_at) {
        Some(parts) => parts,
        None => (0, 0),
    };
    Some(
        PublicationCandidate {
            peer_onion: entry.onion_service_id.clone(),
            pinned_by_us: peer.pinned_by_us,
            pins_us: peer.pins_us,
            first_seen_at,
            successful_calls: peer.successful_calls,
            failed_calls: peer.failed_calls,
            stores_peer_data: entry.stored_content_bytes > 0,
        },
    )
}

/// Collect the candidates for a replica refill.
fn collect_candidates(
    inventory: &[PeerInventoryEntry],
    rows: &[PeerStorageInfo],
    peers: &[NamedPeer],
    fresh: &TextSet,
    reciprocal: &TextSet,
) -> (candidates: Vec<PublicationCandidate>)
    requires
        fresh.wf(),
        reciprocal.wf(),
    ensures
        pool_views(candidates@) == refill_candidates(
            inventory_views(inventory@),
            rows@,
            peers@,
            fresh@.union(reciprocal@),
        ),
{
    let ghost views = inventory_views(inventory@);
    let ghost planned = fresh@.union(reciprocal@);
    let mut candidates: Vec<PublicationCandidate> = Vec::new();
    let mut i: usize = 0;
    assert(pool_views(candidates@) =~= refill_candidates(views.take(0), rows@, peers@, planned));
    while i < inventory.len()
        invariant
            i <= inventory.len(),
            fresh.wf(),
            reciprocal.wf(),
            views == inventory_views(inventory@),
            planned == fresh@.union(reciprocal@),
            pool_views(candidates@) == refill_candidates(
                views.take(i as int),
                rows@,
                peers@,
                planned,
            ),
        decreases inventory.len() - i,
    {
        let ghost listed = candidates@;
        proof {
            assert(views[i as int] == inventory@[i as int]@);
            assert(views.take(i + 1).drop_last() =~= views.take(i as int));
        }
        if let Some(candidate) = entry_candidate(&inventory[i], rows, peers, fresh, reciprocal) {
            let ghost view = candidate@;
            candidates.push(candidate);
            assert(pool_views(candidates@) =~= pool_views(listed).push(view));
        }
        i += 1;
    }
    assert(views.take(i as int) =~= views);
    candidates
}

/// Whether an earlier entry has the same hostname as entry `i`.
pub open spec fn repeated(inventory: Seq<PeerInventoryEntryView>, i: int) -> bool {
    exists|j: int|
        0 <= j < i && (#[trigger] inventory[j]).onion_service_id == inventory[i].onion_service_id
}

/// The actions for a list of peers, in order: publish to those that are to be
/// proposed to, and check those and all fresh replicas.
pub open spec fn planned_actions(
    inventory: Seq<PeerInventoryEntryView>,
    n: nat,
    fresh: Set<Seq<char>>,
    proposing: Set<Seq<char>>,
) -> Seq<ActionView>
    decreases n,
{
    if n == 0 {
        Seq::<ActionView>::empty()
    } else {
        let rest = planned_actions(inventory, (n - 1) as nat, fresh, proposing);
        let onion = inventory[n - 1].onion_service_id;
        if !repeated(inventory, n - 1) && (fresh.contains(onion) || proposing.contains(onion)) {
            rest.push(
                ActionView { peer_onion: onion, propose: proposing.contains(onion), check: true },
            )
        } else {
            rest
        }
    }
}

/// How many fresh replicas are missing.
pub open spec fn missing_replicas(min_replicas: int, fresh: int) -> int {
    at_least_zero(at_least_zero(min_replicas) - fresh)
}

/// Whether `plan` is the maintenance plan in which `chosen` peers are proposed
/// to in order to refill replicas.
pub open spec fn plan_rule(
    inventory: Seq<PeerInventoryEntryView>,
    rows: Seq<PeerStorageInfo>,
    has_content: bool,
    min_replicas: int,
    publication_allowed: bool,
    chosen: Set<Seq<char>>,
    plan: BackgroundMaintenancePlan,
) -> bool {
    let fresh = fresh_peers(rows);
    let proposing = if publication_allowed {
        reciprocal_peers(inventory, rows, has_content).union(chosen)
    } else {
        Set::<Seq<char>>::empty()
    };
    &&& plan.fresh_replica_count == clamp_i64(fresh.len() as int)
    &&& plan.min_replicas_target == at_least_zero(min_replicas)
    &&& action_views(plan.peer_actions@) == planned_actions(
        inventory,
        inventory.len(),
        fresh,
        proposing,
    )
}

/// List the actions for all peers.
fn list_actions(inventory: &[PeerInventoryEntry], fresh: &TextSet, proposing: &TextSet) -> (actions:
    Vec<BackgroundMaintenancePeerAction>)
    requires
        fresh.wf(),
        proposing.wf(),
    ensures
        action_views(actions@) == planned_actions(
            inventory_views(inventory@),
            inventory@.len(),
            fresh@,
            proposing@,
        ),
{
    let ghost views = inventory_views(inventory@);
    let mut seen = TextSet::new();
    let mut actions: Vec<BackgroundMaintenancePeerAction> = Vec::new();
    let mut i: usize = 0;
    assert(action_views(actions@) =~= planned_actions(views, 0, fresh@, proposing@));
    while i < inventory.len()
        invariant
            i <= inventory.len(),
            fresh.wf(),
            proposing.wf(),
            seen.wf(),
            views == inventory_views(inventory@),
            forall|onion: Seq<char>| #[trigger]
                seen@.contains(onion) <==> exists|j: int|
                    0 <= j < i && (#[trigger] views[j]).onion_service_id == onion,
            action_views(actions@) == planned_actions(views, i as nat, fresh@, proposing@),
        decreases inventory.len() - i,
    {
        let entry = &inventory[i];
        let onion = entry.onion_service_id.as_str();
        let ghost listed = actions@;
        let ghost earlier = seen@;
        assert(views[i as int] == entry@);
        assert(seen@.contains(onion@) == repeated(views, i as int));
        if !seen.contains(onion) {
            let propose = proposing.contains(onion);
            if propose || fresh.contains(onion) {
                let action = BackgroundMaintenancePeerAction {
                    peer_onion: entry.onion_service_id.clone(),
                    propose,
                    check: true,
                };
                let ghost view = action@;
                actions.push(action);
                assert(action_views(actions@) =~= action_views(listed).push(view));
            }
            seen.insert(entry.onion_service_id.clone());
        }
        i += 1;
        proof {
            assert forall|x: Seq<char>| #[trigger] seen@.contains(x) <==> exists|j: int|
                0 <= j < i && (#[trigger] views[j]).onion_service_id == x by {
                if exists|j: int| 0 <= j < i && (#[trigger] views[j]).onion_service_id == x {
                    let j = choose|j: int| 0 <= j < i && (#[trigger] views[j]).onion_service_id == x;
                    if j < i - 1 {
                        assert(earlier.contains(x));
                    }
                }
                if earlier.contains(x) {
                    let j = choose|j: int|
                        0 <= j < i - 1 && (#[trigger] views[j]).onion_service_id == x;
                    assert(0 <= j < i);
                }
                assert(views[i - 1].onion_service_id == onion@);
            }
        }
    }
    actions
}

/// Build the plan in which `chosen` peers are proposed to in order to refill replicas.
pub fn maintenance_plan_with(
    inventory: &[PeerInventoryEntry],
    storage_peers: &[PeerStorageInfo],
    has_content: bool,
    min_replicas: i64,
    publication_allowed: bool,
    chosen: &[String],
) -> (plan: BackgroundMaintenancePlan)
    ensures
        plan_rule(
            inventory_views(inventory@),
            storage_peers@,
            has_content,
            min_replicas as int,
            publication_allowed,
            texts(chosen@).to_set(),
            plan,
        ),
{
    let fresh = collect_fresh(storage_peers);
    let mut proposing = TextSet::new();
    if publication_allowed {
        proposing = collect_reciprocal(inventory, storage_peers, has_content);
        crate::builtin::insert_all(&mut proposing, chosen);
    }
    let peer_actions = list_actions(inventory, &fresh, &proposing);
    BackgroundMaintenancePlan {
        peer_actions,
        fresh_replica_count: i64_from_usize(fresh.len()),
        min_replicas_target: at_least_zero_i64(min_replicas),
    }
}

/// Whether `chosen` can be the peers chosen to refill missing replicas.
pub open spec fn refill_rule(
    inventory: Seq<PeerInventoryEntryView>,
    rows: Seq<PeerStorageInfo>,
    peers: Seq<NamedPeer>,
    has_content: bool,
    min_replicas: int,
    publication_allowed: bool,
    now: int,
    chosen: Seq<Seq<char>>,
) -> bool {
    let missing = missing_replicas(min_replicas, clamp_i64(fresh_peers(rows).len() as int));
    if publication_allowed && missing > 0 {
        selected_from(
            refill_candidates(
                inventory,
                rows,
                peers,
                fresh_peers(rows).union(reciprocal_peers(inventory, rows, has_content)),
            ),
            wanted_replicas(missing),
            now,
            chosen,
        )
    } else {
        chosen.len() == 0
    }
}

/// How many peers are looked for when `missing` replicas are missing.
pub open spec fn wanted_replicas(missing: int) -> nat {
    if missing > usize::MAX {
        usize::MAX as nat
    } else {
        missing as nat
    }
}

/// Build the background peer-maintenance plan with the given random source.
pub fn maintenance_plan_from<R: Draws>(
    inventory: &[PeerInventoryEntry],
    storage_peers: &[PeerStorageInfo],
    tracked_peers: &[NamedPeer],
    has_content: bool,
    min_replicas: i64,
    publication_allowed: bool,
    now_secs: i64,
    rng: &mut R,
) -> (plan: BackgroundMaintenancePlan)
    ensures
        exists|chosen: Seq<Seq<char>>| #[trigger]
            refill_rule(
                inventory_views(inventory@),
                storage_peers@,
                tracked_peers@,
                has_content,
                min_replicas as int,
                publication_allowed,
                now_secs as int,
                chosen,
            ) && plan_rule(
                inventory_views(inventory@),
                storage_peers@,
                has_content,
                min_replicas as int,
                publication_allowed,
                chosen.to_set(),
                plan,
            ),
        !publication_allowed || missing_replicas(
            min_replicas as int,
            clamp_i64(fresh_peers(storage_peers@).len() as int),
        ) == 0 ==> *final(rng) == *old(rng),
{
    let ghost views = inventory_views(inventory@);
    let fresh = collect_fresh(storage_peers);
    let fresh_count = i64_from_usize(fresh.len());
    let missing = at_least_zero_i64(at_least_zero_i64(min_replicas) - fresh_count);
    let mut chosen: Vec<String> = Vec::new();
    assert(texts(chosen@) =~= Seq::<Seq<char>>::empty());
    if publication_allowed && missing > 0 {
        let reciprocal = collect_reciprocal(inventory, storage_peers, has_content);
        let candidates = collect_candidates(
            inventory,
            storage_peers,
            tracked_peers,
            &fresh,
            &reciprocal,
        );
        let wanted: usize = if missing as u64 > usize::MAX as u64 {
            usize::MAX
        } else {
            missing as usize
        };
        chosen = choose_publication_candidates(candidates.as_slice(), wanted, now_secs, rng);
    }
    assert(refill_rule(
        views,
        storage_peers@,
        tracked_peers@,
        has_content,
        min_replicas as int,
        publication_allowed,
        now_secs as int,
        texts(chosen@),
    ));
    maintenance_plan_with(
        inventory,
        storage_peers,
        has_content,
        min_replicas,
        publication_allowed,
        chosen.as_slice(),
    )
}

/// Build the current background peer-maintenance plan, drawing from the
/// generator of this thread.
pub fn background_maintenance_plan(
    inventory: &[PeerInventoryEntry],
    storage_peers: &[PeerStorageInfo],
    tracked_peers: &[NamedPeer],
    has_content: bool,
    min_replicas: i64,
    publication_allowed: bool,
    now_secs: i64,
) -> (plan: BackgroundMaintenancePlan)
    ensures
        exists|chosen: Seq<Seq<char>>| #[trigger]
            refill_rule(
                inventory_views(inventory@),
                storage_peers@,
                tracked_peers@,
                has_content,
                min_replicas as int,
                publication_allowed,
                now_secs as int,
                chosen,
            ) && plan_rule(
                inventory_views(inventory@),
                storage_peers@,
                has_content,
                min_replicas as int,
                publication_allowed,
                chosen.to_set(),
                plan,
            ),
{
    let mut rng = thread_generator();
    maintenance_plan_from(
        inventory,
        storage_peers,
        tracked_peers,
        has_content,
        min_replicas,
        publication_allowed,
        now_secs,
        &mut rng,
    )
}

/// An action in a plan comes from an inventory entry.
proof fn lemma_action_source(
    inventory: Seq<PeerInventoryEntryView>,
    n: nat,
    fresh: Set<Seq<char>>,
    proposing: Set<Seq<char>>,
    k: int,
)
    requires
        n <= inventory.len(),
        0 <= k < planned_actions(inventory, n, fresh, proposing).len(),
    ensures
        ({
            let action = planned_actions(inventory, n, fresh, proposing)[k];
            &&& action.check
            &&& action.propose == proposing.contains(action.peer_onion)
            &&& fresh.contains(action.peer_onion) || action.propose
        }),
    decreases n,
{
    if n > 0 {
        let rest = planned_actions(inventory, (n - 1) as nat, fresh, proposing);
        if k < rest.len() {
            lemma_action_source(inventory, (n - 1) as nat, fresh, proposing, k);
        }
    }
}

/// While publication is blocked nothing is proposed to anyone, and only fresh
/// replicas are checked. Every planned peer is checked.
pub proof fn law_blocked_publication_proposes_nothing(
    inventory: Seq<PeerInventoryEntryView>,
    rows: Seq<PeerStorageInfo>,
    has_content: bool,
    min_replicas: int,
    publication_allowed: bool,
    chosen: Set<Seq<char>>,
    plan: BackgroundMaintenancePlan,
    k: int,
)
    requires
        plan_rule(
            inventory,
            rows,
            has_content,
            min_replicas,
            publication_allowed,
            chosen,
            plan,
        ),
        0 <= k < plan.peer_actions@.len(),
    ensures
        plan.peer_actions@[k].check,
        !publication_allowed ==> !plan.peer_actions@[k].propose && is_fresh(
            rows,
            plan.peer_actions@[k].peer_onion@,
        ),
{
    let fresh = fresh_peers(rows);
    let proposing = if publication_allowed {
        reciprocal_peers(inventory, rows, has_content).union(chosen)
    } else {
        Set::<Seq<char>>::empty()
    };
    let actions = action_views(plan.peer_actions@);
    assert(actions[k] == plan.peer_actions@[k]@);
    lemma_action_source(inventory, inventory.len(), fresh, proposing, k);
}

/// An entry's action is in the plan.
proof fn lemma_action_listed(
    inventory: Seq<PeerInventoryEntryView>,
    n: nat,
    fresh: Set<Seq<char>>,
    proposing: Set<Seq<char>>,
    i: int,
)
    requires
        n <= inventory.len(),
        0 <= i < n,
        fresh.contains(inventory[i].onion_service_id) || proposing.contains(
            inventory[i].onion_service_id,
        ),
    ensures
        exists|k: int|
            0 <= k < planned_actions(inventory, n, fresh, proposing).len() && (
            #[trigger] planned_actions(inventory, n, fresh, proposing)[k]).peer_onion
                == inventory[i].onion_service_id,
    decreases n,
{
    let all = planned_actions(inventory, n, fresh, proposing);
    let rest = planned_actions(inventory, (n - 1) as nat, fresh, proposing);
    if i < n - 1 {
        lemma_action_listed(inventory, (n - 1) as nat, fresh, proposing, i);
        let k = choose|k: int|
            0 <= k < rest.len() && (#[trigger] rest[k]).peer_onion == inventory[i].onion_service_id;
        assert(all[k] == rest[k]);
    } else if repeated(inventory, i) {
        let j = choose|j: int|
            0 <= j < i && (#[trigger] inventory[j]).onion_service_id
                == inventory[i].onion_service_id;
        lemma_action_listed(inventory, (n - 1) as nat, fresh, proposing, j);
        let k = choose|k: int|
            0 <= k < rest.len() && (#[trigger] rest[k]).peer_onion == inventory[j].onion_service_id;
        assert(all[k] == rest[k]);
    } else {
        assert(all[rest.len() as int].peer_onion == inventory[i].onion_service_id);
    }
}

/// Every fresh replica in the inventory is checked, and while publication is
/// allowed every peer that is due for reciprocal publication is proposed to.
pub proof fn law_plan_covers_replicas_and_reciprocal_peers(
    inventory: Seq<PeerInventoryEntryView>,
    rows: Seq<PeerStorageInfo>,
    has_content: bool,
    min_replicas: int,
    publication_allowed: bool,
    chosen: Set<Seq<char>>,
    plan: BackgroundMaintenancePlan,
    i: int,
)
    requires
        plan_rule(
            inventory,
            rows,
            has_content,
            min_replicas,
            publication_allowed,
            chosen,
            plan,
        ),
        0 <= i < inventory.len(),
    ensures
        is_fresh(rows, inventory[i].onion_service_id) ==> plans_for(
            plan,
            inventory[i].onion_service_id,
        ),
        publication_allowed && reciprocal_due(inventory[i], rows, has_content) ==> proposes_to(
            plan,
            inventory[i].onion_service_id,
        ),
{
    let fresh = fresh_peers(rows);
    let onion = inventory[i].onion_service_id;
    let proposing = if publication_allowed {
        reciprocal_peers(inventory, rows, has_content).union(chosen)
    } else {
        Set::<Seq<char>>::empty()
    };
    if fresh.contains(onion) || proposing.contains(onion) {
        lemma_action_listed(inventory, inventory.len(), fresh, proposing, i);
        let all = planned_actions(inventory, inventory.len(), fresh, proposing);
        let k = choose|k: int| 0 <= k < all.len() && (#[trigger] all[k]).peer_onion == onion;
        assert(action_views(plan.peer_actions@)[k] == plan.peer_actions@[k]@);
        lemma_action_source(inventory, inventory.len(), fresh, proposing, k);
        assert(plan.peer_actions@[k].peer_onion@ == onion);
    }
}

/// Whether a plan has an action for a peer.
pub open spec fn plans_for(plan: BackgroundMaintenancePlan, onion: Seq<char>) -> bool {
    exists|k: int|
        0 <= k < plan.peer_actions@.len() && (#[trigger] plan.peer_actions@[k]).peer_onion@ == onion
            && plan.peer_actions@[k].check
}

/// Whether a plan proposes to a peer.
pub open spec fn proposes_to(plan: BackgroundMaintenancePlan, onion: Seq<char>) -> bool {
    exists|k: int|
        0 <= k < plan.peer_actions@.len() && (#[trigger] plan.peer_actions@[k]).peer_onion@ == onion
            && plan.peer_actions@[k].propose
}

/// The hostnames of inventory entries.
pub open spec fn entry_names(inventory: Seq<PeerInventoryEntry>) -> Seq<Seq<char>> {
    inventory.map_values(|entry: PeerInventoryEntry| entry.onion_service_id@)
}

/// The hostnames of rows.
pub open spec fn row_names(rows: Seq<PeerStorageInfo>) -> Seq<Seq<char>> {
    rows.map_values(|row: PeerStorageInfo| row.onion_service_id@)
}

/// Picks the rows of peers that answered and hold our active revision.
pub open spec fn holds_ours() -> spec_fn(PeerStorageInfo) -> bool {
    |row: PeerStorageInfo| row.online && row.our_content_synced
}

/// Whether some peer with a hostname answered, and holds our active revision or
/// not as told.
pub open spec fn answered(rows: Seq<PeerStorageInfo>, onion: Seq<char>, holds: bool) -> bool {
    exists|r: int|
        0 <= r < rows.len() && (#[trigger] rows[r]).onion_service_id@ == onion && rows[r].online
            && rows[r].our_content_synced == holds
}

/// Whether a peer with a hostname is on record.
pub open spec fn on_record(peers: Seq<NamedPeer>, onion: Seq<char>) -> bool {
    exists|p: int|
        0 <= p < peers.len() && (#[trigger] peers[p]).hostname@ == onion
            && crate::outside::is_public_key(peers[p].peer.onion_pubkey@)
}

/// Picks the entries of peers that answered, whose bytes we hold, and that do
/// not hold our active revision.
pub open spec fn owed(rows: Seq<PeerStorageInfo>, has_content: bool) -> spec_fn(
    PeerInventoryEntry,
) -> bool {
    |entry: PeerInventoryEntry|
        entry.stored_content_bytes > 0 && (answered(rows, entry.onion_service_id@, false) || (
        !has_content && answered(rows, entry.onion_service_id@, true)))
}

/// Picks the entries of peers on record that answered, whose bytes we do not
/// hold, and that do not hold our active revision.
pub open spec fn could_refill(
    rows: Seq<PeerStorageInfo>,
    peers: Seq<NamedPeer>,
) -> spec_fn(PeerInventoryEntry) -> bool {
    |entry: PeerInventoryEntry|
        entry.stored_content_bytes <= 0 && answered(rows, entry.onion_service_id@, false)
            && on_record(peers, entry.onion_service_id@)
}

/// What is picked from a list without equal names has no equal names, and
/// exactly the names of what is picked.
proof fn lemma_filter_names<A>(
    items: Seq<A>,
    picks: spec_fn(A) -> bool,
    name: spec_fn(A) -> Seq<char>,
)
    requires
        items.map_values(name).no_duplicates(),
    ensures
        items.filter(picks).map_values(name).no_duplicates(),
        forall|n: Seq<char>| #[trigger]
            items.filter(picks).map_values(name).contains(n) <==> exists|i: int|
                0 <= i < items.len() && picks(#[trigger] items[i]) && name(items[i]) == n,
        items.filter(picks).map_values(name).to_set().len() == items.filter(picks).len(),
    decreases items.len(),
{
    reveal(Seq::filter);
    let picked = items.filter(picks);
    let names = picked.map_values(name);
    if items.len() > 0 {
        let rest = items.drop_last();
        let last = items.last();
        let end = items.len() - 1;
        assert(items[end] == last);
        assert(rest.map_values(name) =~= items.map_values(name).drop_last());
        lemma_filter_names(rest, picks, name);
        let before = rest.filter(picks).map_values(name);
        if picks(last) {
            assert(names =~= before.push(name(last)));
            assert(!before.contains(name(last))) by {
                if before.contains(name(last)) {
                    let i = choose|i: int|
                        0 <= i < rest.len() && picks(#[trigger] rest[i]) && name(rest[i]) == name(
                            last,
                        );
                    assert(items.map_values(name)[i] != items.map_values(name)[end]);
                }
            }
        } else {
            assert(names =~= before);
        }
        assert forall|n: Seq<char>| #[trigger] names.contains(n) <==> exists|i: int|
            0 <= i < items.len() && picks(#[trigger] items[i]) && name(items[i]) == n by {
            if names.contains(n) {
                let k = choose|k: int| 0 <= k < names.len() && names[k] == n;
                if k < before.len() {
                    assert(before[k] == n);
                    assert(before.contains(n));
                    let i = choose|i: int|
                        0 <= i < rest.len() && picks(#[trigger] rest[i]) && name(rest[i]) == n;
                    assert(items[i] == rest[i]);
                } else {
                    assert(picks(items[end]) && name(items[end]) == n);
                }
            }
            if exists|i: int| 0 <= i < items.len() && picks(#[trigger] items[i]) && name(items[i]) == n {
                let i = choose|i: int|
                    0 <= i < items.len() && picks(#[trigger] items[i]) && name(items[i]) == n;
                if i < end {
                    assert(rest[i] == items[i]);
                    assert(before.contains(n));
                    let k = choose|k: int| 0 <= k < before.len() && before[k] == n;
                    assert(names[k] == n);
                } else {
                    assert(names[before.len() as int] == n);
                }
            }
        }
    }
    names.unique_seq_to_set();
}

/// Picking before or after mapping gives as many.
proof fn lemma_filter_map<A, B>(
    items: Seq<A>,
    view: spec_fn(A) -> B,
    picks: spec_fn(A) -> bool,
    views: spec_fn(B) -> bool,
)
    requires
        forall|x: A| #[trigger] picks(x) <==> views(view(x)),
    ensures
        items.filter(picks).len() == items.map_values(view).filter(views).len(),
    decreases items.len(),
{
    reveal(Seq::filter);
    if items.len() > 0 {
        lemma_filter_map(items.drop_last(), view, picks, views);
        assert(items.map_values(view).drop_last() =~= items.drop_last().map_values(view));
        assert(picks(items.last()) <==> views(view(items.last())));
    }
}

/// Where no two rows have a hostname in common, each is found under its own.
proof fn lemma_row_found(rows: Seq<PeerStorageInfo>, i: int)
    requires
        row_names(rows).no_duplicates(),
        0 <= i < rows.len(),
    ensures
        row_of(rows, rows[i].onion_service_id@) == Some(rows[i]),
    decreases rows.len(),
{
    let rest = rows.drop_last();
    if i < rest.len() {
        assert(row_names(rest) =~= row_names(rows).drop_last());
        assert(row_names(rows)[i] != row_names(rows)[rows.len() - 1]);
        lemma_row_found(rest, i);
    }
}

/// What the row of a hostname tells, where no two rows have it in common.
proof fn lemma_row_tells(rows: Seq<PeerStorageInfo>, onion: Seq<char>)
    requires
        row_names(rows).no_duplicates(),
    ensures
        is_fresh(rows, onion) <==> answered(rows, onion, true),
        (row_of(rows, onion) matches Some(row) && row.online && !row.our_content_synced)
            <==> answered(rows, onion, false),
        (row_of(rows, onion) matches Some(row) && row.online) <==> answered(rows, onion, true)
            || answered(rows, onion, false),
{
    lemma_row_listed(rows, onion);
    assert forall|i: int| 0 <= i < rows.len() && (#[trigger] rows[i]).onion_service_id@
        == onion implies row_of(rows, onion) == Some(rows[i]) by {
        lemma_row_found(rows, i);
    }
    if row_of(rows, onion) is Some {
        let i = choose|i: int| 0 <= i < rows.len() && (#[trigger] rows[i]).onion_service_id@ == onion;
        assert(row_of(rows, onion) == Some(rows[i]));
    }
}

/// A record is found exactly where there is one.
proof fn lemma_record_found(peers: Seq<NamedPeer>, onion: Seq<char>)
    ensures
        record_of(peers, onion) is Some <==> on_record(peers, onion),
    decreases peers.len(),
{
    if peers.len() > 0 {
        let rest = peers.drop_last();
        lemma_record_found(rest, onion);
        assert(peers[peers.len() - 1] == peers.last());
        if on_record(rest, onion) {
            let p = choose|p: int|
                0 <= p < rest.len() && (#[trigger] rest[p]).hostname@ == onion
                    && crate::outside::is_public_key(rest[p].peer.onion_pubkey@);
            assert(peers[p] == rest[p]);
        }
        if on_record(peers, onion) {
            let p = choose|p: int|
                0 <= p < peers.len() && (#[trigger] peers[p]).hostname@ == onion
                    && crate::outside::is_public_key(peers[p].peer.onion_pubkey@);
            if p < rest.len() {
                assert(rest[p] == peers[p]);
            }
        }
    }
}

/// An entry is due for reciprocal publication, or could refill a replica,
/// exactly as its bytes, its row and its record tell.
proof fn lemma_entry_kinds(
    inventory: Seq<PeerInventoryEntry>,
    rows: Seq<PeerStorageInfo>,
    peers: Seq<NamedPeer>,
    has_content: bool,
    i: int,
)
    requires
        entry_names(inventory).no_duplicates(),
        row_names(rows).no_duplicates(),
        0 <= i < inventory.len(),
    ensures
        ({
            let views = inventory_views(inventory);
            let planned = fresh_peers(rows).union(reciprocal_peers(views, rows, has_content));
            &&& reciprocal_due(views[i], rows, has_content) <==> owed(rows, has_content)(inventory[i])
            &&& reciprocal_peers(views, rows, has_content).contains(inventory[i].onion_service_id@)
                <==> owed(rows, has_content)(inventory[i])
            &&& refill_candidate(views[i], rows, peers, planned) is Some <==> could_refill(
                rows,
                peers,
            )(inventory[i])
            &&& refill_candidate(views[i], rows, peers, planned) matches Some(candidate)
                ==> candidate.peer_onion == inventory[i].onion_service_id@
        }),
{
    let views = inventory_views(inventory);
    let onion = inventory[i].onion_service_id@;
    assert(views[i] == inventory[i]@);
    lemma_row_tells(rows, onion);
    lemma_record_found(peers, onion);
    assert(row_of(rows, onion) matches Some(row) ==> (row.our_content_synced <==> answered(
        rows,
        onion,
        true,
    ) || (!row.online && row.our_content_synced)));
    let due = reciprocal_peers(views, rows, has_content);
    if due.contains(onion) {
        let k = choose|k: int|
            0 <= k < views.len() && (#[trigger] views[k]).onion_service_id == onion
                && reciprocal_due(views[k], rows, has_content);
        assert(entry_names(inventory)[k] == views[k].onion_service_id);
        assert(entry_names(inventory)[i] == onion);
        assert(k == i);
    }
}

/// The candidates for a refill are named like the entries that could refill.
proof fn lemma_refill_names(
    all: Seq<PeerInventoryEntry>,
    inventory: Seq<PeerInventoryEntry>,
    rows: Seq<PeerStorageInfo>,
    peers: Seq<NamedPeer>,
    has_content: bool,
)
    requires
        entry_names(all).no_duplicates(),
        row_names(rows).no_duplicates(),
        inventory.len() <= all.len(),
        inventory == all.take(inventory.len() as int),
    ensures
        ({
            let planned = fresh_peers(rows).union(
                reciprocal_peers(inventory_views(all), rows, has_content),
            );
            crate::publication::pool_names(
                refill_candidates(inventory_views(inventory), rows, peers, planned),
            ) == entry_names(inventory.filter(could_refill(rows, peers)))
        }),
    decreases inventory.len(),
{
    reveal(Seq::filter);
    let planned = fresh_peers(rows).union(reciprocal_peers(inventory_views(all), rows, has_content));
    let views = inventory_views(inventory);
    let names = crate::publication::pool_names(refill_candidates(views, rows, peers, planned));
    let picked = inventory.filter(could_refill(rows, peers));
    if inventory.len() > 0 {
        let rest = inventory.drop_last();
        let last = inventory.len() - 1;
        assert(rest =~= all.take(last));
        lemma_refill_names(all, rest, rows, peers, has_content);
        lemma_entry_kinds(all, rows, peers, has_content, last);
        assert(views.drop_last() =~= inventory_views(rest));
        assert(inventory_views(all)[last] == views.last());
        assert(inventory.last() == all[last]);
        let before = refill_candidates(inventory_views(rest), rows, peers, planned);
        let earlier = rest.filter(could_refill(rows, peers));
        match refill_candidate(views.last(), rows, peers, planned) {
            Some(candidate) => {
                assert(names =~= crate::publication::pool_names(before).push(candidate.peer_onion));
                assert(picked =~= earlier.push(inventory.last()));
                assert(entry_names(picked) =~= entry_names(earlier).push(
                    inventory.last().onion_service_id@,
                ));
            },
            None => {
                assert(picked =~= earlier);
            },
        }
    } else {
        assert(names =~= entry_names(picked));
    }
}

/// The peers that are proposed to are named like the entries that are picked.
proof fn lemma_proposed_count(
    inventory: Seq<PeerInventoryEntry>,
    n: nat,
    fresh: Set<Seq<char>>,
    proposing: Set<Seq<char>>,
)
    requires
        entry_names(inventory).no_duplicates(),
        n <= inventory.len(),
    ensures
        planned_actions(inventory_views(inventory), n, fresh, proposing).filter(
            |action: ActionView| action.propose,
        ).len() == inventory.take(n as int).filter(
            |entry: PeerInventoryEntry| proposing.contains(entry.onion_service_id@),
        ).len(),
    decreases n,
{
    reveal(Seq::filter);
    let views = inventory_views(inventory);
    if n > 0 {
        lemma_proposed_count(inventory, (n - 1) as nat, fresh, proposing);
        assert(inventory.take(n as int).drop_last() =~= inventory.take(n - 1));
        assert(views[n - 1] == inventory[n - 1]@);
        let actions = planned_actions(views, n, fresh, proposing);
        let rest = planned_actions(views, (n - 1) as nat, fresh, proposing);
        assert(!repeated(views, n - 1)) by {
            if repeated(views, n - 1) {
                let j = choose|j: int|
                    0 <= j < n - 1 && (#[trigger] views[j]).onion_service_id
                        == views[n - 1].onion_service_id;
                assert(entry_names(inventory)[j] != entry_names(inventory)[n - 1]);
                assert(views[j] == inventory[j]@);
            }
        }
        if actions.len() > rest.len() {
            assert(actions.drop_last() =~= rest);
        }
    }
}

/// Proposals go to whoever is owed one and to as many others as are missing.
pub proof fn lemma_refills_make_up(
    inventory: Seq<PeerInventoryEntry>,
    rows: Seq<PeerStorageInfo>,
    peers: Seq<NamedPeer>,
    has_content: bool,
    min_replicas: i64,
    publication_allowed: bool,
    now: int,
    plan: BackgroundMaintenancePlan,
)
    requires
        exists|chosen: Seq<Seq<char>>| #[trigger]
            refill_rule(
                inventory_views(inventory),
                rows,
                peers,
                has_content,
                min_replicas as int,
                publication_allowed,
                now,
                chosen,
            ) && plan_rule(
                inventory_views(inventory),
                rows,
                has_content,
                min_replicas as int,
                publication_allowed,
                chosen.to_set(),
                plan,
            ),
        entry_names(inventory).no_duplicates(),
        row_names(rows).no_duplicates(),
        inventory.len() <= usize::MAX,
        rows.len() <= i64::MAX,
    ensures
        ({
            let fresh = rows.filter(holds_ours()).len() as int;
            let target = if min_replicas < 0 {
                0
            } else {
                min_replicas as int
            };
            let missing = if target < fresh {
                0
            } else {
                target - fresh
            };
            let able = inventory.filter(could_refill(rows, peers)).len() as int;
            let due = inventory.filter(owed(rows, has_content)).len() as int;
            let refills = if missing <= able {
                missing
            } else {
                able
            };
            let proposed = plan.peer_actions@.filter(
                |action: BackgroundMaintenancePeerAction| action.propose,
            ).len() as int;
            &&& plan.fresh_replica_count == fresh
            &&& plan.min_replicas_target == target
            &&& publication_allowed ==> proposed == due + refills
            &&& !publication_allowed ==> proposed == 0
            &&& publication_allowed && able >= missing ==> fresh + (proposed - due) >= target
            &&& forall|k: int|
                0 <= k < plan.peer_actions@.len() ==> (#[trigger] plan.peer_actions@[k]).check
        }),
{
    let entries = inventory;
    let views = inventory_views(entries);
    let fresh_rows = rows.filter(holds_ours());
    let fresh = fresh_peers(rows);
    let due = reciprocal_peers(views, rows, has_content);
    let row_name = |row: PeerStorageInfo| row.onion_service_id@;
    let entry_name = |entry: PeerInventoryEntry| entry.onion_service_id@;
    // The fresh peers are as many as the fresh rows.
    lemma_filter_names(rows, holds_ours(), row_name);
    assert(fresh =~= fresh_rows.map_values(row_name).to_set()) by {
        assert forall|n: Seq<char>| fresh.contains(n) <==> fresh_rows.map_values(
            row_name,
        ).to_set().contains(n) by {
            lemma_row_tells(rows, n);
            assert(fresh_rows.map_values(row_name).contains(n) <==> exists|i: int|
                0 <= i < rows.len() && holds_ours()(#[trigger] rows[i]) && row_name(rows[i]) == n);
            if answered(rows, n, true) {
                let r = choose|r: int|
                    0 <= r < rows.len() && (#[trigger] rows[r]).onion_service_id@ == n
                        && rows[r].online && rows[r].our_content_synced == true;
                assert(holds_ours()(rows[r]));
            }
        }
    }
    lemma_longest(rows, holds_ours());
    // The peers that are due are as many as the entries that are owed.
    let owed_entries = entries.filter(owed(rows, has_content));
    lemma_filter_names(entries, owed(rows, has_content), entry_name);
    assert(due =~= owed_entries.map_values(entry_name).to_set()) by {
        assert forall|n: Seq<char>| due.contains(n) <==> owed_entries.map_values(
            entry_name,
        ).to_set().contains(n) by {
            assert(owed_entries.map_values(entry_name).contains(n) <==> exists|i: int|
                0 <= i < entries.len() && owed(rows, has_content)(#[trigger] entries[i])
                    && entry_name(entries[i]) == n);
            if due.contains(n) {
                let k = choose|k: int|
                    0 <= k < views.len() && (#[trigger] views[k]).onion_service_id == n
                        && reciprocal_due(views[k], rows, has_content);
                lemma_entry_kinds(entries, rows, peers, has_content, k);
                assert(owed(rows, has_content)(entries[k]));
            }
            if exists|i: int|
                0 <= i < entries.len() && owed(rows, has_content)(#[trigger] entries[i])
                    && entry_name(entries[i]) == n {
                let i = choose|i: int|
                    0 <= i < entries.len() && owed(rows, has_content)(#[trigger] entries[i])
                        && entry_name(entries[i]) == n;
                lemma_entry_kinds(entries, rows, peers, has_content, i);
            }
        }
    }
    // The chosen ones are as many as are wanted or able.
    let chosen = choose|chosen: Seq<Seq<char>>| #[trigger]
        refill_rule(
            views,
            rows,
            peers,
            has_content,
            min_replicas as int,
            publication_allowed,
            now,
            chosen,
        ) && plan_rule(
            views,
            rows,
            has_content,
            min_replicas as int,
            publication_allowed,
            chosen.to_set(),
            plan,
        );
    let able = entries.filter(could_refill(rows, peers));
    let pool = refill_candidates(views, rows, peers, fresh.union(due));
    assert(entries =~= entries.take(entries.len() as int));
    lemma_refill_names(entries, entries, rows, peers, has_content);
    lemma_filter_names(entries, could_refill(rows, peers), entry_name);
    assert(crate::publication::pool_names(pool) =~= able.map_values(entry_name));
    lemma_longest(entries, could_refill(rows, peers));
    let missing = missing_replicas(min_replicas as int, clamp_i64(fresh.len() as int));
    if publication_allowed && missing > 0 {
        crate::publication::law_selection_without_replacement(
            pool,
            wanted_replicas(missing),
            now,
            chosen,
        );
    } else {
        assert(chosen.no_duplicates());
    }
    chosen.unique_seq_to_set();
    let picked = chosen.to_set();
    vstd::seq_lib::seq_to_set_is_finite(chosen);
    vstd::seq_lib::seq_to_set_is_finite(owed_entries.map_values(entry_name));
    let proposing = if publication_allowed {
        due.union(picked)
    } else {
        Set::<Seq<char>>::empty()
    };
    assert forall|n: Seq<char>| picked.contains(n) implies able.map_values(entry_name).contains(
        n,
    ) && !due.contains(n) by {
        let k = choose|k: int| 0 <= k < chosen.len() && chosen[k] == n;
        assert(crate::publication::names_candidate(pool, chosen[k]));
        let c = choose|c: int| 0 <= c < pool.len() && (#[trigger] pool[c]).peer_onion == chosen[k];
        assert(crate::publication::pool_names(pool)[c] == n);
        assert(able.map_values(entry_name).contains(n));
        let i = choose|i: int|
            0 <= i < entries.len() && could_refill(rows, peers)(#[trigger] entries[i])
                && entry_name(entries[i]) == n;
        lemma_entry_kinds(entries, rows, peers, has_content, i);
    }
    vstd::set_lib::lemma_set_disjoint_lens(due, picked);
    // The entries that are proposed to have exactly these names.
    let proposes = |entry: PeerInventoryEntry| proposing.contains(entry.onion_service_id@);
    let proposed = entries.filter(proposes);
    lemma_filter_names(entries, proposes, entry_name);
    assert(proposed.map_values(entry_name).to_set() =~= proposing) by {
        assert forall|n: Seq<char>| proposed.map_values(entry_name).to_set().contains(n)
            <==> proposing.contains(n) by {
            assert(proposed.map_values(entry_name).contains(n) <==> exists|i: int|
                0 <= i < entries.len() && proposes(#[trigger] entries[i]) && entry_name(entries[i])
                    == n);
            if proposing.contains(n) {
                if due.contains(n) {
                    assert(owed_entries.map_values(entry_name).contains(n));
                    let i = choose|i: int|
                        0 <= i < entries.len() && owed(rows, has_content)(#[trigger] entries[i])
                            && entry_name(entries[i]) == n;
                    assert(proposes(entries[i]));
                } else {
                    assert(able.map_values(entry_name).contains(n));
                    let i = choose|i: int|
                        0 <= i < entries.len() && could_refill(rows, peers)(
                            #[trigger] entries[i],
                        ) && entry_name(entries[i]) == n;
                    assert(proposes(entries[i]));
                }
            }
        }
    }
    lemma_proposed_count(entries, entries.len(), fresh, proposing);
    lemma_filter_map(
        plan.peer_actions@,
        |action: BackgroundMaintenancePeerAction| action@,
        |action: BackgroundMaintenancePeerAction| action.propose,
        |action: ActionView| action.propose,
    );
    assert forall|k: int| 0 <= k < plan.peer_actions@.len() implies (
    #[trigger] plan.peer_actions@[k]).check by {
        law_blocked_publication_proposes_nothing(
            views,
            rows,
            has_content,
            min_replicas as int,
            publication_allowed,
            picked,
            plan,
            k,
        );
    }
}

/// While publication is allowed, the plan proposes to every peer that answered,
/// whose bytes we hold and that lacks our revision, and to as many others as
/// replicas are missing or as there are: so where there are enough of them, fresh
/// replicas and refills together reach the target. While it is blocked, the plan
/// proposes to nobody. Every action also checks.
pub proof fn law_refills_make_up_for_missing_replicas(
    inventory: &[PeerInventoryEntry],
    rows: &[PeerStorageInfo],
    peers: &[NamedPeer],
    has_content: bool,
    min_replicas: i64,
    publication_allowed: bool,
    now_secs: i64,
    plan: BackgroundMaintenancePlan,
)
    requires
        call_ensures(
            background_maintenance_plan,
            (inventory, rows, peers, has_content, min_replicas, publication_allowed, now_secs),
            plan,
        ),
        entry_names(inventory@).no_duplicates(),
        row_names(rows@).no_duplicates(),
        inventory@.len() <= usize::MAX,
        rows@.len() <= i64::MAX,
    ensures
        ({
            let fresh = rows@.filter(holds_ours()).len() as int;
            let target = if min_replicas < 0 {
                0
            } else {
                min_replicas as int
            };
            let missing = if target < fresh {
                0
            } else {
                target - fresh
            };
            let able = inventory@.filter(could_refill(rows@, peers@)).len() as int;
            let due = inventory@.filter(owed(rows@, has_content)).len() as int;
            let refills = if missing <= able {
                missing
            } else {
                able
            };
            let proposed = plan.peer_actions@.filter(
                |action: BackgroundMaintenancePeerAction| action.propose,
            ).len() as int;
            &&& plan.fresh_replica_count == fresh
            &&& plan.min_replicas_target == target
            &&& publication_allowed ==> proposed == due + refills
            &&& !publication_allowed ==> proposed == 0
            &&& publication_allowed && able >= missing ==> fresh + (proposed - due) >= target
            &&& forall|k: int|
                0 <= k < plan.peer_actions@.len() ==> (#[trigger] plan.peer_actions@[k]).check
        }),
{
    lemma_refills_make_up(
        inventory@,
        rows@,
        peers@,
        has_content,
        min_replicas,
        publication_allowed,
        now_secs as int,
        plan,
    );
}

/// Picking from a list does not make it longer.
proof fn lemma_longest<A>(items: Seq<A>, picks: spec_fn(A) -> bool)
    ensures
        items.filter(picks).len() <= items.len(),
    decreases items.len(),
{
    reveal(Seq::filter);
    if items.len() > 0 {
        lemma_longest(items.drop_last(), picks);
    }
}

/// Every peer in the inventory that answered and holds our revision is checked
/// without a proposal unless one is owed, every peer that is owed one is proposed
/// to, and a peer that did not answer is left alone.
pub proof fn law_plan_follows_what_peers_answered(
    inventory: &[PeerInventoryEntry],
    rows: &[PeerStorageInfo],
    peers: &[NamedPeer],
    has_content: bool,
    min_replicas: i64,
    publication_allowed: bool,
    now_secs: i64,
    plan: BackgroundMaintenancePlan,
    i: int,
)
    requires
        call_ensures(
            background_maintenance_plan,
            (inventory, rows, peers, has_content, min_replicas, publication_allowed, now_secs),
            plan,
        ),
        entry_names(inventory@).no_duplicates(),
        row_names(rows@).no_duplicates(),
        0 <= i < inventory@.len(),
    ensures
        answered(rows@, inventory@[i].onion_service_id@, true) ==> plans_for(
            plan,
            inventory@[i].onion_service_id@,
        ),
        publication_allowed && owed(rows@, has_content)(inventory@[i]) ==> proposes_to(
            plan,
            inventory@[i].onion_service_id@,
        ),
        !answered(rows@, inventory@[i].onion_service_id@, true) && !answered(
            rows@,
            inventory@[i].onion_service_id@,
            false,
        ) ==> forall|k: int|
            0 <= k < plan.peer_actions@.len() ==> (#[trigger] plan.peer_actions@[k]).peer_onion@
                != inventory@[i].onion_service_id@,
{
    let entries = inventory@;
    let views = inventory_views(entries);
    let onion = entries[i].onion_service_id@;
    let chosen = choose|chosen: Seq<Seq<char>>| #[trigger]
        refill_rule(
            views,
            rows@,
            peers@,
            has_content,
            min_replicas as int,
            publication_allowed,
            now_secs as int,
            chosen,
        ) && plan_rule(
            views,
            rows@,
            has_content,
            min_replicas as int,
            publication_allowed,
            chosen.to_set(),
            plan,
        );
    lemma_row_tells(rows@, onion);
    lemma_entry_kinds(entries, rows@, peers@, has_content, i);
    assert(views[i] == entries[i]@);
    law_plan_covers_replicas_and_reciprocal_peers(
        views,
        rows@,
        has_content,
        min_replicas as int,
        publication_allowed,
        chosen.to_set(),
        plan,
        i,
    );
    let fresh = fresh_peers(rows@);
    let due = reciprocal_peers(views, rows@, has_content);
    let proposing = if publication_allowed {
        due.union(chosen.to_set())
    } else {
        Set::<Seq<char>>::empty()
    };
    if !answered(rows@, onion, true) && !answered(rows@, onion, false) {
        assert(!chosen.contains(onion)) by {
            if chosen.contains(onion) {
                let k = choose|k: int| 0 <= k < chosen.len() && chosen[k] == onion;
                let pool = refill_candidates(views, rows@, peers@, fresh.union(due));
                crate::publication::law_selection_prefers_reciprocal_peers(
                    pool,
                    wanted_replicas(
                        missing_replicas(min_replicas as int, clamp_i64(fresh.len() as int)),
                    ),
                    now_secs as int,
                    chosen,
                    k,
                );
                let c = choose|c: int|
                    0 <= c < pool.len() && (#[trigger] pool[c]).peer_onion == chosen[k];
                assert(entries =~= entries.take(entries.len() as int));
                lemma_refill_names(entries, entries, rows@, peers@, has_content);
                let entry_name = |entry: PeerInventoryEntry| entry.onion_service_id@;
                lemma_filter_names(entries, could_refill(rows@, peers@), entry_name);
                let able = entries.filter(could_refill(rows@, peers@));
                assert(crate::publication::pool_names(pool)[c] == onion);
                assert(crate::publication::pool_names(pool) =~= able.map_values(entry_name));
                assert(able.map_values(entry_name).contains(onion));
            }
        }
        assert forall|k: int| 0 <= k < plan.peer_actions@.len() implies (
        #[trigger] plan.peer_actions@[k]).peer_onion@ != onion by {
            assert(action_views(plan.peer_actions@)[k] == plan.peer_actions@[k]@);
            lemma_action_source(views, views.len(), fresh, proposing, k);
        }
    }
}

/// The candidates for a refill are those that the entries make.
proof fn lemma_refill_members(
    inventory: Seq<PeerInventoryEntryView>,
    rows: Seq<PeerStorageInfo>,
    peers: Seq<NamedPeer>,
    planned: Set<Seq<char>>,
    j: int,
)
    requires
        0 <= j < inventory.len(),
        refill_candidate(inventory[j], rows, peers, planned) is Some,
    ensures
        ({
            let pool = refill_candidates(inventory, rows, peers, planned);
            exists|c: int|
                0 <= c < pool.len() && #[trigger] pool[c] == refill_candidate(
                    inventory[j],
                    rows,
                    peers,
                    planned,
                )->0
        }),
    decreases inventory.len(),
{
    let rest = inventory.drop_last();
    let pool = refill_candidates(inventory, rows, peers, planned);
    let before = refill_candidates(rest, rows, peers, planned);
    let made = refill_candidate(inventory[j], rows, peers, planned)->0;
    if j < rest.len() {
        lemma_refill_members(rest, rows, peers, planned, j);
        let c = choose|c: int| 0 <= c < before.len() && #[trigger] before[c] == made;
        assert(pool[c] == made);
    } else {
        assert(pool[before.len() as int] == made);
    }
}

/// What a refill candidate tells is what the last record with its hostname
/// tells, and whether we hold its bytes.
pub proof fn law_refill_candidates_repeat_their_record(
    entry: PeerInventoryEntry,
    rows: Seq<PeerStorageInfo>,
    peers: Seq<NamedPeer>,
    planned: Set<Seq<char>>,
    p: int,
)
    requires
        crate::storage_report::last_record(peers, entry.onion_service_id@, p),
    ensures
        refill_candidate(entry@, rows, peers, planned) matches Some(candidate) ==> {
            let record = peers[p].peer;
            &&& candidate.peer_onion == entry.onion_service_id@
            &&& candidate.pinned_by_us == record.pinned_by_us
            &&& candidate.pins_us == record.pins_us
            &&& candidate.successful_calls == record.successful_calls
            &&& candidate.failed_calls == record.failed_calls
            &&& candidate.stores_peer_data <==> entry.stored_content_bytes > 0
            &&& record.first_seen_at matches Some(at) ==> candidate.first_seen_at.0 == at.seconds
                && candidate.first_seen_at.1 == at.nanos
            &&& record.first_seen_at is None ==> candidate.first_seen_at == (0i64, 0i64)
        },
{
    crate::storage_report::lemma_last_record(peers, entry.onion_service_id@);
}

/// A plan proposes only to peers that are owed a proposal or could refill a
/// replica, and of the latter to none without a pin on either side while one
/// with a pin is left out.
pub proof fn law_pinned_peers_refill_first(
    inventory: &[PeerInventoryEntry],
    rows: &[PeerStorageInfo],
    peers: &[NamedPeer],
    has_content: bool,
    min_replicas: i64,
    publication_allowed: bool,
    now_secs: i64,
    plan: BackgroundMaintenancePlan,
    k: int,
    i: int,
    d: int,
    p: int,
    q: int,
)
    requires
        call_ensures(
            background_maintenance_plan,
            (inventory, rows, peers, has_content, min_replicas, publication_allowed, now_secs),
            plan,
        ),
        entry_names(inventory@).no_duplicates(),
        row_names(rows@).no_duplicates(),
        0 <= k < plan.peer_actions@.len(),
        plan.peer_actions@[k].propose,
        0 <= i < inventory@.len(),
        inventory@[i].onion_service_id@ == plan.peer_actions@[k].peer_onion@,
        0 <= d < inventory@.len(),
    ensures
        owed(rows@, has_content)(inventory@[i]) || could_refill(rows@, peers@)(inventory@[i]),
        could_refill(rows@, peers@)(inventory@[i]) && could_refill(rows@, peers@)(inventory@[d])
            && crate::storage_report::last_record(peers@, inventory@[i].onion_service_id@, p)
            && crate::storage_report::last_record(peers@, inventory@[d].onion_service_id@, q)
            && !peers@[p].peer.pinned_by_us && !peers@[p].peer.pins_us && (
        peers@[q].peer.pinned_by_us || peers@[q].peer.pins_us) ==> proposes_to(
            plan,
            inventory@[d].onion_service_id@,
        ),
{
    let entries = inventory@;
    let views = inventory_views(entries);
    let fresh = fresh_peers(rows@);
    let due = reciprocal_peers(views, rows@, has_content);
    let planned = fresh.union(due);
    let pool = refill_candidates(views, rows@, peers@, planned);
    let name = entries[i].onion_service_id@;
    let other = entries[d].onion_service_id@;
    let chosen = choose|chosen: Seq<Seq<char>>| #[trigger]
        refill_rule(
            views,
            rows@,
            peers@,
            has_content,
            min_replicas as int,
            publication_allowed,
            now_secs as int,
            chosen,
        ) && plan_rule(
            views,
            rows@,
            has_content,
            min_replicas as int,
            publication_allowed,
            chosen.to_set(),
            plan,
        );
    let proposing = if publication_allowed {
        due.union(chosen.to_set())
    } else {
        Set::<Seq<char>>::empty()
    };
    let actions = action_views(plan.peer_actions@);
    assert(actions[k] == plan.peer_actions@[k]@);
    lemma_action_source(views, views.len(), fresh, proposing, k);
    assert(views[i] == entries[i]@ && views[d] == entries[d]@);
    lemma_entry_kinds(entries, rows@, peers@, has_content, i);
    lemma_entry_kinds(entries, rows@, peers@, has_content, d);
    if !owed(rows@, has_content)(entries[i]) {
        assert(chosen.to_set().contains(name));
        let at = choose|at: int| 0 <= at < chosen.len() && chosen[at] == name;
        let missing = missing_replicas(min_replicas as int, clamp_i64(fresh.len() as int));
        let wanted = wanted_replicas(missing);
        let entry_name = |entry: PeerInventoryEntry| entry.onion_service_id@;
        let able = entries.filter(could_refill(rows@, peers@));
        assert(entries =~= entries.take(entries.len() as int));
        lemma_refill_names(entries, entries, rows@, peers@, has_content);
        lemma_filter_names(entries, could_refill(rows@, peers@), entry_name);
        assert(crate::publication::pool_names(pool) =~= able.map_values(entry_name));
        crate::publication::law_selection_without_replacement(
            pool,
            wanted,
            now_secs as int,
            chosen,
        );
        assert(crate::publication::names_candidate(pool, chosen[at]));
        let c = choose|c: int| 0 <= c < pool.len() && (#[trigger] pool[c]).peer_onion == chosen[at];
        assert(crate::publication::pool_names(pool)[c] == name);
        assert(able.map_values(entry_name).contains(name));
        let e = choose|e: int|
            0 <= e < entries.len() && could_refill(rows@, peers@)(#[trigger] entries[e])
                && entry_name(entries[e]) == name;
        assert(entry_names(entries)[e] == entry_names(entries)[i]);
        assert(e == i);
        if could_refill(rows@, peers@)(entries[d]) && crate::storage_report::last_record(
            peers@,
            name,
            p,
        ) && crate::storage_report::last_record(peers@, other, q) && !peers@[p].peer.pinned_by_us
            && !peers@[p].peer.pins_us && (peers@[q].peer.pinned_by_us || peers@[q].peer.pins_us) {
            law_refill_candidates_repeat_their_record(entries[i], rows@, peers@, planned, p);
            law_refill_candidates_repeat_their_record(entries[d], rows@, peers@, planned, q);
            lemma_refill_members(views, rows@, peers@, planned, i);
            lemma_refill_members(views, rows@, peers@, planned, d);
            let ours = choose|x: int|
                0 <= x < pool.len() && #[trigger] pool[x] == refill_candidate(
                    views[i],
                    rows@,
                    peers@,
                    planned,
                )->0;
            let theirs = choose|x: int|
                0 <= x < pool.len() && #[trigger] pool[x] == refill_candidate(
                    views[d],
                    rows@,
                    peers@,
                    planned,
                )->0;
            crate::publication::lemma_selection_stages(
                pool,
                wanted,
                now_secs as int,
                chosen,
                at,
                ours,
                theirs,
            );
            let j = choose|j: int| 0 <= j < at && #[trigger] chosen[j] == pool[theirs].peer_onion;
            assert(chosen.to_set().contains(other));
            lemma_action_listed(views, views.len(), fresh, proposing, d);
            let all = planned_actions(views, views.len(), fresh, proposing);
            let listed = choose|x: int|
                0 <= x < all.len() && (#[trigger] all[x]).peer_onion == views[d].onion_service_id;
            lemma_action_source(views, views.len(), fresh, proposing, listed);
            assert(actions[listed] == plan.peer_actions@[listed]@);
        }
    }
}

/// Picks the entries of peers that a plan has an action for.
pub open spec fn has_action(plan: BackgroundMaintenancePlan) -> spec_fn(PeerInventoryEntry) -> bool {
    |entry: PeerInventoryEntry| plans_for(plan, entry.onion_service_id@)
}

/// Actions are listed entry by entry.
proof fn lemma_actions_follow_entries(
    inventory: Seq<PeerInventoryEntry>,
    n: nat,
    fresh: Set<Seq<char>>,
    proposing: Set<Seq<char>>,
    picks: spec_fn(PeerInventoryEntry) -> bool,
)
    requires
        entry_names(inventory).no_duplicates(),
        n <= inventory.len(),
        forall|i: int|
            0 <= i < inventory.len() ==> (picks(#[trigger] inventory[i]) <==> fresh.contains(
                inventory[i].onion_service_id@,
            ) || proposing.contains(inventory[i].onion_service_id@)),
    ensures
        planned_actions(inventory_views(inventory), n, fresh, proposing).map_values(
            |action: ActionView| action.peer_onion,
        ) == entry_names(inventory.take(n as int).filter(picks)),
    decreases n,
{
    reveal(Seq::filter);
    let views = inventory_views(inventory);
    let name = |action: ActionView| action.peer_onion;
    let actions = planned_actions(views, n, fresh, proposing);
    let picked = inventory.take(n as int).filter(picks);
    if n > 0 {
        lemma_actions_follow_entries(inventory, (n - 1) as nat, fresh, proposing, picks);
        assert(inventory.take(n as int).drop_last() =~= inventory.take(n - 1));
        assert(views[n - 1] == inventory[n - 1]@);
        let rest = planned_actions(views, (n - 1) as nat, fresh, proposing);
        let earlier = inventory.take(n - 1).filter(picks);
        assert(!repeated(views, n - 1)) by {
            if repeated(views, n - 1) {
                let j = choose|j: int|
                    0 <= j < n - 1 && (#[trigger] views[j]).onion_service_id
                        == views[n - 1].onion_service_id;
                assert(entry_names(inventory)[j] != entry_names(inventory)[n - 1]);
                assert(views[j] == inventory[j]@);
            }
        }
        if picks(inventory[n - 1]) {
            assert(actions.map_values(name) =~= rest.map_values(name).push(
                inventory[n - 1].onion_service_id@,
            ));
            assert(picked =~= earlier.push(inventory[n - 1]));
            assert(entry_names(picked) =~= entry_names(earlier).push(
                inventory[n - 1].onion_service_id@,
            ));
        } else {
            assert(picked =~= earlier);
        }
    } else {
        assert(actions.map_values(name) =~= entry_names(picked));
    }
}

/// A plan lists its actions in the order of the inventory, one for each peer
/// that it has any for and none for anybody else.
pub proof fn law_actions_stand_in_inventory_order(
    inventory: &[PeerInventoryEntry],
    rows: &[PeerStorageInfo],
    peers: &[NamedPeer],
    has_content: bool,
    min_replicas: i64,
    publication_allowed: bool,
    now_secs: i64,
    plan: BackgroundMaintenancePlan,
)
    requires
        call_ensures(
            background_maintenance_plan,
            (inventory, rows, peers, has_content, min_replicas, publication_allowed, now_secs),
            plan,
        ),
        entry_names(inventory@).no_duplicates(),
    ensures
        plan.peer_actions@.map_values(
            |action: BackgroundMaintenancePeerAction| action.peer_onion@,
        ) == entry_names(inventory@.filter(has_action(plan))),
{
    let entries = inventory@;
    let views = inventory_views(entries);
    let fresh = fresh_peers(rows@);
    let due = reciprocal_peers(views, rows@, has_content);
    let chosen = choose|chosen: Seq<Seq<char>>| #[trigger]
        refill_rule(
            views,
            rows@,
            peers@,
            has_content,
            min_replicas as int,
            publication_allowed,
            now_secs as int,
            chosen,
        ) && plan_rule(
            views,
            rows@,
            has_content,
            min_replicas as int,
            publication_allowed,
            chosen.to_set(),
            plan,
        );
    let proposing = if publication_allowed {
        due.union(chosen.to_set())
    } else {
        Set::<Seq<char>>::empty()
    };
    let actions = action_views(plan.peer_actions@);
    let all = planned_actions(views, views.len(), fresh, proposing);
    assert forall|i: int| 0 <= i < entries.len() implies (has_action(plan)(#[trigger] entries[i])
        <==> fresh.contains(entries[i].onion_service_id@) || proposing.contains(
        entries[i].onion_service_id@,
    )) by {
        let onion = entries[i].onion_service_id@;
        assert(views[i] == entries[i]@);
        if fresh.contains(onion) || proposing.contains(onion) {
            lemma_action_listed(views, views.len(), fresh, proposing, i);
            let x = choose|x: int| 0 <= x < all.len() && (#[trigger] all[x]).peer_onion == onion;
            lemma_action_source(views, views.len(), fresh, proposing, x);
            assert(actions[x] == plan.peer_actions@[x]@);
        }
        if plans_for(plan, onion) {
            let x = choose|x: int|
                0 <= x < plan.peer_actions@.len() && (#[trigger] plan.peer_actions@[x]).peer_onion@
                    == onion && plan.peer_actions@[x].check;
            assert(actions[x] == plan.peer_actions@[x]@);
            lemma_action_source(views, views.len(), fresh, proposing, x);
        }
    }
    lemma_actions_follow_entries(entries, entries.len(), fresh, proposing, has_action(plan));
    assert(entries.take(entries.len() as int) =~= entries);
    assert(plan.peer_actions@.map_values(
        |action: BackgroundMaintenancePeerAction| action.peer_onion@,
    ) =~= actions.map_values(|action: ActionView| action.peer_onion));
}

/// Actions name entries, and no two of them the same.
proof fn lemma_actions_are_distinct(
    inventory: Seq<PeerInventoryEntryView>,
    n: nat,
    fresh: Set<Seq<char>>,
    proposing: Set<Seq<char>>,
)
    requires
        n <= inventory.len(),
    ensures
        ({
            let all = planned_actions(inventory, n, fresh, proposing);
            &&& forall|x: int|
                0 <= x < all.len() ==> exists|j: int|
                    0 <= j < n && (#[trigger] inventory[j]).onion_service_id == (
                    #[trigger] all[x]).peer_onion
            &&& forall|x: int, y: int|
                0 <= x < y < all.len() ==> (#[trigger] all[x]).peer_onion != (
                #[trigger] all[y]).peer_onion
        }),
    decreases n,
{
    if n > 0 {
        let rest = planned_actions(inventory, (n - 1) as nat, fresh, proposing);
        let all = planned_actions(inventory, n, fresh, proposing);
        lemma_actions_are_distinct(inventory, (n - 1) as nat, fresh, proposing);
        assert forall|x: int| 0 <= x < all.len() implies exists|j: int|
            0 <= j < n && (#[trigger] inventory[j]).onion_service_id == (
            #[trigger] all[x]).peer_onion by {
            if x < rest.len() {
                assert(all[x] == rest[x]);
                let j = choose|j: int|
                    0 <= j < n - 1 && (#[trigger] inventory[j]).onion_service_id
                        == rest[x].peer_onion;
                assert(0 <= j < n);
            } else {
                assert(inventory[n - 1].onion_service_id == all[x].peer_onion);
            }
        }
        assert forall|x: int, y: int| 0 <= x < y < all.len() implies (
        #[trigger] all[x]).peer_onion != (#[trigger] all[y]).peer_onion by {
            assert(all[x] == rest[x]);
            if y < rest.len() {
                assert(all[y] == rest[y]);
            } else {
                let j = choose|j: int|
                    0 <= j < n - 1 && (#[trigger] inventory[j]).onion_service_id
                        == rest[x].peer_onion;
                assert(!repeated(inventory, n - 1));
            }
        }
    }
}

/// Even where the inventory repeats a hostname, no peer has two actions.
pub proof fn law_no_peer_has_two_actions(
    inventory: &[PeerInventoryEntry],
    rows: &[PeerStorageInfo],
    peers: &[NamedPeer],
    has_content: bool,
    min_replicas: i64,
    publication_allowed: bool,
    now_secs: i64,
    plan: BackgroundMaintenancePlan,
    a: int,
    b: int,
)
    requires
        call_ensures(
            background_maintenance_plan,
            (inventory, rows, peers, has_content, min_replicas, publication_allowed, now_secs),
            plan,
        ),
        0 <= a < b < plan.peer_actions@.len(),
    ensures
        plan.peer_actions@[a].peer_onion@ != plan.peer_actions@[b].peer_onion@,
{
    let views = inventory_views(inventory@);
    let fresh = fresh_peers(rows@);
    let chosen = choose|chosen: Seq<Seq<char>>| #[trigger]
        refill_rule(
            views,
            rows@,
            peers@,
            has_content,
            min_replicas as int,
            publication_allowed,
            now_secs as int,
            chosen,
        ) && plan_rule(
            views,
            rows@,
            has_content,
            min_replicas as int,
            publication_allowed,
            chosen.to_set(),
            plan,
        );
    let proposing = if publication_allowed {
        reciprocal_peers(views, rows@, has_content).union(chosen.to_set())
    } else {
        Set::<Seq<char>>::empty()
    };
    lemma_actions_are_distinct(views, views.len(), fresh, proposing);
    let actions = action_views(plan.peer_actions@);
    assert(actions[a] == plan.peer_actions@[a]@ && actions[b] == plan.peer_actions@[b]@);
}

} // verus!

//! The node's reports on its peers, its storage and its state.

use crate::accounting::MirroredBlobUsage;
use crate::arith::at_least_zero;
use crate::builtin::{built_in_texts, source_header, source_lines};
use crate::collections::{strictly_ascending, texts};
use crate::content::{current_info, oversized_content, publication_block, CurrentContent, Limits};
use crate::inventory::{
    export_built_in_peer_source, inventory_views, lemma_inventory_distinct, reachable, NamedPeer,
    PeerInventoryEntry, PeerInventoryEntryView,
};
use crate::lineage::PeerRevision;
use crate::maintenance::{
    background_maintenance_plan, could_refill, entry_names, holds_ours, lemma_refills_make_up,
    owed, plan_rule, refill_rule, row_names, BackgroundMaintenancePeerAction,
    BackgroundMaintenancePlan,
};
use crate::model::{peer_views, Peer, PeerReachability, Timestamp};
use crate::node::{is_inventory, pruned, Node, NodeView};
use crate::records::{cached_content, mirrored_length_rule, BlobRead};
use crate::recovery_pass::{other_peers, others};
use crate::state_summary::{
    hint_rule, local_state_summary, summary_rule, LocalStoreSnapshot, ParsedContentId,
    StateLocalSummary,
};
use crate::status::{fails_with, Status};
use crate::storage_report::{
    get_peer_storage_row, row_rule, storage_info, storage_info_rule, PeerStorageInfo, StorageInfo,
};
use crate::timestamps::{now_secs, seconds_of};
use vstd::prelude::*;

verus! {

/// Whether `source` lists the built-in peers and the reachable peers of
/// `inventory`, each once and in order.
pub open spec fn export_rule(inventory: Seq<PeerInventoryEntryView>, source: Seq<char>) -> bool {
    exists|peers: Seq<Seq<char>>| #[trigger]
        strictly_ascending(peers) && peers.to_set() == built_in_texts().to_set().union(
            reachable(inventory).to_set(),
        ) && source == source_header() + source_lines(peers) + "];\n"@
}

/// The reason for a block as text.
pub open spec fn reason_view(reason: Option<String>) -> Option<Seq<char>> {
    match reason {
        Some(text) => Some(text@),
        None => None,
    }
}

/// Whether our active revision is larger than peers may exchange.
pub open spec fn oversized(current: Option<CurrentContent>, limits: Limits) -> bool {
    current matches Some(content) && current_info(content).content_length > limits.max_content()
}

/// Whether `outcome` is the local state summary.
pub open spec fn state_rule(
    snapshot: LocalStoreSnapshot,
    inventory: Seq<PeerInventoryEntryView>,
    min_replicas: int,
    reason: Option<Seq<char>>,
    parsed: Seq<ParsedContentId>,
    outcome: Result<StateLocalSummary, Status>,
) -> bool {
    exists|hint: Option<(Seq<u8>, (i64, i64))>| #[trigger]
        hint_rule(snapshot, parsed, hint) && summary_rule(
            snapshot,
            inventory,
            min_replicas,
            reason,
            hint,
            outcome,
        )
}

/// Whether `outcome` passes on a summary.
pub open spec fn passes_on_summary(
    given: Result<StateLocalSummary, Status>,
    outcome: Result<Option<StateLocalSummary>, Status>,
) -> bool {
    match given {
        Ok(summary) => outcome == Ok::<Option<StateLocalSummary>, Status>(Some(summary)),
        Err(status) => outcome == Err::<Option<StateLocalSummary>, Status>(status),
    }
}

/// Whether `plan` can be the maintenance plan of a node.
pub open spec fn maintenance_rule(
    inventory: Seq<PeerInventoryEntryView>,
    rows: Seq<PeerStorageInfo>,
    peers: Seq<NamedPeer>,
    has_content: bool,
    min_replicas: int,
    publication_allowed: bool,
    now: int,
    plan: BackgroundMaintenancePlan,
) -> bool {
    exists|chosen: Seq<Seq<char>>| #[trigger]
        refill_rule(
            inventory,
            rows,
            peers,
            has_content,
            min_replicas,
            publication_allowed,
            now,
            chosen,
        ) && plan_rule(
            inventory,
            rows,
            has_content,
            min_replicas,
            publication_allowed,
            chosen.to_set(),
            plan,
        )
}

/// Whether exporting the peers leads from `node` to `after` and gives `source`.
pub open spec fn exports_peers(
    node: NodeView,
    peers: Option<&[NamedPeer]>,
    now: Timestamp,
    source: Seq<char>,
    after: NodeView,
) -> bool {
    &&& after == pruned(node, seconds_of(now))
    &&& exists|inventory: Seq<PeerInventoryEntry>|
        is_inventory(after, peers, #[trigger] inventory_views(inventory)) && export_rule(
            inventory_views(inventory),
            source,
        )
}

/// Whether summing up the state leads from `node` to `after` and gives
/// `outcome`.
pub open spec fn sums_up_state(
    node: NodeView,
    snapshot: Option<&LocalStoreSnapshot>,
    peers: Option<&[NamedPeer]>,
    reason: Option<Seq<char>>,
    parsed: Seq<ParsedContentId>,
    now: Timestamp,
    outcome: Result<Option<StateLocalSummary>, Status>,
    after: NodeView,
) -> bool {
    match snapshot {
        None => (outcome matches Ok(summary) && summary is None) && after == node,
        Some(store) => {
            &&& after == pruned(node, seconds_of(now))
            &&& exists|inventory: Seq<PeerInventoryEntry>, given: Result<StateLocalSummary, Status>|
                {
                    &&& is_inventory(after, peers, #[trigger] inventory_views(inventory))
                    &&& #[trigger] passes_on_summary(given, outcome)
                    &&& state_rule(
                        *store,
                        inventory_views(inventory),
                        after.storage_config.min_replicas as int,
                        reason,
                        parsed,
                        given,
                    )
                }
        },
    }
}

/// Whether planning maintenance leads from `node` to `after` and gives
/// `outcome`.
pub open spec fn plans_maintenance(
    node: NodeView,
    rows: Seq<PeerStorageInfo>,
    tracked_peers: &[NamedPeer],
    current: Option<CurrentContent>,
    recovery_mode_enabled: bool,
    projected_blob_len: Option<u64>,
    now: Timestamp,
    outcome: Result<BackgroundMaintenancePlan, Status>,
    after: NodeView,
) -> bool {
    &&& after == pruned(node, seconds_of(now))
    &&& if oversized(current, node.limits) {
        fails_with(outcome, oversized_content())
    } else {
        &&& outcome matches Ok(plan)
        &&& exists|inventory: Seq<PeerInventoryEntry>|
            {
                &&& inventory.len() <= usize::MAX
                &&& is_inventory(after, Some(tracked_peers), #[trigger] inventory_views(inventory))
                &&& maintenance_rule(
                    inventory_views(inventory),
                    rows,
                    tracked_peers@,
                    current is Some,
                    after.storage_config.min_replicas as int,
                    publication_block(
                        recovery_mode_enabled,
                        projected_blob_len,
                        node.limits.max_peer_content_bytes as int,
                    ) is None,
                    seconds_of(now),
                    plan,
                )
            }
    }
}

impl Node {
    /// Render the full built-in peer source file from built-ins plus live peers.
    pub fn export_built_in_peer_source(&mut self, peers: Option<&[NamedPeer]>, now: Timestamp) -> (source:
        String)
        requires
            old(self).wf(),
        ensures
            final(self).wf(),
            exports_peers(old(self)@, peers, now, source@, final(self)@),
    {
        let inventory = self.peers_response(peers, now_secs(now));
        let source = export_built_in_peer_source(inventory.as_slice());
        assert(export_rule(inventory_views(inventory@), source@));
        source
    }

    /// Build the local-only state summary shown by `bbcli state`. Without a
    /// store there is nothing to sum up.
    pub fn local_state_summary(
        &mut self,
        snapshot: Option<&LocalStoreSnapshot>,
        peers: Option<&[NamedPeer]>,
        publish_blocked_reason: Option<String>,
        parsed: &[ParsedContentId],
        now: Timestamp,
    ) -> (outcome: Result<Option<StateLocalSummary>, Status>)
        requires
            old(self).wf(),
        ensures
            final(self).wf(),
            sums_up_state(
                old(self)@,
                snapshot,
                peers,
                reason_view(publish_blocked_reason),
                parsed@,
                now,
                outcome,
                final(self)@,
            ),
    {
        let store = match snapshot {
            None => return Ok(None),
            Some(store) => store,
        };
        let inventory = self.peers_response(peers, now_secs(now));
        let ghost views = inventory_views(inventory@);
        let ghost reason = reason_view(publish_blocked_reason);
        let given = local_state_summary(
            store,
            inventory.as_slice(),
            self.storage_config().min_replicas,
            publish_blocked_reason,
            parsed,
        );
        let ghost summary = given;
        assert(state_rule(
            *store,
            views,
            self@.storage_config.min_replicas as int,
            reason,
            parsed@,
            summary,
        ));
        let outcome = match given {
            Ok(summary) => Ok(Some(summary)),
            Err(status) => Err(status),
        };
        assert(is_inventory(self@, peers, views));
        assert(passes_on_summary(summary, outcome));
        outcome
    }

    /// Build the derived storage view shown by the local CLI.
    pub fn storage_info(
        &self,
        storage_peers: &[PeerStorageInfo],
        tracked_peers: &[NamedPeer],
        usage: &[MirroredBlobUsage],
        current: &Option<CurrentContent>,
    ) -> (outcome: Result<StorageInfo, Status>)
        ensures
            if oversized(*current, self@.limits) {
                fails_with(outcome, oversized_content())
            } else {
                outcome matches Ok(info) && storage_info_rule(
                    storage_peers@,
                    tracked_peers@,
                    usage@,
                    *current,
                    at_least_zero(self@.storage_config.allocated_storage_for_peers as int),
                    self@.limits,
                    info,
                )
            },
    {
        storage_info(
            storage_peers,
            tracked_peers,
            usage,
            current,
            self.storage_budget_bytes(),
            &self.limits(),
        )
    }

    /// Build the current background peer-maintenance plan. Nothing may be
    /// proposed while publication is blocked.
    pub fn background_maintenance_plan(
        &mut self,
        storage_peers: &[PeerStorageInfo],
        tracked_peers: &[NamedPeer],
        current: &Option<CurrentContent>,
        recovery_mode_enabled: bool,
        projected_blob_len: Option<u64>,
        now: Timestamp,
    ) -> (outcome: Result<BackgroundMaintenancePlan, Status>)
        requires
            old(self).wf(),
        ensures
            final(self).wf(),
            plans_maintenance(
                old(self)@,
                storage_peers@,
                tracked_peers,
                *current,
                recovery_mode_enabled,
                projected_blob_len,
                now,
                outcome,
                final(self)@,
            ),
    {
        let secs = now_secs(now);
        let inventory = self.peers_response(Some(tracked_peers), secs);
        let content = match self.current_content_info(current) {
            Ok(content) => content,
            Err(status) => return Err(status),
        };
        let publication_allowed = crate::content::publish_blocked_reason(
            recovery_mode_enabled,
            projected_blob_len,
            &self.limits(),
        ).is_none();
        let plan = background_maintenance_plan(
            inventory.as_slice(),
            storage_peers,
            tracked_peers,
            content.is_some(),
            self.storage_config().min_replicas,
            publication_allowed,
            secs,
        );
        let ghost views = inventory_views(inventory@);
        assert(inventory.len() == inventory@.len());
        assert(is_inventory(self@, Some(tracked_peers), views));
        assert(maintenance_rule(
            views,
            storage_peers@,
            tracked_peers@,
            *current is Some,
            self@.storage_config.min_replicas as int,
            publication_allowed,
            seconds_of(now),
            plan,
        ));
        Ok(plan)
    }

    /// Begin a live survey of the storage exchanged with all known peers.
    pub fn get_peer_storage_response(&self) -> (survey: PeerStorageSurvey)
        requires
            self.wf(),
        ensures
            survey.wf(),
            survey.rows().len() == 0,
            survey.limits() == self@.limits,
            exists|known: Seq<Seq<char>>| #[trigger]
                strictly_ascending(known) && known.to_set() == self@.known_peers
                    && survey.unasked() == others(known, self@.onion_address),
    {
        let known = self.known_peers();
        let ghost names = texts(known@);
        assert(strictly_ascending(names));
        let peers = other_peers(known.as_slice(), self.address());
        let rows: Vec<PeerStorageInfo> = Vec::new();
        let survey = PeerStorageSurvey { peers, asked: 0, rows, sizes: self.limits() };
        assert(survey.unasked() =~= texts(survey.peers@));
        survey
    }
}

/// Whether the answer of the next peer leads from `survey` to `after`.
pub open spec fn takes_row(
    survey: PeerStorageSurvey,
    peer_public_key: Option<Vec<u8>>,
    answer: Option<PeerRevision>,
    current: Option<CurrentContent>,
    peers: Seq<Peer>,
    reads: Seq<BlobRead>,
    outcome: Result<(), Status>,
    after: PeerStorageSurvey,
) -> bool {
    &&& after.limits() == survey.limits()
    &&& after.unasked() == survey.unasked().drop_first()
    &&& match peer_public_key {
        None => outcome is Ok && after.rows() == survey.rows(),
        Some(key) => if answer is Some && oversized(current, survey.limits()) {
            fails_with(outcome, oversized_content()) && after.rows() == survey.rows()
        } else {
            match outcome {
                Ok(_) => exists|row: PeerStorageInfo| #[trigger]
                    row_rule(
                        survey.unasked()[0],
                        key@,
                        answer,
                        current,
                        peer_views(peers),
                        reads,
                        row,
                    ) && after.rows() == survey.rows().push(row),
                Err(status) => mirrored_length_rule(
                    cached_content(peer_views(peers), key@),
                    reads,
                    Err(status),
                ) && after.rows() == survey.rows(),
            }
        },
    }
}

/// PeerStorageSurvey asks one peer after the other what it holds for us.
#[derive(Debug)]
pub struct PeerStorageSurvey {
    peers: Vec<String>,
    asked: usize,
    rows: Vec<PeerStorageInfo>,
    sizes: Limits,
}

impl PeerStorageSurvey {
    /// No more peers were asked than there are.
    pub closed spec fn wf(&self) -> bool {
        self.asked <= self.peers@.len()
    }

    /// The peers that are still to be asked, in order.
    pub closed spec fn unasked(&self) -> Seq<Seq<char>> {
        texts(self.peers@).skip(self.asked as int)
    }

    /// The rows of the peers that were asked.
    pub closed spec fn rows(&self) -> Seq<PeerStorageInfo> {
        self.rows@
    }

    /// The fixed sizes of the peer protocol.
    pub closed spec fn limits(&self) -> Limits {
        self.sizes
    }

    /// Return the peer to ask next.
    pub fn next_peer(&self) -> (peer: Option<&str>)
        requires
            self.wf(),
        ensures
            match peer {
                Some(onion) => self.unasked().len() > 0 && onion@ == self.unasked()[0],
                None => self.unasked().len() == 0,
            },
    {
        if self.asked == self.peers.len() {
            return None;
        }
        Some(self.peers[self.asked].as_str())
    }

    /// Take note of what the next peer answered, if it did. A peer whose
    /// hostname encodes no key is left out.
    pub fn answered(
        &mut self,
        peer_public_key: &Option<Vec<u8>>,
        answer: &Option<PeerRevision>,
        current: &Option<CurrentContent>,
        peers: &[Peer],
        reads: &[BlobRead],
    ) -> (outcome: Result<(), Status>)
        requires
            old(self).wf(),
            old(self).unasked().len() > 0,
        ensures
            final(self).wf(),
            takes_row(
                *old(self),
                *peer_public_key,
                *answer,
                *current,
                peers@,
                reads@,
                outcome,
                *final(self),
            ),
    {
        let at = self.asked;
        let total = self.peers.len();
        let ghost onion = texts(self.peers@)[at as int];
        assert(self.unasked().len() == texts(self.peers@).len() - at);
        assert(at < total);
        assert(self.unasked()[0] == onion && onion == self.peers@[at as int]@);
        self.asked = at + 1;
        assert(texts(self.peers@).skip(at + 1) =~= texts(self.peers@).skip(at as int).drop_first());
        let key = match peer_public_key {
            None => return Ok(()),
            Some(key) => key,
        };
        match get_peer_storage_row(
            self.peers[at].as_str(),
            key.as_slice(),
            answer,
            current,
            peers,
            reads,
            &self.sizes,
        ) {
            Ok(row) => {
                assert(row_rule(
                    onion,
                    key@,
                    *answer,
                    *current,
                    peer_views(peers@),
                    reads@,
                    row,
                ));
                self.rows.push(row);
                Ok(())
            },
            Err(status) => Err(status),
        }
    }

    /// Return the rows of all peers that were asked.
    pub fn finish(self) -> (rows: Vec<PeerStorageInfo>)
        ensures
            rows@ == self.rows(),
    {
        self.rows
    }
}

/// The plan of a node proposes to nobody while recovery mode is enabled or the
/// projected revision is too large. Otherwise it proposes to every listed peer
/// that is owed a proposal, and to as many others as replicas are missing to the
/// configured target or as there are. An active revision that is too large for
/// peers is refused.
pub proof fn law_node_plan_reaches_its_target(
    node: NodeView,
    rows: Seq<PeerStorageInfo>,
    tracked_peers: &[NamedPeer],
    current: Option<CurrentContent>,
    recovery: bool,
    projected: Option<u64>,
    now: Timestamp,
    outcome: Result<BackgroundMaintenancePlan, Status>,
    after: NodeView,
)
    requires
        plans_maintenance(
            node,
            rows,
            tracked_peers,
            current,
            recovery,
            projected,
            now,
            outcome,
            after,
        ),
        row_names(rows).no_duplicates(),
        rows.len() <= i64::MAX,
        node.limits.max_peer_content_bytes < i64::MAX,
    ensures
        outcome is Err <==> (current matches Some(content) && content.blob_len
            > node.limits.max_peer_content_bytes),
        outcome matches Ok(plan) ==> exists|inventory: Seq<PeerInventoryEntry>|
            {
                let allowed = !recovery && (projected matches Some(length) ==> length
                    <= node.limits.max_peer_content_bytes);
                let fresh = rows.filter(holds_ours()).len() as int;
                let wanted = node.storage_config.min_replicas;
                let target = if wanted < 0 {
                    0
                } else {
                    wanted as int
                };
                let missing = if target < fresh {
                    0
                } else {
                    target - fresh
                };
                let able = inventory.filter(could_refill(rows, tracked_peers@)).len() as int;
                let due = inventory.filter(owed(rows, current is Some)).len() as int;
                let proposed = plan.peer_actions@.filter(
                    |action: BackgroundMaintenancePeerAction| action.propose,
                ).len() as int;
                &&& is_inventory(after, Some(tracked_peers), #[trigger] inventory_views(inventory))
                &&& plan.fresh_replica_count == fresh
                &&& plan.min_replicas_target == target
                &&& !allowed ==> proposed == 0
                &&& allowed && missing <= able ==> proposed == due + missing
                &&& allowed && missing > able ==> proposed == due + able
            },
{
    if let Ok(plan) = outcome {
        let allowed = publication_block(
            recovery,
            projected,
            node.limits.max_peer_content_bytes as int,
        ) is None;
        let inventory = choose|inventory: Seq<PeerInventoryEntry>|
            {
                &&& inventory.len() <= usize::MAX
                &&& is_inventory(after, Some(tracked_peers), #[trigger] inventory_views(inventory))
                &&& maintenance_rule(
                    inventory_views(inventory),
                    rows,
                    tracked_peers@,
                    current is Some,
                    after.storage_config.min_replicas as int,
                    allowed,
                    seconds_of(now),
                    plan,
                )
            };
        let own = after.onion_address;
        let known = choose|known: Seq<Seq<char>>| #[trigger]
            strictly_ascending(known) && known.to_set() == after.known_peers
                && crate::inventory::lists_entries(
                inventory_views(inventory),
                crate::inventory::entries_of(
                    others(known, own),
                    crate::node::named_views(Some(tracked_peers)),
                    after.clients,
                    after.failures,
                ),
            );
        lemma_inventory_distinct(
            known,
            own,
            crate::node::named_views(Some(tracked_peers)),
            after.clients,
            after.failures,
            inventory,
        );
        assert(entry_names(inventory) =~= inventory.map_values(
            |entry: PeerInventoryEntry| entry.onion_service_id@,
        ));
        lemma_refills_make_up(
            inventory,
            rows,
            tracked_peers@,
            current is Some,
            after.storage_config.min_replicas,
            allowed,
            seconds_of(now),
            plan,
        );
    }
}

/// Without a store there is nothing to sum up and nothing changes. Otherwise
/// the summary shows the configured target of replicas, the given reason why
/// publication is blocked, and what the store says of its files and of recovery
/// mode.
pub proof fn law_node_summary_shows_policy_and_store(
    node: NodeView,
    snapshot: Option<&LocalStoreSnapshot>,
    peers: Option<&[NamedPeer]>,
    reason: Option<Seq<char>>,
    parsed: Seq<ParsedContentId>,
    now: Timestamp,
    outcome: Result<Option<StateLocalSummary>, Status>,
    after: NodeView,
)
    requires
        sums_up_state(node, snapshot, peers, reason, parsed, now, outcome, after),
    ensures
        snapshot is None ==> outcome is Ok && after == node,
        outcome matches Ok(summary) ==> (summary is None <==> snapshot is None),
        outcome matches Ok(Some(summary)) ==> {
            let store = snapshot->0;
            let wanted = node.storage_config.min_replicas;
            &&& wanted >= 0 ==> summary.durability.predicted_min_replicas_target == wanted
            &&& wanted < 0 ==> summary.durability.predicted_min_replicas_target == 0
            &&& reason matches Some(text) ==> summary.recovery.publish_blocked_reason@ == text
            &&& reason is None ==> summary.recovery.publish_blocked_reason@.len() == 0
            &&& summary.recovery.recovery_mode_enabled == store.recovery_mode_enabled
            &&& summary.content.file_count == store.file_count
            &&& summary.content.total_size_bytes == store.total_file_bytes
        },
{
}

/// The exported source lists each known peer but ourselves that has an open
/// client or answered last, once and in order, and nobody else: no peer is
/// built in.
pub proof fn law_node_exports_reachable_peers(
    node: NodeView,
    peers: Option<&[NamedPeer]>,
    now: Timestamp,
    source: Seq<char>,
    after: NodeView,
)
    requires
        exports_peers(node, peers, now, source, after),
    ensures
        exists|names: Seq<Seq<char>>|
            {
                &&& source == source_header() + #[trigger] source_lines(names) + "];\n"@
                &&& strictly_ascending(names)
                &&& forall|name: Seq<char>| #[trigger]
                    names.contains(name) <==> is_known_and_reachable(after, peers, name)
            },
{
    let inventory = choose|inventory: Seq<PeerInventoryEntry>|
        is_inventory(after, peers, #[trigger] inventory_views(inventory)) && export_rule(
            inventory_views(inventory),
            source,
        );
    let views = inventory_views(inventory);
    let live = reachable(views);
    let names = choose|names: Seq<Seq<char>>| #[trigger]
        strictly_ascending(names) && names.to_set() == built_in_texts().to_set().union(
            live.to_set(),
        ) && source == source_header() + source_lines(names) + "];\n"@;
    crate::inventory::lemma_reachable(inventory);
    let own = after.onion_address;
    let known = choose|known: Seq<Seq<char>>| #[trigger]
        strictly_ascending(known) && known.to_set() == after.known_peers
            && crate::inventory::lists_entries(
            views,
            crate::inventory::entries_of(
                others(known, own),
                crate::node::named_views(peers),
                after.clients,
                after.failures,
            ),
        );
    let shown = crate::node::named_views(peers);
    assert forall|name: Seq<char>| #[trigger] names.contains(name) <==> is_known_and_reachable(
        after,
        peers,
        name,
    ) by {
        assert(names.contains(name) <==> names.to_set().contains(name));
        assert(live.contains(name) <==> live.to_set().contains(name));
        assert(!built_in_texts().contains(name));
        assert(names.contains(name) <==> crate::inventory::is_reachable(inventory, name));
        if let Some(records) = peers {
            crate::inventory::lemma_snapshots(records@, name);
        }
        if crate::inventory::is_reachable(inventory, name) {
            let i = choose|i: int|
                0 <= i < inventory.len() && (#[trigger] inventory[i]).onion_service_id@ == name
                    && inventory[i].status != crate::inventory::PeerInventoryStatus::Offline;
            crate::inventory::lemma_entry_shows_its_peer(
                known,
                own,
                shown,
                after.clients,
                after.failures,
                inventory,
                i,
            );
            let k = choose|k: int| 0 <= k < known.len() && #[trigger] known[k] == name;
            assert(known.contains(name));
            assert(known.to_set().contains(name));
            if !after.clients.dom().contains(name) {
                let records = peers->0;
                let m = choose|m: int| #[trigger]
                    crate::inventory::last_named(records@, name, m);
                assert(records@[m].peer.reachability == PeerReachability::Online);
            }
        }
        if is_known_and_reachable(after, peers, name) {
            assert(known.to_set().contains(name));
            let k = choose|k: int| 0 <= k < known.len() && known[k] == name;
            assert(known[k] != own);
            crate::inventory::lemma_lists_every_other_peer(
                known,
                own,
                shown,
                after.clients,
                after.failures,
                inventory,
            );
            let i = choose|i: int|
                0 <= i < inventory.len() && (#[trigger] inventory[i]).onion_service_id@ == name;
            crate::inventory::lemma_entry_shows_its_peer(
                known,
                own,
                shown,
                after.clients,
                after.failures,
                inventory,
                i,
            );
        }
    }
    assert(source == source_header() + source_lines(names) + "];\n"@);
}

/// Whether a known peer has an open client or answered last.
pub open spec fn is_known_and_reachable(
    node: NodeView,
    peers: Option<&[NamedPeer]>,
    name: Seq<char>,
) -> bool {
    &&& node.known_peers.contains(name)
    &&& name != node.onion_address
    &&& node.clients.dom().contains(name) || (peers matches Some(records) && exists|k: int|
        #[trigger]
        crate::inventory::last_named(records@, name, k) && records@[k].peer.reachability
            == PeerReachability::Online)
}

/// The storage view of a node is the one within its own budget and limits.
pub proof fn law_node_storage_view_follows_its_budget(
    node: &Node,
    rows: &[PeerStorageInfo],
    named: &[NamedPeer],
    usage: &[MirroredBlobUsage],
    current: &Option<CurrentContent>,
    outcome: Result<StorageInfo, Status>,
    budget: i64,
    limits: Limits,
    direct: Result<StorageInfo, Status>,
    accepted: i64,
)
    requires
        call_ensures(Node::storage_info, (node, rows, named, usage, current), outcome),
        call_ensures(Node::storage_budget_bytes, (node,), budget),
        call_ensures(Node::limits, (node,), limits),
        call_ensures(storage_info, (rows, named, usage, current, budget, &limits), direct),
        call_ensures(
            crate::mirror::maximum_peer_content_accepted_bytes,
            (usage, budget, &limits),
            accepted,
        ),
    ensures
        outcome is Ok <==> direct is Ok,
        outcome matches Ok(info) ==> {
            let other = direct->Ok_0;
            &&& info.maximum_peer_content_accepted_bytes == accepted
            &&& info.online_peers_storage_obligations_bytes
                == other.online_peers_storage_obligations_bytes
            &&& info.offline_peers_storage_obligations_bytes
                == other.offline_peers_storage_obligations_bytes
            &&& info.expired_offline_peers_storage_obligations_bytes
                == other.expired_offline_peers_storage_obligations_bytes
            &&& info.our_content_bytes == other.our_content_bytes
            &&& info.tracked_only_peers_count == other.tracked_only_peers_count
        },
{
}

/// A survey asks every known peer but ourselves and nobody else, and starts
/// without rows.
pub proof fn law_survey_asks_every_other_peer(
    node: &Node,
    survey: PeerStorageSurvey,
    onion: Seq<char>,
)
    requires
        call_ensures(Node::get_peer_storage_response, (node,), survey),
    ensures
        survey.unasked().contains(onion) <==> node@.known_peers.contains(onion) && onion
            != node@.onion_address,
        survey.rows().len() == 0,
{
    let own = node@.onion_address;
    let known = choose|known: Seq<Seq<char>>| #[trigger]
        strictly_ascending(known) && known.to_set() == node@.known_peers && survey.unasked()
            == others(known, own);
    crate::node::lemma_others_of_set(known, own, onion);
}

/// Each peer is asked once, and whoever has a key gets one row, which tells
/// whether it answered, whether it holds our active revision, and the scores on
/// both sides.
pub proof fn law_each_surveyed_peer_has_one_row(
    survey: PeerStorageSurvey,
    key: Option<Vec<u8>>,
    answer: Option<PeerRevision>,
    current: Option<CurrentContent>,
    peers: Seq<Peer>,
    reads: Seq<BlobRead>,
    outcome: Result<(), Status>,
    after: PeerStorageSurvey,
    i: int,
)
    requires
        takes_row(survey, key, answer, current, peers, reads, outcome, after),
        survey.unasked().len() > 0,
    ensures
        after.unasked() == survey.unasked().drop_first(),
        key is None ==> outcome is Ok && after.rows() == survey.rows(),
        outcome is Err ==> after.rows() == survey.rows(),
        outcome is Ok ==> (key matches Some(bytes) ==> {
            let row = after.rows().last();
            &&& after.rows().len() == survey.rows().len() + 1
            &&& after.rows().drop_last() == survey.rows()
            &&& row.onion_service_id@ == survey.unasked()[0]
            &&& row.peer_public_key@ == bytes@
            &&& row.online <==> answer is Some
            &&& row.our_content_synced <==> (answer matches Some(report)
                && crate::storage_report::agrees(current, report))
            &&& answer matches Some(report) ==> row.our_remaining_seconds
                == report.remaining_seconds
            &&& crate::records::first_with_key(peers, bytes@, i) ==> row.their_remaining_seconds
                == peers[i].score_seconds
        }),
{
    if let Some(bytes) = key {
        crate::records::lemma_find_first(peers, bytes@);
        if outcome is Ok {
            let row = choose|row: PeerStorageInfo| #[trigger]
                row_rule(
                    survey.unasked()[0],
                    bytes@,
                    answer,
                    current,
                    peer_views(peers),
                    reads,
                    row,
                ) && after.rows() == survey.rows().push(row);
            assert(after.rows().last() == row);
            assert(survey.rows().push(row).drop_last() =~= survey.rows());
        }
    }
}

} // verus!

//! Peer identities, admission, pins and the in-memory state of a node.

use barter_node::accounting::PeerStorageProtectionClass;
use barter_node::admission::{
    peer_evicted_before, peer_priority, plan_peer_admission, track_peer_identity_with_capacity,
    trim_tracked_peers_to_capacity_with_limit, PeerAdmissionPlan, MAX_TRACKED_PEERS,
};
use barter_node::builtin::{built_in_peers, merged_export_peers, render_built_in_peer_source};
use barter_node::content::{CurrentContent, Limits};
use barter_node::exchange::{
    exchange_counts_as_attempt, merge_peer_exchange_response, peer_exchange_request, ExchangeAnswer,
};
use barter_node::inventory::{
    local_peer_inventory_snapshot, onion_from_public_key_bytes, peer_inventory_group_rank,
    peer_inventory_status_rank, NamedPeer, PeerFailureClass, PeerInventoryEntry,
    PeerInventoryStatus,
};
use barter_node::lineage::{ParsedRevision, PeerRevision, RevisionKey};
use barter_node::model::{
    ContentInfo, Duration, FirstContactDirection, Peer, PeerOrigin, PeerReachability,
    ProtoTimestamp, Timestamp,
};
use barter_node::node::{
    collect_pinned_onions, resource_policy, AddPeerPlan, Node, PeerRetryPolicy, RollupDecision,
    StorageConfig, MAX_CACHED_PEER_CLIENTS,
};
use barter_node::publish::PublishAction;
use barter_node::records::peer_origin_code;
use barter_node::recovery_pass::RecoveryAction;
use barter_node::retry::{
    classify_recent_peer_failure, connect_failure, retry_peer_operation, rpc_failure, PeerRetry,
    RetryDecision,
};
use barter_node::score::{adjust_peer_score_direct, deduct_peer_score, update_peer_score};
use barter_node::status::{Code, Status, StorageError};
use sha2::{Digest, Sha256};

const CONTENT_ID_LEN: usize = 32;

fn limits() -> Limits {
    Limits {
        content_id_len: CONTENT_ID_LEN,
        max_peer_content_bytes: 4 * 1024 * 1024,
        peer_grpc_message_limit_bytes: 5 * 1024 * 1024,
    }
}

fn at(secs: u64) -> Timestamp {
    Timestamp { secs, nanos: 0 }
}

fn public_key(label: &str) -> Vec<u8> {
    let seed = Sha256::digest(label.as_bytes());
    let secret = ed25519_dalek::SecretKey::from_bytes(seed.as_slice()).unwrap();
    ed25519_dalek::PublicKey::from(&secret).to_bytes().to_vec()
}

fn onion(key: &[u8]) -> String {
    format!("{}.onion", hex::encode(key))
}

fn onion_of(label: &str) -> String {
    onion(&public_key(label))
}

fn key_of_onion(name: &str) -> Option<Vec<u8>> {
    let bytes = hex::decode(name.strip_suffix(".onion")?).ok()?;
    ed25519_dalek::PublicKey::from_bytes(&bytes).ok()?;
    Some(bytes)
}

fn record(
    onion_pubkey: Vec<u8>,
    origin: PeerOrigin,
    score_seconds: i64,
    first_contact_direction: FirstContactDirection,
) -> Peer {
    Peer {
        onion_pubkey,
        score_seconds,
        score_measured_at: 0,
        latest_known_content: None,
        latest_cached_content: None,
        origin,
        first_contact_direction,
        reachability: PeerReachability::Unknown,
        last_live_at: 0,
        pinned_by_us: false,
        pins_us: false,
        our_content_last_verified_content_id: Vec::new(),
        our_content_last_verified_at: 0,
        first_seen_at: Some(ProtoTimestamp { seconds: 0, nanos: 0 }),
        successful_calls: 0,
        failed_calls: 0,
        requester_latest_stored_content: None,
        requester_latest_known_content: None,
        requester_last_advertised_content: None,
        requester_last_advertised_at: None,
        requester_last_downloaded_advertised_content: None,
        requester_last_downloaded_advertised_at: None,
        requester_last_download_latency_seconds: 0,
    }
}

fn test_peer(
    seed: &str,
    origin: PeerOrigin,
    score_seconds: i64,
    first_contact_direction: FirstContactDirection,
) -> Peer {
    record(public_key(seed), origin, score_seconds, first_contact_direction)
}

/// A list of records that stands for the local store.
struct Records {
    peers: Vec<Peer>,
}

impl Records {
    fn new() -> Self {
        Records { peers: Vec::new() }
    }

    fn named(&self) -> Vec<NamedPeer> {
        self.peers
            .iter()
            .map(|peer| NamedPeer { hostname: onion(&peer.onion_pubkey), peer: peer.clone() })
            .collect()
    }

    fn open(&self, label: &str, now: Timestamp) -> Node {
        Node::with_local_storage(onion_of(label), public_key(label), limits(), now, &self.named())
    }

    fn apply(
        &mut self,
        node: &mut Node,
        key: &[u8],
        origin: PeerOrigin,
        plan: barter_node::admission::TrackPeerPlan,
    ) {
        let evicted = plan.evicted.map(|gone| gone.public_key);
        if let Some(gone) = &evicted {
            self.peers.retain(|peer| &peer.onion_pubkey != gone);
        }
        if !self.peers.iter().any(|peer| peer.onion_pubkey == key) {
            self.peers.push(record(key.to_vec(), origin, 0, FirstContactDirection::Unknown));
        }
        let peer = self.peers.iter_mut().find(|peer| peer.onion_pubkey == key).unwrap();
        if let Some(direction) = plan.first_contact_direction {
            peer.first_contact_direction = direction;
        }
        let gone = evicted.map(|key| onion(&key));
        node.peer_admitted(&onion(key), gone.as_deref());
    }

    fn add_known_peer(&mut self, node: &mut Node, name: &str) -> Result<(), Status> {
        let key = key_of_onion(name);
        match node.add_known_peer(name, &key, Some(&self.peers))? {
            AddPeerPlan::Remember => node.peer_admitted(name, None),
            AddPeerPlan::Track(plan) => {
                self.apply(node, &key.unwrap(), PeerOrigin::Manual, plan);
            }
        }
        Ok(())
    }

    fn track(
        &mut self,
        node: &mut Node,
        key: &[u8],
        origin: PeerOrigin,
        direction: FirstContactDirection,
        capacity: usize,
    ) -> Result<(), Status> {
        let plan = track_peer_identity_with_capacity(
            &self.peers,
            key,
            &onion(key),
            origin,
            direction,
            capacity,
        )?;
        self.apply(node, key, origin, plan);
        Ok(())
    }

    fn pin(&mut self, change: barter_node::node::PinChange) {
        for peer in &mut self.peers {
            if peer.onion_pubkey == change.public_key {
                peer.pinned_by_us = change.pinned_by_us;
            }
        }
    }
}

fn entry<'a>(inventory: &'a [PeerInventoryEntry], name: &str) -> &'a PeerInventoryEntry {
    inventory.iter().find(|entry| entry.onion_service_id == name).unwrap()
}

#[test]
fn known_peers_persist_across_restart() {
    let mut records = Records::new();
    let peer = onion_of("persisted-peer");
    let mut first = records.open("owner", at(0));
    records.add_known_peer(&mut first, &peer).unwrap();

    let reloaded = records.open("owner", at(0));
    assert_eq!(reloaded.known_peers(), vec![peer.clone()]);
    let key = key_of_onion(&peer).unwrap();
    let persisted = records.peers.iter().find(|stored| stored.onion_pubkey == key);
    assert_eq!(persisted.map(|peer| peer.origin), Some(PeerOrigin::Manual));
}

#[test]
fn add_known_peer_rejects_our_own_onion() {
    let mut records = Records::new();
    let mut node = records.open("self-peer", at(0));
    let own = node.address().to_string();
    let error = records.add_known_peer(&mut node, &own).unwrap_err();

    assert_eq!(error.code, Code::FailedPrecondition);
    assert_eq!(error.message, "local node cannot act as its own peer");
}

#[test]
fn restart_prunes_stale_self_peer_metadata() {
    let mut records = Records::new();
    let first = records.open("self-prune", at(0));
    let own_key = first.public_key().to_vec();
    let mut stale = record(own_key.clone(), PeerOrigin::Manual, 0, FirstContactDirection::Unknown);
    stale.latest_cached_content =
        Some(ContentInfo { content_id: vec![3; CONTENT_ID_LEN], content_length: 5 });
    records.peers.push(stale);

    let found = first.purge_self_peer_metadata(&records.peers).unwrap();
    assert_eq!(found.public_key, own_key);
    assert_eq!(found.cached_content_id, Some(vec![3; CONTENT_ID_LEN]));
    let unpurged = records.open("self-prune", at(0));
    assert!(unpurged.known_peers().is_empty());

    records.peers.retain(|peer| peer.onion_pubkey != found.public_key);
    let reloaded = records.open("self-prune", at(0));
    assert!(reloaded.known_peers().is_empty());
    assert!(reloaded.purge_self_peer_metadata(&records.peers).is_none());
    assert!(!records.peers.iter().any(|peer| peer.onion_pubkey == own_key));
}

#[test]
fn merged_export_peers_deduplicates_and_sorts() {
    let peers = merged_export_peers(&[
        "z.onion".to_string(),
        "a.onion".to_string(),
        "z.onion".to_string(),
    ]);

    assert_eq!(peers, vec!["a.onion".to_string(), "z.onion".to_string()]);
}

#[test]
fn rendered_built_in_peer_source_contains_peer_entries() {
    let source =
        render_built_in_peer_source(&["alpha.onion".to_string(), "beta.onion".to_string()]);

    assert!(source.contains("pub const BUILTIN_PEERS"));
    assert!(source.contains("\"alpha.onion\""));
    assert!(source.contains("\"beta.onion\""));
    assert!(source.find("alpha").unwrap() < source.find("beta").unwrap());
    assert!(source.ends_with("];\n"));
    assert!(built_in_peers().is_empty());
}

#[test]
fn peer_priority_follows_product_order() {
    assert!(
        peer_priority(true, PeerOrigin::Discovered, 0, FirstContactDirection::Unknown)
            > peer_priority(false, PeerOrigin::Manual, 0, FirstContactDirection::Unknown)
    );
    assert!(
        peer_priority(false, PeerOrigin::Discovered, 1, FirstContactDirection::Unknown)
            < peer_priority(false, PeerOrigin::Manual, 0, FirstContactDirection::Unknown)
    );
    assert!(
        peer_priority(false, PeerOrigin::Discovered, 1, FirstContactDirection::Unknown)
            > peer_priority(false, PeerOrigin::BuiltIn, 0, FirstContactDirection::Unknown)
    );
    assert!(
        peer_priority(false, PeerOrigin::BuiltIn, 0, FirstContactDirection::Unknown)
            > peer_priority(false, PeerOrigin::Discovered, 0, FirstContactDirection::Outbound)
    );
    assert!(
        peer_priority(false, PeerOrigin::Discovered, 0, FirstContactDirection::Outbound)
            > peer_priority(false, PeerOrigin::Discovered, 0, FirstContactDirection::Inbound)
    );
    assert!(
        peer_priority(false, PeerOrigin::Discovered, 0, FirstContactDirection::Inbound)
            > peer_priority(false, PeerOrigin::Discovered, 0, FirstContactDirection::Unknown)
    );
}

#[test]
fn plan_peer_admission_only_evicts_strictly_lower_priority_peers() {
    let inbound_peer = test_peer(
        "priority-inbound",
        PeerOrigin::Discovered,
        0,
        FirstContactDirection::Inbound,
    );
    let reserved_peer = test_peer(
        "priority-reserved",
        PeerOrigin::Discovered,
        10,
        FirstContactDirection::Unknown,
    );
    let outbound_candidate = test_peer(
        "priority-outbound",
        PeerOrigin::Discovered,
        0,
        FirstContactDirection::Outbound,
    );
    let equal_inbound_candidate = test_peer(
        "priority-inbound-equal",
        PeerOrigin::Discovered,
        0,
        FirstContactDirection::Inbound,
    );
    let built_in_candidate = test_peer(
        "priority-built-in",
        PeerOrigin::BuiltIn,
        0,
        FirstContactDirection::Unknown,
    );

    assert_eq!(
        plan_peer_admission(
            std::slice::from_ref(&inbound_peer),
            &outbound_candidate.onion_pubkey,
            outbound_candidate.pinned_by_us,
            outbound_candidate.origin,
            outbound_candidate.score_seconds,
            outbound_candidate.first_contact_direction,
            1,
        ),
        PeerAdmissionPlan::Admit { evicted_public_key: Some(inbound_peer.onion_pubkey.clone()) }
    );
    assert_eq!(
        plan_peer_admission(
            std::slice::from_ref(&inbound_peer),
            &equal_inbound_candidate.onion_pubkey,
            equal_inbound_candidate.pinned_by_us,
            equal_inbound_candidate.origin,
            equal_inbound_candidate.score_seconds,
            equal_inbound_candidate.first_contact_direction,
            1,
        ),
        PeerAdmissionPlan::Reject
    );
    assert_eq!(
        plan_peer_admission(
            std::slice::from_ref(&reserved_peer),
            &built_in_candidate.onion_pubkey,
            built_in_candidate.pinned_by_us,
            built_in_candidate.origin,
            built_in_candidate.score_seconds,
            built_in_candidate.first_contact_direction,
            1,
        ),
        PeerAdmissionPlan::Reject
    );
}

#[test]
fn pinned_candidate_outranks_manual_peer_for_admission() {
    let manual_peer =
        test_peer("priority-manual", PeerOrigin::Manual, 0, FirstContactDirection::Unknown);
    let mut pinned_candidate = test_peer(
        "priority-pinned",
        PeerOrigin::Discovered,
        -10,
        FirstContactDirection::Inbound,
    );
    pinned_candidate.pinned_by_us = true;

    assert_eq!(
        plan_peer_admission(
            std::slice::from_ref(&manual_peer),
            &pinned_candidate.onion_pubkey,
            pinned_candidate.pinned_by_us,
            pinned_candidate.origin,
            pinned_candidate.score_seconds,
            pinned_candidate.first_contact_direction,
            1,
        ),
        PeerAdmissionPlan::Admit { evicted_public_key: Some(manual_peer.onion_pubkey.clone()) }
    );
}

#[test]
fn a_tracked_peer_is_admitted_even_when_full() {
    let peer = test_peer("full", PeerOrigin::Manual, 0, FirstContactDirection::Unknown);
    assert_eq!(
        plan_peer_admission(
            std::slice::from_ref(&peer),
            &peer.onion_pubkey,
            false,
            PeerOrigin::Unknown,
            0,
            FirstContactDirection::Unknown,
            1,
        ),
        PeerAdmissionPlan::Admit { evicted_public_key: None }
    );
    assert_eq!(
        plan_peer_admission(
            &[],
            &peer.onion_pubkey,
            false,
            PeerOrigin::Unknown,
            0,
            FirstContactDirection::Unknown,
            1,
        ),
        PeerAdmissionPlan::Admit { evicted_public_key: None }
    );
}

#[test]
fn eviction_prefers_low_priority_then_low_score() {
    let low = test_peer("low", PeerOrigin::Discovered, -5, FirstContactDirection::Unknown);
    let lower = test_peer("lower", PeerOrigin::Discovered, -9, FirstContactDirection::Unknown);
    let manual = test_peer("manual", PeerOrigin::Manual, -99, FirstContactDirection::Unknown);
    assert!(peer_evicted_before(&lower, &low));
    assert!(!peer_evicted_before(&low, &lower));
    assert!(peer_evicted_before(&low, &manual));
    assert!(!peer_evicted_before(&manual, &low));
}

#[test]
fn manual_peer_displaces_inbound_peer_at_capacity() {
    let mut records = Records::new();
    let mut node = records.open("manual-capacity-owner", at(0));
    let capacity = 8;

    for index in 0..capacity {
        let inbound = public_key(&format!("manual-capacity-inbound-{index}"));
        records
            .track(
                &mut node,
                &inbound,
                peer_origin_code(false, false),
                FirstContactDirection::Inbound,
                capacity,
            )
            .unwrap();
    }
    assert_eq!(node.known_peers().len(), capacity);

    let manual = public_key("manual-capacity-good");
    records
        .track(
            &mut node,
            &manual,
            PeerOrigin::Manual,
            FirstContactDirection::Unknown,
            capacity,
        )
        .unwrap();

    let known_peers = node.known_peers();
    assert_eq!(known_peers.len(), capacity);
    assert!(known_peers.contains(&onion(&manual)));
}

#[test]
fn trim_to_capacity_preserves_pinned_peer() {
    let mut records = Records::new();
    let mut node = records.open("pin-trim-owner", at(0));
    let capacity = 2;

    let pinned = public_key("pin-trim-pinned");
    records
        .track(
            &mut node,
            &pinned,
            peer_origin_code(false, false),
            FirstContactDirection::Inbound,
            3,
        )
        .unwrap();
    let change =
        node.pin_peer(&onion(&pinned), &Some(pinned.clone()), Some(&records.peers)).unwrap();
    records.pin(change);

    for index in 0..2 {
        let key = public_key(&format!("pin-trim-peer-{index}"));
        records
            .track(
                &mut node,
                &key,
                peer_origin_code(false, false),
                FirstContactDirection::Inbound,
                3,
            )
            .unwrap();
    }

    let trim = trim_tracked_peers_to_capacity_with_limit(&records.peers, capacity);
    assert!(trim.failure.is_none());
    for gone in &trim.removed {
        records.peers.retain(|peer| peer.onion_pubkey != gone.public_key);
    }
    assert_eq!(records.peers.len(), capacity);
    assert!(records.peers.iter().any(|peer| peer.onion_pubkey == pinned));
}

#[test]
fn inbound_eclipse_peers_cannot_displace_priority_peers() {
    let mut records = Records::new();
    let mut node = records.open("eclipse-owner", at(0));
    let capacity = 16;

    let manual = public_key("eclipse-manual");
    records
        .track(
            &mut node,
            &manual,
            PeerOrigin::Manual,
            FirstContactDirection::Unknown,
            capacity,
        )
        .unwrap();
    let reserved = public_key("eclipse-reserved");
    records
        .track(
            &mut node,
            &reserved,
            peer_origin_code(false, false),
            FirstContactDirection::Outbound,
            capacity,
        )
        .unwrap();
    for peer in &mut records.peers {
        if peer.onion_pubkey == reserved {
            peer.score_seconds = 100;
            peer.score_measured_at = 1;
        }
    }
    let built_in = public_key("eclipse-built-in");
    records
        .track(
            &mut node,
            &built_in,
            PeerOrigin::BuiltIn,
            FirstContactDirection::Unknown,
            capacity,
        )
        .unwrap();
    let outbound = public_key("eclipse-outbound");
    records
        .track(
            &mut node,
            &outbound,
            peer_origin_code(false, false),
            FirstContactDirection::Outbound,
            capacity,
        )
        .unwrap();

    for index in 0..(capacity - 4) {
        let inbound = public_key(&format!("eclipse-inbound-{index}"));
        records
            .track(
                &mut node,
                &inbound,
                peer_origin_code(false, false),
                FirstContactDirection::Inbound,
                capacity,
            )
            .unwrap();
    }
    assert_eq!(node.known_peers().len(), capacity);

    for index in 0..32 {
        let inbound = public_key(&format!("eclipse-extra-{index}"));
        let error = records
            .track(
                &mut node,
                &inbound,
                peer_origin_code(false, false),
                FirstContactDirection::Inbound,
                capacity,
            )
            .unwrap_err();
        assert_eq!(error.code, Code::ResourceExhausted);
        assert_eq!(
            error.message,
            format!("peer capacity reached; refusing to track {}", onion(&inbound))
        );
    }

    let known_peers = node.known_peers();
    assert_eq!(known_peers.len(), capacity);
    assert!(known_peers.contains(&onion(&manual)));
    assert!(known_peers.contains(&onion(&reserved)));
    assert!(known_peers.contains(&onion(&built_in)));
    assert!(known_peers.contains(&onion(&outbound)));
}

#[test]
fn trimming_stops_at_a_record_without_a_key() {
    let mut broken = test_peer("x", PeerOrigin::Unknown, -50, FirstContactDirection::Unknown);
    broken.onion_pubkey = vec![1, 2, 3];
    let mut unseen = test_peer("y", PeerOrigin::Unknown, -90, FirstContactDirection::Unknown);
    unseen.latest_cached_content = Some(ContentInfo { content_id: vec![9], content_length: 1 });
    let manual = test_peer("z", PeerOrigin::Manual, 0, FirstContactDirection::Unknown);
    let peers = vec![manual, broken, unseen.clone()];
    let trim = trim_tracked_peers_to_capacity_with_limit(&peers, 0);
    assert_eq!(trim.removed.len(), 1);
    assert_eq!(trim.removed[0].public_key, unseen.onion_pubkey);
    assert_eq!(trim.removed[0].cached_content_id, Some(vec![9]));
    let failure = trim.failure.unwrap();
    assert_eq!(failure.code, Code::InvalidArgument);
    assert_eq!(failure.message, "peer public key is invalid");
    assert!(trim_tracked_peers_to_capacity_with_limit(&peers, 3).removed.is_empty());
}

#[test]
fn pin_peer_rejects_self_and_unknown_peer() {
    let records = Records::new();
    let node = records.open("pin-validation-owner", at(0));
    let unknown = onion_of("pin-validation-unknown");

    let own = node.address().to_string();
    let self_error = node.pin_peer(&own, &key_of_onion(&own), Some(&records.peers)).unwrap_err();
    assert_eq!(self_error.code, Code::FailedPrecondition);
    assert!(self_error.message.contains("local node cannot act as its own peer"));

    let unknown_error =
        node.pin_peer(&unknown, &key_of_onion(&unknown), Some(&records.peers)).unwrap_err();
    assert_eq!(unknown_error.code, Code::FailedPrecondition);
    assert_eq!(unknown_error.message, "peer is not tracked; connect it first");

    let invalid = node.unpin_peer("nonsense", &None, Some(&records.peers)).unwrap_err();
    assert_eq!(invalid.code, Code::InvalidArgument);
    assert_eq!(invalid.message, "peer onion is invalid");
    let storeless = node.unpin_peer(&unknown, &key_of_onion(&unknown), None).unwrap_err();
    assert_eq!(storeless.message, "local store is not configured");
}

#[test]
fn pin_and_unpin_peer_persist_in_inventory() {
    let mut records = Records::new();
    let mut node = records.open("pin-persist-owner", at(0));
    let peer = onion_of("pin-persist-peer");
    let key = key_of_onion(&peer);

    records.add_known_peer(&mut node, &peer).unwrap();
    let change = node.pin_peer(&peer, &key, Some(&records.peers)).unwrap();
    records.pin(change);
    let inventory = node.peers_response(Some(&records.named()), 0);
    assert!(entry(&inventory, &peer).pinned_by_us);
    assert_eq!(
        collect_pinned_onions(&records.named()).to_vec(),
        vec![peer.clone()]
    );

    let change = node.unpin_peer(&peer, &key, Some(&records.peers)).unwrap();
    records.pin(change);
    let inventory = node.peers_response(Some(&records.named()), 0);
    assert!(!entry(&inventory, &peer).pinned_by_us);
    assert_eq!(collect_pinned_onions(&records.named()).len(), 0);
}

#[test]
fn the_first_of_two_records_decides_on_a_pin() {
    let mut first = test_peer("twice", PeerOrigin::Manual, 0, FirstContactDirection::Unknown);
    let mut second = first.clone();
    second.pinned_by_us = true;
    let name = onion(&first.onion_pubkey);
    let both = |a: &Peer, b: &Peer| {
        vec![
            NamedPeer { hostname: name.clone(), peer: a.clone() },
            NamedPeer { hostname: name.clone(), peer: b.clone() },
        ]
    };
    assert_eq!(collect_pinned_onions(&both(&first, &second)).len(), 0);
    assert_eq!(collect_pinned_onions(&both(&second, &first)).len(), 1);
    first.onion_pubkey = vec![0; 3];
    first.pinned_by_us = true;
    assert_eq!(collect_pinned_onions(&both(&first, &first)).len(), 0);
}

#[test]
fn a_node_without_a_store_remembers_peers() {
    let mut node = Node::new(onion_of("memory"), public_key("memory"), limits(), at(5));
    assert!(node.known_peers().is_empty());
    let peer = onion_of("memory-peer");
    let plan = node.add_known_peer(&peer, &key_of_onion(&peer), None).unwrap();
    assert!(matches!(plan, AddPeerPlan::Remember));
    node.peer_admitted(&peer, None);
    node.peer_admitted("b.onion", None);
    node.peer_admitted("a.onion", Some("b.onion"));
    let mut expected = vec!["a.onion".to_string(), peer];
    expected.sort();
    assert_eq!(node.known_peers(), expected);
    assert_eq!(node.peer_score_observation_started_at_secs(), Some(5));
    let error = node.add_known_peer("junk", &None, None).unwrap_err();
    assert_eq!(error.message, "peer onion is invalid");
    assert_eq!(
        node.mirrored_peer_content_id(&Some(vec![1; 32]), None).unwrap_err().message,
        "local store is not configured"
    );
}

#[test]
fn contacts_put_peers_on_record() {
    let mut records = Records::new();
    let mut node = records.open("contact-owner", at(0));
    let key = public_key("contact-peer");
    let name = onion(&key);
    let own_key = node.public_key().to_vec();
    let own = node.address().to_string();
    assert!(node
        .note_authenticated_inbound_peer_contact(&own, &own_key, Some(&records.peers))
        .unwrap()
        .is_none());
    let plan = node
        .note_authenticated_inbound_peer_contact(&name, &key, Some(&records.peers))
        .unwrap()
        .unwrap();
    match plan {
        AddPeerPlan::Track(plan) => {
            assert_eq!(plan.first_contact_direction, Some(FirstContactDirection::Inbound));
            records.apply(&mut node, &key, PeerOrigin::Discovered, plan);
        }
        AddPeerPlan::Remember => unreachable!(),
    }
    assert_eq!(records.peers[0].first_contact_direction, FirstContactDirection::Inbound);

    assert!(node
        .note_outbound_peer_contact(&name, &Some(key.clone()), false, Some(&records.peers))
        .unwrap()
        .is_none());
    match node
        .note_outbound_peer_contact(&name, &Some(key.clone()), true, Some(&records.peers))
        .unwrap()
    {
        Some(AddPeerPlan::Track(plan)) => {
            assert!(plan.evicted.is_none());
            assert_eq!(plan.first_contact_direction, Some(FirstContactDirection::Outbound));
        }
        _ => unreachable!(),
    }
    assert_eq!(
        node.note_outbound_peer_contact("junk", &None, true, Some(&records.peers))
            .unwrap_err()
            .code,
        Code::InvalidArgument
    );

    let live = node
        .note_peer_live(&name, &Some(key.clone()), Some(&records.peers), at(77))
        .unwrap()
        .unwrap();
    assert_eq!(live.reachability, PeerReachability::Online);
    assert_eq!(live.last_live_at, Some(77));
    let offline =
        node.note_peer_offline(&name, &Some(key.clone()), Some(&records.peers)).unwrap().unwrap();
    assert_eq!(offline.reachability, PeerReachability::Offline);
    assert_eq!(offline.last_live_at, None);
    assert!(node.note_peer_offline(&own, &Some(own_key), Some(&records.peers)).unwrap().is_none());
    assert!(node.note_peer_live(&name, &Some(key.clone()), None, at(1)).unwrap().is_none());
    assert!(node.note_peer_live(&name, &Some(key), Some(&[]), at(1)).unwrap().is_none());
}

#[test]
fn reports_of_untracked_peers_are_not_recorded() {
    let mut records = Records::new();
    let mut node = records.open("report-owner", at(0));
    let key = public_key("report-peer");
    let revision = PeerRevision {
        latest_stored: Some(ParsedRevision {
            content: ContentInfo { content_id: vec![4; CONTENT_ID_LEN], content_length: 40 },
            key: Ok(RevisionKey {
                sequence: 1,
                created_at_secs: 2,
                created_at_nanos: 3,
                metadata_ciphertext_len: 4,
            }),
        }),
        latest_known: None,
        remaining_seconds: 9,
        requester_pinned: true,
    };
    assert_eq!(node.record_remote_pin_claim(&key, true, Some(&records.peers)).unwrap(), None);
    assert!(node
        .record_requester_revision_observation(&key, &revision, Some(&records.peers))
        .unwrap()
        .is_none());
    assert!(node
        .record_verified_our_content(&key, &None, Some(&records.peers), at(3))
        .unwrap()
        .is_none());
    assert!(node.record_remote_pin_claim(&key, true, None).is_err());

    records.add_known_peer(&mut node, &onion(&key)).unwrap();
    assert_eq!(
        node.record_remote_pin_claim(&key, true, Some(&records.peers)).unwrap(),
        Some(true)
    );
    let state = node
        .record_requester_revision_observation(&key, &revision, Some(&records.peers))
        .unwrap()
        .unwrap();
    assert_eq!(state.latest_stored.unwrap().content_length, 40);
    assert!(state.latest_known.is_none());
    let verified = node
        .record_verified_our_content(&key, &Some(vec![1, 2]), Some(&records.peers), at(3))
        .unwrap()
        .unwrap();
    assert_eq!(verified.content_id, Some(vec![1, 2]));
    assert_eq!(verified.verified_at, Some(3));
    let unproved = node
        .record_verified_our_content(&key, &None, Some(&records.peers), at(3))
        .unwrap()
        .unwrap();
    assert_eq!(unproved.content_id, None);
    assert_eq!(unproved.verified_at, None);
}

#[test]
fn peer_score_update_clamps_to_startup_observation_window() {
    let mut records = Records::new();
    let mut node = records.open("startup-observation-owner", at(1_000));
    let key = public_key("startup-observation-peer");
    records.add_known_peer(&mut node, &onion(&key)).unwrap();
    records.peers[0].score_seconds = 10;
    records.peers[0].score_measured_at = 100;

    let update = node.update_peer_score(Some(&records.peers), &key, true, at(1_010)).unwrap();
    assert_eq!(update.score_seconds, 20);
    assert_eq!(update.score_measured_at, 1_010);
}

#[test]
fn peer_score_update_clamps_to_resumed_observation_window() {
    let mut records = Records::new();
    let mut node = records.open("resumed-observation-owner", at(10));
    let key = public_key("resumed-observation-peer");
    records.add_known_peer(&mut node, &onion(&key)).unwrap();
    records.peers[0].score_seconds = 10;
    records.peers[0].score_measured_at = 50;

    node.suspend_peer_score_observation_window();
    node.start_peer_score_observation_window(at(910));
    let update = node.update_peer_score(Some(&records.peers), &key, true, at(925)).unwrap();
    assert_eq!(update.score_seconds, 25);
}

#[test]
fn peer_score_update_ignores_elapsed_time_while_observation_suspended() {
    let mut records = Records::new();
    let mut node = records.open("suspended-observation-owner", at(100));
    let key = public_key("suspended-observation-peer");
    records.add_known_peer(&mut node, &onion(&key)).unwrap();
    records.peers[0].score_seconds = 10;
    records.peers[0].score_measured_at = 50;

    node.suspend_peer_score_observation_window();
    assert_eq!(node.peer_score_observation_started_at_secs(), None);
    let update = node.update_peer_score(Some(&records.peers), &key, false, at(1_000)).unwrap();
    assert_eq!(update.score_seconds, 10);
}

#[test]
fn scores_of_untracked_peers_are_refused() {
    let node = Records::new().open("score-owner", at(0));
    let error = node.update_peer_score(Some(&[]), &[1; 32], true, at(0)).unwrap_err();
    assert_eq!(error.code, Code::FailedPrecondition);
    assert_eq!(error.message, "peer is not tracked");
    let error = node.update_peer_score(None, &[1; 32], true, at(0)).unwrap_err();
    assert_eq!(error.message, "local store is not configured");
}

#[test]
fn a_failure_undoes_a_success_of_the_same_length() {
    let mut peer = test_peer("undo", PeerOrigin::Manual, 40, FirstContactDirection::Unknown);
    peer.score_measured_at = 100;
    let peers = vec![peer.clone()];
    let passed = update_peer_score(&peers, &peer.onion_pubkey, true, Some(0), 130).unwrap();
    assert_eq!(passed.score_seconds, 70);
    let mut later = peer.clone();
    later.score_seconds = passed.score_seconds;
    later.score_measured_at = 130;
    let failed =
        update_peer_score(&[later], &peer.onion_pubkey, false, Some(0), 160).unwrap();
    assert_eq!(failed.score_seconds, 40);
    let fresh = test_peer("fresh", PeerOrigin::Manual, 7, FirstContactDirection::Unknown);
    let key = fresh.onion_pubkey.clone();
    assert_eq!(update_peer_score(&[fresh], &key, true, Some(0), 500).unwrap().score_seconds, 7);
}

#[test]
fn advertisement_penalties_deduct_from_the_score() {
    let mut peer = test_peer("penalty", PeerOrigin::Manual, 100, FirstContactDirection::Unknown);
    peer.score_measured_at = 100;
    let key = peer.onion_pubkey.clone();
    let peers = vec![peer];
    let update = deduct_peer_score(&peers, &key, 12, 112).unwrap();
    assert_eq!(update.score_seconds, 88);
    assert_eq!(update.score_measured_at, 112);
    assert_eq!(adjust_peer_score_direct(&peers, &key, -9, 109).unwrap().score_seconds, 91);
    assert!(deduct_peer_score(&peers, &key, 0, 112).is_none());
    assert!(adjust_peer_score_direct(&[], &key, -9, 109).is_none());
}

#[test]
fn peer_client_cache_expires_after_idle_ttl() {
    let mut node = Records::new().open("cache-owner", at(0));
    let pinned = collect_pinned_onions(&[]);
    node.remember_peer_client("peer.onion", &pinned, 0);
    assert!(node.has_cached_peer_client("peer.onion", 300));
    assert!(node.cached_peer_client("peer.onion", 300));
    assert!(node.cached_peer_client("peer.onion", 600));
    assert!(!node.has_cached_peer_client("peer.onion", 901));
    assert!(!node.cached_peer_client("other.onion", 901));
    node.remember_peer_client("peer.onion", &pinned, 901);
    node.evict_cached_peer_client("peer.onion");
    assert!(!node.has_cached_peer_client("peer.onion", 901));
    node.remember_peer_client("peer.onion", &pinned, 901);
    node.clear_peer_runtime_transport();
    assert!(!node.has_cached_peer_client("peer.onion", 901));
}

#[test]
fn peer_client_cache_stays_bounded() {
    let mut node = Records::new().open("bounded-owner", at(0));
    let pinned = collect_pinned_onions(&[]);
    for index in 0..(MAX_CACHED_PEER_CLIENTS + 8) {
        node.remember_peer_client(&format!("peer-{index:02}.onion"), &pinned, index as i64);
    }
    let mut open = 0;
    for index in 0..(MAX_CACHED_PEER_CLIENTS + 8) {
        if node.has_cached_peer_client(&format!("peer-{index:02}.onion"), 40) {
            assert!(index >= 8);
            open += 1;
        }
    }
    assert_eq!(open, 32);
}

#[test]
fn pinned_peer_client_survives_cache_pressure() {
    let mut pinned_peer =
        test_peer("pinned-client", PeerOrigin::Manual, 0, FirstContactDirection::Unknown);
    pinned_peer.pinned_by_us = true;
    let name = onion(&pinned_peer.onion_pubkey);
    let named = vec![NamedPeer { hostname: name.clone(), peer: pinned_peer }];
    let pinned = collect_pinned_onions(&named);
    let mut node = Records::new().open("pressure-owner", at(0));
    node.remember_peer_client(&name, &pinned, 0);
    for index in 0..64 {
        node.remember_peer_client(&format!("peer-{index:02}.onion"), &pinned, 1);
    }
    assert!(node.has_cached_peer_client(&name, 2));
    assert!(!node.has_cached_peer_client("peer-00.onion", 2));
}

#[test]
fn live_recovery_probe_runs_once_per_cached_peer_session() {
    let mut node = Records::new().open("probe-owner", at(0));
    let own = node.address().to_string();
    assert!(!node.begin_live_recovery_probe_if_due(&own, 0));
    assert!(node.begin_live_recovery_probe_if_due("peer.onion", 0));
    assert!(!node.begin_live_recovery_probe_if_due("peer.onion", 1));
    node.finish_live_recovery_probe("peer.onion", true, 2);
    assert!(!node.begin_live_recovery_probe_if_due("peer.onion", 302));
    assert!(node.begin_live_recovery_probe_if_due("peer.onion", 603));
    node.finish_live_recovery_probe("other.onion", true, 603);
    assert!(node.begin_live_recovery_probe_if_due("other.onion", 603));
}

#[test]
fn a_failed_probe_may_run_again_in_the_same_session() {
    let mut node = Records::new().open("probe-retry-owner", at(0));
    assert!(node.begin_live_recovery_probe_if_due("peer.onion", 0));
    node.finish_live_recovery_probe("peer.onion", false, 1);
    assert!(node.begin_live_recovery_probe_if_due("peer.onion", 2));
}

#[test]
fn peer_exchange_waits_for_its_cooldown() {
    let mut node = Records::new().open("exchange-owner", at(0));
    assert!(node.peer_exchange_due("peer.onion", 10));
    node.note_peer_exchange_attempt("peer.onion", 10);
    assert!(!node.peer_exchange_due("peer.onion", 309));
    assert!(node.peer_exchange_due("peer.onion", 310));
    assert!(node.peer_exchange_due("other.onion", 11));
}

#[test]
fn peer_exchange_skips_ourselves_and_invalid_keys() {
    let own = public_key("exchange-self");
    let other = public_key("exchange-other");
    let discovered = merge_peer_exchange_response(
        &[own.clone(), vec![1; 31], other.clone(), other.clone()],
        &own,
    );
    assert_eq!(discovered, vec![other.clone(), other.clone()]);
    assert_eq!(
        peer_exchange_request(&[Some(other.clone()), None, Some(own.clone())]),
        vec![other, own]
    );
    assert!(exchange_counts_as_attempt(&ExchangeAnswer::Answered));
    assert!(exchange_counts_as_attempt(&ExchangeAnswer::Failed {
        code: Code::Unimplemented,
        retryable: true,
    }));
    assert!(exchange_counts_as_attempt(&ExchangeAnswer::Failed {
        code: Code::Internal,
        retryable: false,
    }));
    assert!(!exchange_counts_as_attempt(&ExchangeAnswer::Failed {
        code: Code::Unavailable,
        retryable: true,
    }));
}

#[test]
fn an_invalid_public_key_has_no_hostname() {
    let key = public_key("hostname");
    assert_eq!(onion_from_public_key_bytes(&key, "host.onion").unwrap(), "host.onion");
    let error = onion_from_public_key_bytes(&[7; 5], "host.onion").unwrap_err();
    assert_eq!(error.code, Code::InvalidArgument);
    assert_eq!(error.message, "peer public key is invalid");
}

#[test]
fn failures_are_classified_for_operators() {
    let cases = vec![
        (Code::DeadlineExceeded, "x", PeerFailureClass::Timeout),
        (Code::Unavailable, "x", PeerFailureClass::Transport),
        (Code::ResourceExhausted, "over the storage budget", PeerFailureClass::StorageBudget),
        (Code::ResourceExhausted, "message too large", PeerFailureClass::Oversize),
        (Code::ResourceExhausted, "peer capacity reached", PeerFailureClass::Capacity),
        (Code::ResourceExhausted, "other", PeerFailureClass::Protocol),
        (Code::Internal, "too large", PeerFailureClass::Protocol),
    ];
    for (code, message, class) in cases {
        assert_eq!(classify_recent_peer_failure(&Status::with_text(code, message)), class);
    }
}

#[test]
fn failures_show_up_in_the_inventory_until_cleared() {
    let mut node = Records::new().open("failure-owner", at(0));
    node.peer_admitted("peer.onion", None);
    let own = node.address().to_string();
    let error = Status::with_text(Code::Unavailable, "gone");
    node.note_recent_peer_failure(&own, &error, at(5));
    node.note_recent_peer_failure("peer.onion", &error, at(5));
    let inventory = node.peers_response(None, 6);
    assert_eq!(inventory.len(), 1);
    assert_eq!(inventory[0].last_failure_at, 5);
    assert_eq!(inventory[0].last_error_class, PeerFailureClass::Transport);
    assert_eq!(inventory[0].last_error_message, "gone");
    node.clear_recent_peer_failure("peer.onion");
    let inventory = node.peers_response(None, 6);
    assert_eq!(inventory[0].last_failure_at, 0);
    assert_eq!(inventory[0].last_error_message, "");
}

#[test]
fn peer_inventory_sorts_storage_before_online_and_offline() {
    let mut records = Records::new();
    let mut storing =
        test_peer("inv-storing", PeerOrigin::Manual, 0, FirstContactDirection::Unknown);
    storing.latest_cached_content =
        Some(ContentInfo { content_id: vec![1; CONTENT_ID_LEN], content_length: 64 });
    storing.latest_known_content =
        Some(ContentInfo { content_id: vec![2; CONTENT_ID_LEN], content_length: 80 });
    let mut online = test_peer("inv-online", PeerOrigin::Manual, 0, FirstContactDirection::Unknown);
    online.reachability = PeerReachability::Online;
    let offline = test_peer("inv-offline", PeerOrigin::Manual, 0, FirstContactDirection::Unknown);
    records.peers = vec![offline, online, storing];
    let names: Vec<String> =
        records.peers.iter().map(|peer| onion(&peer.onion_pubkey)).collect();
    let mut node = records.open("inv-owner", at(0));
    let inventory = node.peers_response(Some(&records.named()), 0);
    let order: Vec<String> =
        inventory.iter().map(|entry| entry.onion_service_id.clone()).collect();
    assert_eq!(order, vec![names[2].clone(), names[1].clone(), names[0].clone()]);
    assert!(inventory[0].has_storage);
    assert!(inventory[0].stale_cache);
    assert_eq!(inventory[0].stored_content_bytes, 64);
    assert_eq!(inventory[0].latest_known_content_length, 80);
    assert_eq!(inventory[0].storage_protection, PeerStorageProtectionClass::Disposable);
    assert_eq!(inventory[1].status, PeerInventoryStatus::Online);
    assert_eq!(inventory[2].status, PeerInventoryStatus::Offline);
    assert!(peer_inventory_group_rank(&inventory[0]) < peer_inventory_group_rank(&inventory[1]));
    assert!(peer_inventory_group_rank(&inventory[1]) < peer_inventory_group_rank(&inventory[2]));

    node.remember_peer_client(&names[0], &collect_pinned_onions(&[]), 0);
    let inventory = node.peers_response(Some(&records.named()), 0);
    assert_eq!(entry(&inventory, &names[0]).status, PeerInventoryStatus::Connected);
    assert_eq!(local_peer_inventory_snapshot(&records.named()).len(), 3);
    assert!(
        peer_inventory_status_rank(PeerInventoryStatus::Connected)
            < peer_inventory_status_rank(PeerInventoryStatus::Online)
    );
    assert!(
        peer_inventory_status_rank(PeerInventoryStatus::Online)
            < peer_inventory_status_rank(PeerInventoryStatus::Offline)
    );

    let source = node.export_built_in_peer_source(Some(&records.named()), at(0));
    assert!(source.contains(&names[0]));
    assert!(source.contains(&names[1]));
    assert!(!source.contains(&names[2]));
}

#[test]
fn retries_stay_within_the_budget() {
    let secs = |secs: u64| Duration { secs, nanos: 0 };
    assert_eq!(retry_peer_operation(true, secs(5), secs(5), secs(10)), RetryDecision::TryAgain);
    assert_eq!(
        retry_peer_operation(true, secs(5), Duration { secs: 5, nanos: 1 }, secs(10)),
        RetryDecision::GiveUp { peer_offline: true }
    );
    assert_eq!(
        retry_peer_operation(false, secs(0), secs(0), secs(10)),
        RetryDecision::GiveUp { peer_offline: false }
    );
    let mut retry = PeerRetry::new();
    assert_eq!(retry.next_retry(), 1);
    assert_eq!(retry.next_retry(), 2);
}

#[test]
fn peer_rpc_preserves_terminal_status_codes() {
    let mut refusal = Status::with_text(Code::FailedPrecondition, "no");
    refusal.details = vec![8, 1];
    let wrapped = rpc_failure("get content revision", "peer.onion", Some(&refusal));
    assert_eq!(wrapped.code, Code::FailedPrecondition);
    assert_eq!(wrapped.message, "get content revision from peer.onion: no");
    assert_eq!(wrapped.details, vec![8, 1]);
    let timeout = rpc_failure("download peer content", "peer.onion", None);
    assert_eq!(timeout.code, Code::DeadlineExceeded);
    assert_eq!(timeout.message, "download peer content from peer.onion timed out");
    let refused = connect_failure(Some("refused"));
    assert_eq!(refused.code, Code::Unavailable);
    assert_eq!(refused.message, "connect peer: refused");
    let late = connect_failure(None);
    assert_eq!(late.code, Code::DeadlineExceeded);
    assert_eq!(late.message, "connect peer timed out");
}

#[test]
fn storage_config_is_validated() {
    let mut node = Records::new().open("config-owner", at(0));
    assert_eq!(node.storage_budget_bytes(), 1_073_741_824);
    assert_eq!(node.storage_config().min_replicas, 100);
    assert_eq!(node.set_storage_config(None).unwrap_err().message, "config is required");
    assert_eq!(
        node.set_storage_config(Some(StorageConfig {
            allocated_storage_for_peers: -1,
            min_replicas: 1,
        }))
        .unwrap_err()
        .message,
        "allocated_storage_for_peers must be non-negative"
    );
    assert_eq!(
        node.set_storage_config(Some(StorageConfig {
            allocated_storage_for_peers: 1,
            min_replicas: -1,
        }))
        .unwrap_err()
        .message,
        "min_replicas must be non-negative"
    );
    node.set_storage_config(Some(StorageConfig {
        allocated_storage_for_peers: 10,
        min_replicas: 2,
    }))
    .unwrap();
    assert_eq!(node.storage_budget_bytes(), 10);
}

#[test]
fn resource_policy_reports_fixed_limits() {
    let span = |secs: u64, nanos: u32| Duration { secs, nanos };
    let policy = resource_policy(
        &limits(),
        &PeerRetryPolicy {
            connect_timeout: span(1, 0),
            rpc_timeout: span(2, 500_000_000),
            total_budget: span(u64::MAX, 0),
            initial_backoff: span(0, 1_999_999),
            max_backoff: span(0, 0),
        },
    );
    assert_eq!(policy.max_peer_content_bytes, 4 * 1024 * 1024);
    assert_eq!(policy.peer_grpc_message_limit_bytes, 5 * 1024 * 1024);
    assert_eq!(policy.peer_connect_timeout_ms, 1_000);
    assert_eq!(policy.peer_rpc_timeout_ms, 2_500);
    assert_eq!(policy.peer_operation_total_budget_ms, i64::MAX);
    assert_eq!(policy.peer_retry_initial_backoff_ms, 1);
    assert_eq!(policy.peer_retry_max_backoff_ms, 0);
    assert_eq!(policy.max_tracked_peers, MAX_TRACKED_PEERS as i64);
    assert_eq!(policy.max_cached_peer_clients, 32);
    assert!(!policy.chunking_supported);
}

#[test]
fn uptime_counts_from_the_start() {
    let mut node = Records::new().open("uptime-owner", at(100));
    assert_eq!(node.uptime_seconds(at(200)), 0);
    node.mark_started(at(100));
    assert_eq!(node.uptime_seconds(at(110)), 10);
    assert_eq!(node.uptime_seconds(at(90)), 0);
}

#[test]
fn metadata_rollup_waits_until_it_is_due() {
    let node = Records::new().open("rollup-owner", at(0));
    assert_eq!(node.run_metadata_rollup_pass(None, at(5)), RollupDecision::NotPending);
    assert_eq!(node.run_metadata_rollup_pass(Some((5, 1)), at(5)), RollupDecision::NotDue);
    assert_eq!(node.run_metadata_rollup_pass(Some((5, 0)), at(5)), RollupDecision::RollUp);
}

#[test]
fn publishing_and_verifying_reject_the_local_node() {
    let node = Records::new().open("self-propose", at(0));
    let own = node.address().to_string();
    let error = node.publish_to_peer_updates(&own, true, false, None).unwrap_err();
    assert_eq!(error.code, Code::FailedPrecondition);
    assert_eq!(error.message, "local node cannot act as its own peer");
    let key = Some(public_key("peer"));
    let error = node.verify_peer_storage_updates(&own, &key, Some(&[])).unwrap_err();
    assert_eq!(error.message, "local node cannot act as its own peer");
    let error = node.verify_peer_storage_updates("junk", &None, Some(&[])).unwrap_err();
    assert_eq!(error.message, "peer onion is invalid");
    let error = node.verify_peer_storage_updates("peer.onion", &key, None).unwrap_err();
    assert_eq!(error.message, "local store is not configured");
    assert!(node.verify_peer_storage_updates("peer.onion", &key, Some(&[])).is_ok());
    let blocked = node.publish_to_peer_updates("peer.onion", true, true, None).unwrap_err();
    assert_eq!(
        blocked.message,
        "recovery mode is enabled; run `bbcli init complete` before publishing"
    );
    let large = node
        .publish_to_peer_updates("peer.onion", true, false, Some(4 * 1024 * 1024 + 1))
        .unwrap_err();
    assert_eq!(large.message, "current content exceeds the fixed 4 MiB publication limit");
    let attempt = node.publish_to_peer_updates("peer.onion", true, false, None).unwrap();
    assert!(matches!(attempt.action(), PublishAction::Connect));
}

#[test]
fn recovery_passes_probe_every_other_known_peer() {
    let mut node = Records::new().open("pass-owner", at(0));
    let own = node.address().to_string();
    node.peer_admitted("b.onion", None);
    node.peer_admitted("a.onion", None);
    node.peer_admitted(&own, None);
    let pass = node.run_recovery_pass();
    match pass.action() {
        RecoveryAction::Probe(name) => assert_eq!(name, "a.onion"),
        _ => unreachable!(),
    }
}

#[test]
fn current_content_is_reported_within_the_limit() {
    let node = Records::new().open("content-owner", at(0));
    assert!(node.current_content_info(&None).unwrap().is_none());
    let mut current = CurrentContent {
        content_id: vec![1; CONTENT_ID_LEN],
        blob_len: 4 * 1024 * 1024,
        created_at_secs: 0,
        created_at_nanos: 0,
    };
    let info = node
        .current_content_info(&Some(CurrentContent {
            content_id: current.content_id.clone(),
            blob_len: current.blob_len,
            created_at_secs: 0,
            created_at_nanos: 0,
        }))
        .unwrap()
        .unwrap();
    assert_eq!(info.content_length, 4 * 1024 * 1024);
    current.blob_len += 1;
    assert_eq!(
        node.current_content_info(&Some(current)).unwrap_err().message,
        "current content exceeds the peer transport limit"
    );
}

#[test]
fn mirrored_content_ids_come_from_the_record() {
    let mut peer = test_peer("mirrored", PeerOrigin::Manual, 0, FirstContactDirection::Unknown);
    let key = Some(peer.onion_pubkey.clone());
    let node = Records::new().open("mirrored-owner", at(0));
    assert_eq!(node.mirrored_peer_content_id(&key, Some(&[])).unwrap(), None);
    assert_eq!(node.mirrored_peer_content_id(&key, Some(&[peer.clone()])).unwrap(), None);
    peer.latest_cached_content = Some(ContentInfo { content_id: vec![6], content_length: 1 });
    assert_eq!(
        node.mirrored_peer_content_id(&key, Some(&[peer])).unwrap(),
        Some(vec![6])
    );
    assert_eq!(
        node.mirrored_peer_content_id(&None, Some(&[])).unwrap_err().message,
        "peer onion is invalid"
    );
}

#[test]
fn storage_errors_become_statuses() {
    let cases = vec![
        (StorageError::InvalidFileName, Code::InvalidArgument, "file name is required"),
        (StorageError::FileNotFound, Code::NotFound, "file not found"),
        (
            StorageError::LocalContentTooLarge,
            Code::ResourceExhausted,
            "current shared content exceeds the fixed 4 MiB limit",
        ),
        (
            StorageError::RecoveryRequired("recover first".to_string()),
            Code::FailedPrecondition,
            "recover first",
        ),
        (StorageError::Message("m".to_string()), Code::Internal, "m"),
        (StorageError::Other("o".to_string()), Code::Internal, "o"),
    ];
    for (error, code, message) in cases {
        let status = barter_node::status::map_storage_error(error);
        assert_eq!(status.code, code);
        assert_eq!(status.message, message);
    }
}

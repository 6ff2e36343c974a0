//! Choosing whom to publish to, and publishing to one peer.

use barter_node::accounting::PeerStorageProtectionClass;
use barter_node::content::{
    ensure_owner_publication_allowed, ensure_responder_content, our_content_synced_with_peer,
    publish_blocked_reason, CurrentContent, Limits,
};
use barter_node::inventory::{NamedPeer, PeerFailureClass, PeerInventoryEntry, PeerInventoryStatus};
use barter_node::lineage::{LineageWindow, ParsedRevision, PeerRevision, RevisionKey};
use barter_node::maintenance::{
    background_maintenance_plan, maintenance_plan_from, maintenance_plan_with,
    BackgroundMaintenancePeerAction,
};
use barter_node::model::{
    ContentInfo, FirstContactDirection, Peer, PeerOrigin, PeerReachability, ProtoTimestamp,
    Timestamp,
};
use barter_node::node::{Node, StorageConfig};
use barter_node::publication::{
    candidate_at_draw, choose_publication_candidates, publication_candidate_weight,
    sample_weighted_publication_candidate, PublicationCandidate,
};
use barter_node::publish::{
    proto_publication_storage_result, OfferRefusal, PeerStorageOperationState, PublicationStorageResult,
    PublishAction, PublishAttempt, SetContentRevisionStorageResult,
};
use barter_node::status::{Code, Status, StorageError};
use barter_node::storage_report::PeerStorageInfo;
use rand::{rngs::StdRng, SeedableRng};
use sha2::{Digest, Sha256};

fn key_from(label: &str) -> Vec<u8> {
    let seed = Sha256::digest(label.as_bytes());
    let secret = ed25519_dalek::SecretKey::from_bytes(seed.as_slice()).unwrap();
    ed25519_dalek::PublicKey::from(&secret).to_bytes().to_vec()
}

fn candidate(name: &str, pinned: bool, stores: bool) -> PublicationCandidate {
    PublicationCandidate {
        peer_onion: name.to_string(),
        pinned_by_us: pinned,
        pins_us: false,
        first_seen_at: (0, 0),
        successful_calls: 0,
        failed_calls: 0,
        stores_peer_data: stores,
    }
}

fn listed(name: &str, stored_content_bytes: i64) -> PeerInventoryEntry {
    PeerInventoryEntry {
        onion_service_id: name.to_string(),
        status: PeerInventoryStatus::Online,
        pinned_by_us: false,
        pins_us: false,
        has_storage: false,
        score_seconds: 0,
        score_measured_at: 0,
        stored_content_bytes,
        latest_known_content_length: 0,
        latest_cached_content_length: 0,
        stale_cache: false,
        storage_protection: PeerStorageProtectionClass::Nothing,
        tracked_only: false,
        last_live_at: 0,
        last_failure_at: 0,
        last_error_class: PeerFailureClass::Unknown,
        last_error_message: String::new(),
        consecutive_failures: 0,
        next_retry_at: 0,
    }
}

fn live_row(name: &str, online: bool, our_content_synced: bool) -> PeerStorageInfo {
    PeerStorageInfo {
        onion_service_id: name.to_string(),
        peer_public_key: key_from(name),
        our_content_synced,
        our_remaining_seconds: 0,
        their_remaining_seconds: 0,
        their_content_length: 0,
        online,
        their_latest_known_content_id: Vec::new(),
        their_latest_known_content_length: 0,
        their_latest_cached_content_id: Vec::new(),
        their_latest_cached_content_length: 0,
    }
}

fn on_record(name: &str) -> NamedPeer {
    NamedPeer {
        hostname: name.to_string(),
        peer: Peer {
            onion_pubkey: key_from(name),
            score_seconds: 0,
            score_measured_at: 0,
            latest_known_content: None,
            latest_cached_content: None,
            origin: PeerOrigin::Discovered,
            first_contact_direction: FirstContactDirection::Unknown,
            reachability: PeerReachability::Unknown,
            last_live_at: 0,
            pinned_by_us: false,
            pins_us: false,
            our_content_last_verified_content_id: Vec::new(),
            our_content_last_verified_at: 0,
            first_seen_at: Some(ProtoTimestamp { seconds: 5, nanos: 0 }),
            successful_calls: 0,
            failed_calls: 0,
            requester_latest_stored_content: None,
            requester_latest_known_content: None,
            requester_last_advertised_content: None,
            requester_last_advertised_at: None,
            requester_last_downloaded_advertised_content: None,
            requester_last_downloaded_advertised_at: None,
            requester_last_download_latency_seconds: 0,
        },
    }
}

fn planned(name: &str, propose: bool) -> BackgroundMaintenancePeerAction {
    BackgroundMaintenancePeerAction { peer_onion: name.to_string(), propose, check: true }
}

fn info(byte: u8) -> ContentInfo {
    ContentInfo { content_id: vec![byte; 4], content_length: 10 * i64::from(byte) }
}

fn parsed(byte: u8, secs: u64) -> ParsedRevision {
    ParsedRevision {
        content: info(byte),
        key: Ok(RevisionKey {
            sequence: 1,
            created_at_secs: secs,
            created_at_nanos: 0,
            metadata_ciphertext_len: 0,
        }),
    }
}

fn reported(stored: Option<ParsedRevision>, known: Option<ParsedRevision>) -> PeerRevision {
    PeerRevision {
        latest_stored: stored,
        latest_known: known,
        remaining_seconds: 0,
        requester_pinned: true,
    }
}

fn window() -> Option<LineageWindow> {
    Some(LineageWindow { node_initialized_at: (100, 0), recovery_watermark: None })
}

fn attempt() -> PublishAttempt {
    PublishAttempt::publish_to_peer_updates_once("peer.onion", "own.onion", true).unwrap()
}

#[test]
fn choose_publication_candidates_prioritizes_reciprocal_storage_first() {
    let mut rng = StdRng::seed_from_u64(7);
    let selected = choose_publication_candidates(
        &[
            PublicationCandidate {
                peer_onion: "reciprocal.onion".to_string(),
                pinned_by_us: false,
                pins_us: false,
                first_seen_at: (100, 0),
                successful_calls: 0,
                failed_calls: 0,
                stores_peer_data: true,
            },
            PublicationCandidate {
                peer_onion: "ordinary.onion".to_string(),
                pinned_by_us: true,
                pins_us: true,
                first_seen_at: (0, 0),
                successful_calls: 100,
                failed_calls: 0,
                stores_peer_data: false,
            },
        ],
        1,
        10_000,
        &mut rng,
    );

    assert_eq!(selected, vec!["reciprocal.onion".to_string()]);
}

#[test]
fn choose_publication_candidates_biases_toward_pinned_older_available_peers() {
    let strong = || PublicationCandidate {
        peer_onion: "strong.onion".to_string(),
        pinned_by_us: true,
        pins_us: true,
        first_seen_at: (0, 0),
        successful_calls: 100,
        failed_calls: 2,
        stores_peer_data: false,
    };
    let weak = || PublicationCandidate {
        peer_onion: "weak.onion".to_string(),
        pinned_by_us: false,
        pins_us: false,
        first_seen_at: (9_900, 0),
        successful_calls: 0,
        failed_calls: 8,
        stores_peer_data: false,
    };
    let mut rng = StdRng::seed_from_u64(9);
    let mut strong_wins = 0usize;
    for _ in 0..256 {
        let selected =
            choose_publication_candidates(&[strong(), weak()], 1, 10_000, &mut rng);
        if selected == vec!["strong.onion".to_string()] {
            strong_wins = strong_wins.saturating_add(1);
        }
    }

    assert!(strong_wins > 200, "strong peer won only {strong_wins} draws");
}

#[test]
fn reciprocal_peers_come_before_pinned_and_pinned_before_others() {
    let candidates = vec![
        candidate("other.onion", false, false),
        candidate("pinned.onion", true, false),
        candidate("reciprocal.onion", false, true),
    ];
    for seed in 0..20 {
        let mut rng = StdRng::seed_from_u64(seed);
        assert_eq!(
            choose_publication_candidates(&candidates, 9, 0, &mut rng),
            vec![
                "reciprocal.onion".to_string(),
                "pinned.onion".to_string(),
                "other.onion".to_string()
            ]
        );
    }
    let mut rng = StdRng::seed_from_u64(1);
    assert!(choose_publication_candidates(&candidates, 0, 0, &mut rng).is_empty());
    assert!(choose_publication_candidates(&[], 3, 0, &mut rng).is_empty());
}

#[test]
fn a_draw_picks_the_candidate_whose_share_it_falls_into() {
    let candidates = vec![candidate("a.onion", false, false), candidate("b.onion", true, false)];
    let first = publication_candidate_weight(&candidates[0], 0);
    let second = publication_candidate_weight(&candidates[1], 0);
    assert!(second > first);
    assert_eq!(candidate_at_draw(&candidates, 0, 0), Some(0));
    assert_eq!(candidate_at_draw(&candidates, 0, first - 1), Some(0));
    assert_eq!(candidate_at_draw(&candidates, 0, first), Some(1));
    assert_eq!(candidate_at_draw(&candidates, 0, first + second), Some(1));
    let mut rng = StdRng::seed_from_u64(3);
    assert_eq!(sample_weighted_publication_candidate(&[], 0, &mut rng), None);
    let drawn = sample_weighted_publication_candidate(&candidates, 0, &mut rng).unwrap();
    assert!(drawn < 2);
    let mut seen = [false, false];
    for _ in 0..200 {
        seen[sample_weighted_publication_candidate(&candidates, 0, &mut rng).unwrap()] = true;
    }
    assert_eq!(seen, [true, true]);
}

#[test]
fn weights_grow_with_age_pins_and_availability() {
    let base = candidate("a.onion", false, false);
    let weight = |change: &dyn Fn(&mut PublicationCandidate)| {
        let mut changed = candidate("a.onion", false, false);
        change(&mut changed);
        publication_candidate_weight(&changed, 1_000_000)
    };
    let plain = publication_candidate_weight(&base, 0);
    assert!(publication_candidate_weight(&base, 1_000_000) > plain);
    assert!(weight(&|c| c.pins_us = true) > weight(&|_| ()));
    assert!(weight(&|c| c.pinned_by_us = true) > weight(&|_| ()));
    assert!(weight(&|c| c.successful_calls = 9) > weight(&|_| ()));
    assert!(weight(&|c| c.failed_calls = 9) < weight(&|_| ()));
    assert_eq!(weight(&|c| c.failed_calls = -9), weight(&|_| ()));
    assert_eq!(weight(&|c| c.first_seen_at = (2_000_000, 0)), plain);
}

#[test]
fn background_maintenance_plan_checks_fresh_replicas() {
    let inventory = vec![listed("a.onion", 0), listed("b.onion", 0), listed("c.onion", 0)];
    let rows = vec![
        live_row("a.onion", true, true),
        live_row("b.onion", true, false),
        live_row("c.onion", false, false),
    ];
    let plan = maintenance_plan_with(&inventory, &rows, true, 1, true, &[]);
    assert_eq!(plan.peer_actions, vec![planned("a.onion", false)]);
    assert_eq!(plan.fresh_replica_count, 1);
    assert_eq!(plan.min_replicas_target, 1);
    let refill = maintenance_plan_with(
        &inventory,
        &rows,
        true,
        -4,
        true,
        &["b.onion".to_string()],
    );
    assert_eq!(
        refill.peer_actions,
        vec![planned("a.onion", false), planned("b.onion", true)]
    );
    assert_eq!(refill.min_replicas_target, 0);
}

#[test]
fn background_maintenance_plan_reciprocates_with_stored_peer_even_at_target() {
    let inventory = vec![listed("a.onion", 0), listed("b.onion", 64)];
    let rows = vec![live_row("a.onion", true, true), live_row("b.onion", true, false)];
    let plan = maintenance_plan_with(&inventory, &rows, true, 1, true, &[]);
    assert_eq!(
        plan.peer_actions,
        vec![planned("a.onion", false), planned("b.onion", true)]
    );
    let blocked =
        maintenance_plan_with(&inventory, &rows, true, 1, false, &["b.onion".to_string()]);
    assert_eq!(blocked.peer_actions, vec![planned("a.onion", false)]);
    let without_content = maintenance_plan_with(
        &[listed("c.onion", 5)],
        &[live_row("c.onion", true, true)],
        false,
        0,
        true,
        &[],
    );
    assert_eq!(without_content.peer_actions, vec![planned("c.onion", true)]);
}

#[test]
fn missing_replicas_are_refilled_from_live_tracked_peers() {
    let inventory = vec![
        listed("a.onion", 0),
        listed("b.onion", 0),
        listed("offline.onion", 0),
        listed("untracked.onion", 0),
    ];
    let rows = vec![
        live_row("a.onion", true, true),
        live_row("b.onion", true, false),
        live_row("offline.onion", false, false),
        live_row("untracked.onion", true, false),
    ];
    let peers = vec![on_record("a.onion"), on_record("b.onion"), on_record("offline.onion")];
    let expected = vec![planned("a.onion", false), planned("b.onion", true)];
    for seed in 0..10 {
        let mut rng = StdRng::seed_from_u64(seed);
        let plan =
            maintenance_plan_from(&inventory, &rows, &peers, true, 9, true, 100, &mut rng);
        assert_eq!(plan.peer_actions, expected);
    }
    let plan = background_maintenance_plan(&inventory, &rows, &peers, true, 9, true, 100);
    assert_eq!(plan.peer_actions, expected);
    let enough = background_maintenance_plan(&inventory, &rows, &peers, true, 1, true, 100);
    assert_eq!(enough.peer_actions, vec![planned("a.onion", false)]);
}

#[test]
fn a_node_plans_maintenance_of_its_own_peers() {
    let limits = Limits {
        content_id_len: 4,
        max_peer_content_bytes: 100,
        peer_grpc_message_limit_bytes: 200,
    };
    let now = Timestamp { secs: 10, nanos: 0 };
    let peers = vec![on_record("a.onion")];
    let mut node =
        Node::with_local_storage("own.onion".to_string(), key_from("own"), limits, now, &peers);
    node.set_storage_config(Some(StorageConfig {
        allocated_storage_for_peers: 1_000,
        min_replicas: 3,
    }))
    .unwrap();
    let rows = vec![live_row("a.onion", true, false)];
    let current = |blob_len: u64| {
        Some(CurrentContent {
            content_id: vec![1; 4],
            blob_len,
            created_at_secs: 0,
            created_at_nanos: 0,
        })
    };
    let plan = node
        .background_maintenance_plan(&rows, &peers, &current(5), false, Some(5), now)
        .unwrap();
    assert_eq!(plan.peer_actions, vec![planned("a.onion", true)]);
    assert_eq!(plan.min_replicas_target, 3);
    let blocked = node
        .background_maintenance_plan(&rows, &peers, &current(5), true, Some(5), now)
        .unwrap();
    assert!(blocked.peer_actions.is_empty());
    assert!(node
        .background_maintenance_plan(&rows, &peers, &current(101), false, None, now)
        .is_err());
}

#[test]
fn publication_is_blocked_by_recovery_mode_and_size() {
    let limits = Limits {
        content_id_len: 4,
        max_peer_content_bytes: 100,
        peer_grpc_message_limit_bytes: 200,
    };
    assert_eq!(publish_blocked_reason(false, Some(100), &limits), None);
    assert_eq!(publish_blocked_reason(false, None, &limits), None);
    assert!(publish_blocked_reason(true, None, &limits).unwrap().contains("recovery mode"));
    assert!(publish_blocked_reason(false, Some(101), &limits).unwrap().contains("4 MiB"));
    assert!(ensure_owner_publication_allowed(false, Some(100), &limits).is_ok());
    assert_eq!(
        ensure_owner_publication_allowed(true, None, &limits).unwrap_err().code,
        Code::FailedPrecondition
    );
    assert_eq!(
        ensure_responder_content(&None, &limits).unwrap_err().message,
        "local node has no current content to publish"
    );
    let same = ContentInfo { content_id: vec![1], content_length: 9 };
    let other_length = ContentInfo { content_id: vec![1], content_length: 8 };
    assert!(our_content_synced_with_peer(&None, &None));
    assert!(our_content_synced_with_peer(&Some(same.clone()), &Some(other_length)));
    assert!(!our_content_synced_with_peer(&Some(same), &None));
}

#[test]
fn publishing_offers_our_revision_once_it_is_missing() {
    let mut publish = attempt();
    assert!(matches!(publish.action(), PublishAction::Connect));
    publish.connected();
    assert!(matches!(publish.action(), PublishAction::FetchRevision));
    publish.revision_received(reported(None, Some(parsed(1, 200))), window()).unwrap();
    assert!(matches!(publish.action(), PublishAction::RecordObservation));
    publish.observed().unwrap();
    assert!(matches!(publish.action(), PublishAction::RecordPinClaim(true)));
    publish.pin_claim_recorded();
    assert!(matches!(publish.action(), PublishAction::Prepare));
    publish.prepared(44, info(2));
    match publish.action() {
        PublishAction::RecordAdvertisement(content) => assert_eq!(content, info(2)),
        _ => unreachable!(),
    }
    publish.advertised();
    match publish.action() {
        PublishAction::Offer { previous, content } => {
            assert_eq!(previous, Some(info(1)));
            assert_eq!(content, info(2));
        }
        _ => unreachable!(),
    }
    publish.offer_answered(Ok(SetContentRevisionStorageResult::SidecarOnly)).unwrap();
    assert!(matches!(publish.action(), PublishAction::ExchangePeers));
    publish.peers_exchanged();
    assert!(matches!(publish.action(), PublishAction::Finish));
    let updates = publish.updates();
    let states: Vec<PeerStorageOperationState> =
        updates.iter().map(|update| update.state).collect();
    assert_eq!(
        states,
        vec![
            PeerStorageOperationState::ConnectingToPeer,
            PeerStorageOperationState::PublishingToPeer,
            PeerStorageOperationState::SyncingContents,
            PeerStorageOperationState::Completed,
        ]
    );
    let last = &updates[3];
    assert!(last.success);
    assert!(updates[..3].iter().all(|update| !update.success));
    assert_eq!(last.their_content_length, 44);
    assert_eq!(last.our_content_length, 20);
    assert_eq!(last.our_content_uploaded_bytes, 20);
    assert_eq!(last.storage_result, PublicationStorageResult::SidecarOnly);
    assert_eq!(updates[1].our_content_length, 0);
}

#[test]
fn publishing_skips_the_offer_when_the_peer_holds_our_revision() {
    let mut publish = attempt();
    publish.connected();
    publish.revision_received(reported(Some(parsed(2, 200)), None), window()).unwrap();
    publish.observed().unwrap();
    publish.pin_claim_recorded();
    publish.prepared(0, info(2));
    assert!(matches!(publish.action(), PublishAction::ExchangePeers));
    publish.peers_exchanged();
    let last = publish.updates().pop().unwrap();
    assert_eq!(last.our_content_uploaded_bytes, 0);
    assert_eq!(last.storage_result, PublicationStorageResult::Unknown);
}

#[test]
fn publish_to_peer_updates_run_automatic_recovery_before_publication() {
    let mut publish = attempt();
    publish.connected();
    publish.revision_received(reported(Some(parsed(1, 50)), None), window()).unwrap();
    publish.observed().unwrap();
    assert!(matches!(publish.action(), PublishAction::RunRecovery));
    publish.recovered();
    assert!(matches!(publish.action(), PublishAction::FetchRevision));
    let error = publish
        .revision_received(reported(Some(parsed(1, 50)), None), window())
        .unwrap_err();
    assert_eq!(error.code, Code::FailedPrecondition);
    assert_eq!(
        error.message,
        "peer still stores an older requester revision from before this node was initialized; \
         recover it before publishing to peer.onion (content_id=01010101, timestamp=50.000000000)"
    );

    let mut publish = attempt();
    publish.connected();
    publish.revision_received(reported(Some(parsed(1, 50)), None), window()).unwrap();
    publish.observed().unwrap();
    publish.recovered();
    let closed = Some(LineageWindow {
        node_initialized_at: (100, 0),
        recovery_watermark: Some((50, 0)),
    });
    publish.revision_received(reported(Some(parsed(1, 50)), None), closed).unwrap();
    assert!(matches!(publish.action(), PublishAction::RecordPinClaim(true)));
}

#[test]
fn a_mismatch_is_retried_once_after_a_refresh() {
    let refusal = || {
        Err(OfferRefusal {
            status: Status::with_text(Code::FailedPrecondition, "mismatch"),
            previous_mismatch: true,
        })
    };
    let mut publish = attempt();
    publish.connected();
    publish.revision_received(reported(None, None), window()).unwrap();
    publish.observed().unwrap();
    publish.pin_claim_recorded();
    publish.prepared(0, info(3));
    publish.advertised();
    publish.offer_answered(refusal()).unwrap();
    assert!(matches!(publish.action(), PublishAction::FetchRevision));
    publish.revision_received(reported(None, Some(parsed(9, 300))), window()).unwrap();
    publish.observed().unwrap();
    publish.pin_claim_recorded();
    assert!(matches!(publish.action(), PublishAction::RecordAdvertisement(_)));
    publish.advertised();
    match publish.action() {
        PublishAction::Offer { previous, .. } => assert_eq!(previous, Some(info(9))),
        _ => unreachable!(),
    }
    let error = publish.offer_answered(refusal()).unwrap_err();
    assert_eq!(error.message, "mismatch");
}

#[test]
fn other_refusals_and_malformed_reports_end_the_attempt() {
    let mut publish = attempt();
    publish.connected();
    publish.revision_received(reported(None, None), None).unwrap();
    publish.observed().unwrap();
    publish.pin_claim_recorded();
    publish.prepared(0, info(3));
    publish.advertised();
    let error = publish
        .offer_answered(Err(OfferRefusal {
            status: Status::with_text(Code::Internal, "no"),
            previous_mismatch: false,
        }))
        .unwrap_err();
    assert_eq!(error.message, "no");

    let mut publish = attempt();
    publish.connected();
    let malformed = ParsedRevision {
        content: info(1),
        key: Err(StorageError::Other("unreadable".to_string())),
    };
    publish.revision_received(reported(Some(malformed), None), window()).unwrap();
    let error = publish.observed().unwrap_err();
    assert_eq!(error.code, Code::Internal);
    assert_eq!(error.message, "unreadable");

    assert_eq!(
        proto_publication_storage_result(SetContentRevisionStorageResult::MirroredBytesCached),
        PublicationStorageResult::MirroredBytesCached
    );
    assert!(PublishAttempt::publish_to_peer_updates_once("x", "own.onion", false).is_err());
}

#[test]
fn a_selection_names_every_candidate_at_most_once() {
    let candidates = vec![
        candidate("a.onion", false, true),
        candidate("b.onion", true, false),
        candidate("c.onion", false, false),
        candidate("d.onion", true, true),
    ];
    for seed in 0..20 {
        let mut rng = StdRng::seed_from_u64(seed);
        let mut all = choose_publication_candidates(&candidates, 9, 0, &mut rng);
        all.sort();
        assert_eq!(all, vec!["a.onion", "b.onion", "c.onion", "d.onion"]);
        let mut some = choose_publication_candidates(&candidates, 3, 0, &mut rng);
        assert_eq!(some.len(), 3);
        some.sort();
        some.dedup();
        assert_eq!(some.len(), 3);
    }
}

#[test]
fn nothing_is_drawn_where_nothing_is_to_be_chosen() {
    let mut rng = StdRng::seed_from_u64(3);
    let before = rng.clone();
    let candidates = vec![candidate("a.onion", false, true), candidate("b.onion", true, false)];
    assert!(choose_publication_candidates(&candidates, 0, 0, &mut rng).is_empty());
    assert!(choose_publication_candidates(&[], 2, 0, &mut rng).is_empty());
    assert_eq!(sample_weighted_publication_candidate(&[], 0, &mut rng), None);
    let entries = vec![listed("a.onion", 0)];
    let rows = vec![live_row("a.onion", true, false)];
    let records = vec![on_record("a.onion")];
    maintenance_plan_from(&entries, &rows, &records, true, 2, false, 0, &mut rng);
    maintenance_plan_from(&entries, &rows, &records, true, 0, true, 0, &mut rng);
    assert!(rng == before);
    maintenance_plan_from(&entries, &rows, &records, true, 2, true, 0, &mut rng);
    assert!(rng != before);
}

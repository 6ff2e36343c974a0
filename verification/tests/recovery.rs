//! Finding and applying older revisions, and the state that operators see.

use barter_node::batcher::{
    FlushStep, PendingPeerMetadataFlush, DEFAULT_LOW_VALUE_PEER_METADATA_FLUSH_DELAY,
    TIMER_LABEL_PEER_METADATA_FLUSH_DELAY,
};
use barter_node::content::{CurrentContent, Limits};
use barter_node::inventory::NamedPeer;
use barter_node::lineage::{
    ensure_peer_revision_does_not_require_recovery, key_less, recoverable_requester_revision,
    recovered_less, requester_revision_in_recovery_window, revision_key, timestamp_requires_recovery,
    LineageWindow, ParsedRevision, PeerRevision, RecoverableRequesterRevisionSource, RevisionKey,
};
use barter_node::model::{
    ContentInfo, FirstContactDirection, Peer, PeerOrigin, PeerReachability, ProtoTimestamp,
    Timestamp,
};
use barter_node::node::{Node, StorageConfig};
use barter_node::recovery::{
    apply_recovery_candidate, current_content_needs_restore_from_peer, recovered_revision,
    RecoveredRevision, RecoveryApplication, RecoveryCandidate, RecoveryDownload,
    RecoveryDownloadStep, RecoveryMergeOutcome, RecoveryScan,
};
use barter_node::recovery_pass::{RecoveryAction, RecoveryPass};
use barter_node::state_summary::{LocalStoreSnapshot, ParsedContentId};
use barter_node::status::{Code, Status, StorageError};
use sha2::{Digest, Sha256};

fn rev_key(sequence: u64, secs: u64) -> RevisionKey {
    RevisionKey {
        sequence,
        created_at_secs: secs,
        created_at_nanos: 7,
        metadata_ciphertext_len: 0,
    }
}

fn revision(byte: u8, sequence: u64, secs: u64) -> ParsedRevision {
    ParsedRevision {
        content: ContentInfo { content_id: vec![byte; 4], content_length: i64::from(byte) },
        key: Ok(rev_key(sequence, secs)),
    }
}

fn unreadable(byte: u8) -> ParsedRevision {
    ParsedRevision {
        content: ContentInfo { content_id: vec![byte; 4], content_length: 1 },
        key: Err(StorageError::Other("unreadable".to_string())),
    }
}

fn told(stored: Option<ParsedRevision>, known: Option<ParsedRevision>) -> PeerRevision {
    PeerRevision {
        latest_stored: stored,
        latest_known: known,
        remaining_seconds: 0,
        requester_pinned: false,
    }
}

fn open_window(watermark: Option<(i64, i64)>) -> Option<LineageWindow> {
    Some(LineageWindow { node_initialized_at: (1_000, 0), recovery_watermark: watermark })
}

fn present(byte: u8) -> Option<CurrentContent> {
    Some(CurrentContent {
        content_id: vec![byte; 4],
        blob_len: 9,
        created_at_secs: 40,
        created_at_nanos: 50,
    })
}

fn names(list: &[&str]) -> Vec<String> {
    list.iter().map(|name| name.to_string()).collect()
}

fn probe(pass: &mut RecoveryPass, answer: Result<PeerRevision, Status>) -> Result<(), Status> {
    pass.probed(&answer, &open_window(None), &None, &Ok(()))
}

fn moment(secs: u64) -> Timestamp {
    Timestamp { secs, nanos: 0 }
}

#[test]
fn revisions_before_initialization_need_recovery() {
    assert!(timestamp_requires_recovery((999, 0), (1_000, 0), None));
    assert!(!timestamp_requires_recovery((1_000, 0), (1_000, 0), None));
    assert!(!timestamp_requires_recovery((5, 0), (1_000, 0), Some((5, 0))));
    assert!(timestamp_requires_recovery((5, 1), (1_000, 0), Some((5, 0))));
    assert!(key_less(rev_key(1, 9), rev_key(2, 1)));
    assert!(key_less(rev_key(1, 1), rev_key(1, 9)));
    assert!(!key_less(rev_key(1, 9), rev_key(1, 9)));
    assert_eq!(
        requester_revision_in_recovery_window(&revision(1, 1, 5), &open_window(None)).unwrap(),
        Some((5, 7))
    );
    assert_eq!(requester_revision_in_recovery_window(&revision(1, 1, 5), &None).unwrap(), None);
    let error = revision_key(&unreadable(1)).unwrap_err();
    assert_eq!(error.code, Code::Internal);
    assert_eq!(error.message, "unreadable");
}

#[test]
fn a_stored_revision_is_recovered_before_a_known_one() {
    let window = open_window(None);
    let both = told(Some(revision(1, 1, 5)), Some(revision(2, 2, 6)));
    let found = recoverable_requester_revision(&both, &window).unwrap().unwrap();
    assert_eq!(found.content.content_id, vec![1; 4]);
    assert_eq!(found.timestamp, (5, 7));
    assert_eq!(found.source, RecoverableRequesterRevisionSource::LatestStored);
    let known_only = told(Some(revision(1, 1, 5_000)), Some(revision(2, 2, 6)));
    let found = recoverable_requester_revision(&known_only, &window).unwrap().unwrap();
    assert_eq!(found.source, RecoverableRequesterRevisionSource::LatestKnown);
    let error =
        ensure_peer_revision_does_not_require_recovery("p.onion", &known_only, &window).unwrap_err();
    assert_eq!(
        error.message,
        "peer still knows an older requester revision from before this node was initialized; \
         recover it before publishing to p.onion (content_id=02020202, timestamp=6.000000007)"
    );
    assert!(ensure_peer_revision_does_not_require_recovery("p.onion", &both, &None).is_ok());
    assert!(recoverable_requester_revision(&told(Some(unreadable(1)), None), &window).is_err());
    assert!(recoverable_requester_revision(&told(Some(unreadable(1)), None), &None)
        .unwrap()
        .is_none());
}

#[test]
fn recover_content_merges_older_lineages_in_order() {
    let mut pass = RecoveryPass::run_recovery_pass(
        &names(&["a.onion", "own.onion", "b.onion", "c.onion"]),
        "own.onion",
    );
    match pass.action() {
        RecoveryAction::Probe(name) => assert_eq!(name, "a.onion"),
        _ => unreachable!(),
    }
    probe(&mut pass, Ok(told(Some(revision(2, 2, 20)), Some(revision(3, 3, 30))))).unwrap();
    match pass.action() {
        RecoveryAction::Probe(name) => assert_eq!(name, "b.onion"),
        _ => unreachable!(),
    }
    probe(&mut pass, Err(Status::with_text(Code::Unavailable, "gone"))).unwrap();
    probe(&mut pass, Ok(told(Some(revision(1, 1, 10)), Some(revision(2, 2, 20))))).unwrap();

    let first = match pass.action() {
        RecoveryAction::Apply(candidate) => candidate,
        _ => unreachable!(),
    };
    assert_eq!(first.content_id, vec![1; 4]);
    assert_eq!(first.peers, names(&["c.onion"]));
    let merged = RecoveryMergeOutcome { added_files: 2, renamed_files: 1, unchanged_files: 4 };
    pass.applied(&Ok((merged, 11)));
    let second = match pass.action() {
        RecoveryAction::Apply(candidate) => candidate,
        _ => unreachable!(),
    };
    assert_eq!(second.content_id, vec![2; 4]);
    assert_eq!(second.peers, names(&["a.onion"]));
    pass.applied(&Err(Status::with_text(Code::Internal, "bad")));
    assert!(matches!(pass.action(), RecoveryAction::Finish));

    let summary = pass.finish(Some("blocked".to_string()));
    assert_eq!(summary.total_versions_found, 3);
    assert_eq!(summary.peers_with_any_versions, 2);
    assert_eq!(summary.older_lineage_versions_found, 3);
    assert_eq!(summary.older_lineage_recoverable_versions_found, 2);
    assert_eq!(summary.applied_versions, 1);
    assert_eq!(summary.downloaded_bytes, 11);
    assert_eq!(summary.added_files, 2);
    assert_eq!(summary.renamed_files, 1);
    assert_eq!(summary.unchanged_files, 4);
    assert_eq!(summary.newest_found_content_id, vec![3; 4]);
    assert_eq!(summary.newest_found_ts, 30);
    assert_eq!(summary.newest_found_ts_ns, 7);
    assert_eq!(summary.latest_applied_content_id, vec![1; 4]);
    assert_eq!(summary.latest_applied_ts, 10);
    assert_eq!(summary.publication_blocked_reason, "blocked");
}

fn applied_ids(pass: &mut RecoveryPass) -> Vec<Vec<u8>> {
    let mut ids = Vec::new();
    while let RecoveryAction::Apply(candidate) = pass.action() {
        ids.push(candidate.content_id);
        let merged = RecoveryMergeOutcome { added_files: 1, renamed_files: 0, unchanged_files: 0 };
        pass.applied(&Ok((merged, 1)));
    }
    ids
}

#[test]
fn revisions_are_applied_in_timestamp_order() {
    let mut pass =
        RecoveryPass::run_recovery_pass(&names(&["a.onion", "b.onion"]), "own.onion");
    probe(&mut pass, Ok(told(Some(revision(8, 1, 200)), None))).unwrap();
    probe(&mut pass, Ok(told(Some(revision(9, 5, 100)), None))).unwrap();
    assert_eq!(applied_ids(&mut pass), vec![vec![9; 4], vec![8; 4]]);
    let summary = pass.finish(None);
    assert_eq!(summary.applied_versions, 2);
    assert_eq!(summary.latest_applied_content_id, vec![8; 4]);
    assert_eq!(summary.latest_applied_ts, 200);
    assert_eq!(summary.latest_applied_ts_ns, 7);
    assert_eq!(summary.newest_found_content_id, vec![9; 4]);
    assert_eq!(summary.newest_found_ts, 100);
    assert!(recovered_less(rev_key(5, 100), rev_key(1, 200)));
    assert!(!recovered_less(rev_key(1, 200), rev_key(5, 100)));
    assert!(recovered_less(rev_key(1, 200), rev_key(2, 200)));
    assert!(!recovered_less(rev_key(1, 200), rev_key(1, 200)));
}

#[test]
fn revisions_made_at_the_same_time_go_by_sequence_and_identifier() {
    let mut pass = RecoveryPass::run_recovery_pass(
        &names(&["a.onion", "b.onion", "c.onion"]),
        "own.onion",
    );
    probe(&mut pass, Ok(told(Some(revision(1, 4, 50)), None))).unwrap();
    probe(&mut pass, Ok(told(Some(revision(3, 2, 50)), None))).unwrap();
    probe(&mut pass, Ok(told(Some(revision(2, 2, 50)), None))).unwrap();
    assert_eq!(applied_ids(&mut pass), vec![vec![2; 4], vec![3; 4], vec![1; 4]]);
}

#[test]
fn a_repeated_pass_applies_nothing() {
    let peers = names(&["a.onion", "b.onion"]);
    let mut first = RecoveryPass::run_recovery_pass(&peers, "own.onion");
    probe(&mut first, Ok(told(Some(revision(8, 1, 200)), Some(revision(8, 1, 200))))).unwrap();
    probe(&mut first, Ok(told(Some(revision(9, 5, 100)), None))).unwrap();
    assert_eq!(applied_ids(&mut first).len(), 2);
    let found = first.finish(None);
    assert_eq!(found.older_lineage_versions_found, 2);

    let window = open_window(Some((found.latest_applied_ts, found.latest_applied_ts_ns)));
    let mut second = RecoveryPass::run_recovery_pass(&peers, "own.onion");
    let report = told(Some(revision(8, 1, 200)), Some(revision(8, 1, 200)));
    second.probed(&Ok(report), &window, &present(8), &Ok(())).unwrap();
    let report = told(Some(revision(9, 5, 100)), None);
    second.probed(&Ok(report), &window, &present(8), &Ok(())).unwrap();
    assert!(matches!(second.action(), RecoveryAction::Finish));
    let summary = second.finish(None);
    assert_eq!(summary.total_versions_found, found.total_versions_found);
    assert_eq!(summary.older_lineage_versions_found, 0);
    assert_eq!(summary.older_lineage_recoverable_versions_found, 0);
    assert_eq!(summary.applied_versions, 0);
    assert!(summary.latest_applied_content_id.is_empty());
}

#[test]
fn an_empty_pass_reports_nothing() {
    let pass = RecoveryPass::run_recovery_pass(&[], "own.onion");
    assert!(matches!(pass.action(), RecoveryAction::Finish));
    let summary = pass.finish(None);
    assert_eq!(summary.total_versions_found, 0);
    assert_eq!(summary.newest_found_content_id, Vec::<u8>::new());
    assert_eq!(summary.latest_applied_ts, 0);
    assert_eq!(summary.publication_blocked_reason, "");
}

#[test]
fn recover_content_skips_versions_at_or_below_the_recovery_watermark() {
    let mut scan = RecoveryScan::new();
    let window = open_window(Some((20, 7)));
    scan.observe_peer(
        "a.onion",
        &told(Some(revision(2, 2, 20)), Some(revision(2, 2, 20))),
        &window,
        &None,
        &Ok(()),
    )
    .unwrap();
    scan.observe_peer("b.onion", &told(Some(revision(3, 3, 21)), None), &window, &None, &Ok(()))
        .unwrap();
    let list = scan.candidates_to_apply();
    assert_eq!(list.len(), 1);
    assert_eq!(list[0].content_id, vec![3; 4]);
    let totals = scan.accumulator();
    assert_eq!(totals.total_versions_found, 2);
    assert_eq!(totals.older_lineage_versions_found, 1);
    assert_eq!(totals.peers_with_any_versions, 2);
}

#[test]
fn recover_content_restores_missing_current_blob_from_stored_peer_revision() {
    let missing = Err(StorageError::FileNotFound);
    let mut scan = RecoveryScan::new();
    let report = told(Some(revision(5, 5, 2_000)), None);
    scan.observe_peer("a.onion", &report, &open_window(None), &present(5), &missing).unwrap();
    scan.observe_peer("b.onion", &report, &open_window(None), &present(5), &missing).unwrap();
    scan.observe_peer("a.onion", &report, &open_window(None), &present(5), &missing).unwrap();
    let list = scan.candidates_to_apply();
    assert_eq!(list.len(), 1);
    assert_eq!(list[0].peers, names(&["a.onion", "b.onion"]));
    assert_eq!(
        apply_recovery_candidate(&list[0], &present(5), &missing).unwrap(),
        RecoveryApplication::RestoreCurrent
    );
    assert_eq!(
        apply_recovery_candidate(&list[0], &present(5), &Ok(())).unwrap(),
        RecoveryApplication::MergeLocal
    );
    assert_eq!(
        apply_recovery_candidate(&list[0], &present(6), &missing).unwrap(),
        RecoveryApplication::MergeDownloaded
    );
    assert!(current_content_needs_restore_from_peer(&[5; 4], &present(5), &missing).unwrap());
    assert!(!current_content_needs_restore_from_peer(&[5; 4], &present(5), &Ok(())).unwrap());
    assert!(!current_content_needs_restore_from_peer(&[5; 4], &None, &missing).unwrap());
    let broken = Err(StorageError::Other("io".to_string()));
    assert_eq!(
        current_content_needs_restore_from_peer(&[5; 4], &present(5), &broken)
            .unwrap_err()
            .message,
        "io"
    );
    assert!(apply_recovery_candidate(&list[0], &present(5), &broken).is_err());
}

#[test]
fn an_unreadable_stored_revision_ends_the_scan() {
    let mut scan = RecoveryScan::new();
    scan.observe_peer(
        "a.onion",
        &told(None, Some(unreadable(1))),
        &open_window(None),
        &None,
        &Ok(()),
    )
    .unwrap();
    assert_eq!(scan.accumulator().total_versions_found, 0);
    assert_eq!(scan.accumulator().peers_with_any_versions, 0);
    let error = scan
        .observe_peer(
            "a.onion",
            &told(Some(unreadable(1)), None),
            &open_window(None),
            &None,
            &Ok(()),
        )
        .unwrap_err();
    assert_eq!(error.message, "unreadable");
}

#[test]
fn recover_content_tries_next_peer_after_bad_download() {
    let candidate = RecoveryCandidate {
        key: rev_key(1, 2),
        content_id: vec![1; 4],
        content_length: 3,
        peers: names(&["a.onion", "b.onion"]),
    };
    let mut download = RecoveryDownload::download_recovery_candidate_blob(&candidate);
    match download.step() {
        RecoveryDownloadStep::TryPeer(name) => assert_eq!(name, "a.onion"),
        RecoveryDownloadStep::GiveUp(_) => unreachable!(),
    }
    download.fail(Status::with_text(Code::DataLoss, "first"));
    match download.step() {
        RecoveryDownloadStep::TryPeer(name) => assert_eq!(name, "b.onion"),
        RecoveryDownloadStep::GiveUp(_) => unreachable!(),
    }
    download.fail(Status::with_text(Code::DataLoss, "second"));
    match download.step() {
        RecoveryDownloadStep::GiveUp(status) => assert_eq!(status.message, "second"),
        RecoveryDownloadStep::TryPeer(_) => unreachable!(),
    }
    let orphan = RecoveryCandidate {
        key: rev_key(1, 2),
        content_id: vec![1; 4],
        content_length: 3,
        peers: vec![],
    };
    match RecoveryDownload::download_recovery_candidate_blob(&orphan).step() {
        RecoveryDownloadStep::GiveUp(status) => {
            assert_eq!(status.code, Code::NotFound);
            assert_eq!(
                status.message,
                "no peer could serve the requested recovery revision"
            );
        }
        RecoveryDownloadStep::TryPeer(_) => unreachable!(),
    }
    let recorded = recovered_revision(&candidate).unwrap();
    assert_eq!(recorded.content_id, vec![1; 4]);
    assert_eq!(recorded.created_at, Some(ProtoTimestamp { seconds: 2, nanos: 7 }));
}

#[test]
fn delayed_peer_metadata_flush_coalesces_multiple_updates() {
    let mut pending = PendingPeerMetadataFlush::new();
    assert_eq!(pending.run(moment(0)), FlushStep::WaitForSchedule);
    assert!(pending.schedule_flush(moment(60), true));
    assert!(!pending.schedule_flush(moment(70), true));
    assert_eq!(pending.run(moment(65)), FlushStep::WaitUntil(moment(70)));
    assert!(!pending.flush_due(moment(69)));
    assert_eq!(pending.run(moment(70)), FlushStep::Flush);
    assert!(pending.flush_due(moment(70)));
    assert!(!pending.flush_due(moment(71)));
    assert!(!pending.flush_now());
    assert_eq!(DEFAULT_LOW_VALUE_PEER_METADATA_FLUSH_DELAY, 60);
    assert_eq!(TIMER_LABEL_PEER_METADATA_FLUSH_DELAY.is_empty(), false);
}

#[test]
fn a_failed_flush_is_tried_again_and_shutdown_flushes_the_rest() {
    let mut pending = PendingPeerMetadataFlush::new();
    assert!(!pending.schedule_flush(moment(5), false));
    assert!(pending.flush_now());
    pending.flush_failed(moment(9));
    assert_eq!(pending.run(moment(6)), FlushStep::WaitUntil(moment(9)));
    assert!(pending.shutdown_and_flush());
    assert_eq!(pending.run(moment(99)), FlushStep::Exit);
    pending.flush_failed(moment(100));
    assert!(!pending.flush_now());
    assert!(!pending.shutdown_and_flush());
}

fn on_file(label: &str) -> Peer {
    let seed = Sha256::digest(label.as_bytes());
    let secret = ed25519_dalek::SecretKey::from_bytes(seed.as_slice()).unwrap();
    Peer {
        onion_pubkey: ed25519_dalek::PublicKey::from(&secret).to_bytes().to_vec(),
        score_seconds: 0,
        score_measured_at: 0,
        latest_known_content: None,
        latest_cached_content: None,
        origin: PeerOrigin::Discovered,
        first_contact_direction: FirstContactDirection::Unknown,
        reachability: PeerReachability::Unknown,
        last_live_at: 0,
        pinned_by_us: false,
        pins_us: false,
        our_content_last_verified_content_id: Vec::new(),
        our_content_last_verified_at: 0,
        first_seen_at: None,
        successful_calls: 0,
        failed_calls: 0,
        requester_latest_stored_content: None,
        requester_latest_known_content: None,
        requester_last_advertised_content: None,
        requester_last_advertised_at: None,
        requester_last_downloaded_advertised_content: None,
        requester_last_downloaded_advertised_at: None,
        requester_last_download_latency_seconds: 0,
    }
}

#[test]
fn local_state_sums_up_content_peers_and_recovery() {
    let ours = |byte: u8| Some(ContentInfo { content_id: vec![byte; 4], content_length: 9 });
    let mut fresh = on_file("fresh");
    fresh.requester_latest_stored_content = ours(5);
    fresh.reachability = PeerReachability::Online;
    fresh.score_seconds = 30;
    let mut stale = on_file("stale");
    stale.requester_latest_stored_content = ours(4);
    stale.requester_latest_known_content = ours(6);
    stale.latest_cached_content =
        Some(ContentInfo { content_id: vec![9; 4], content_length: 64 });
    stale.score_seconds = 10;
    let idle = on_file("idle");
    let peers = vec![fresh, stale, idle];
    let named: Vec<NamedPeer> = peers
        .iter()
        .enumerate()
        .map(|(index, peer)| NamedPeer {
            hostname: format!("peer-{index}.onion"),
            peer: peer.clone(),
        })
        .collect();
    let limits = Limits {
        content_id_len: 4,
        max_peer_content_bytes: 100,
        peer_grpc_message_limit_bytes: 200,
    };
    let mut node = Node::with_local_storage(
        "own.onion".to_string(),
        on_file("own").onion_pubkey,
        limits,
        moment(0),
        &named,
    );
    node.set_storage_config(Some(StorageConfig {
        allocated_storage_for_peers: 10,
        min_replicas: 2,
    }))
    .unwrap();
    let snapshot = LocalStoreSnapshot {
        current_content: present(5),
        tracked_peers: peers,
        file_count: 3,
        total_file_bytes: 77,
        node_initialized_at: Some((1_000, 1)),
        latest_recovered_revision: Some(RecoveredRevision {
            content_id: vec![2; 4],
            created_at: Some(ProtoTimestamp { seconds: 8, nanos: 0 }),
        }),
        recovery_watermark: None,
        recovery_mode_enabled: true,
    };
    let parsed = vec![ParsedContentId { content_id: vec![6; 4], key: Ok(rev_key(6, 60)) }];
    let summary = node
        .local_state_summary(
            Some(&snapshot),
            Some(&named),
            Some("blocked".to_string()),
            &parsed,
            moment(5),
        )
        .unwrap()
        .unwrap();
    assert_eq!(summary.content.file_count, 3);
    assert_eq!(summary.content.total_size_bytes, 77);
    assert_eq!(
        summary.content.last_updated_at,
        Some(ProtoTimestamp { seconds: 40, nanos: 50 })
    );
    assert!(summary.content.has_pending_update);
    assert_eq!(summary.peers.total_known, 3);
    assert_eq!(summary.peers.connected, 0);
    assert_eq!(summary.peers.storing_our_data, 2);
    assert_eq!(summary.peers.storing_latest_our_data, 1);
    assert_eq!(summary.peers.mutual_storage_peers, 2);
    assert_eq!(summary.peers.mean_mutual_storage_score_seconds, 20);
    assert_eq!(summary.peers.mirrored_peers, 1);
    assert_eq!(summary.peers.mirrored_total_size_bytes, 64);
    assert_eq!(summary.durability.predicted_fresh_replicas_now, 1);
    assert_eq!(summary.durability.predicted_min_replicas_target, 2);
    assert_eq!(summary.durability.predicted_replica_horizon.len(), 1);
    assert_eq!(
        summary.durability.predicted_replica_horizon[0].seconds_until_threshold,
        30
    );
    assert!(summary.recovery.recovery_mode_enabled);
    assert_eq!(
        summary.recovery.node_initialized_at,
        Some(ProtoTimestamp { seconds: 1_000, nanos: 1 })
    );
    assert_eq!(summary.recovery.recovery_watermark_at, None);
    assert_eq!(summary.recovery.publish_blocked_reason, "blocked");
    assert_eq!(summary.recovery.latest_recovered_content_id, vec![2; 4]);
    assert_eq!(summary.recovery.newer_known_content_id, vec![6; 4]);
    assert_eq!(
        summary.recovery.newer_known_at,
        Some(ProtoTimestamp { seconds: 60, nanos: 7 })
    );
    assert!(node
        .local_state_summary(None, None, None, &[], moment(5))
        .unwrap()
        .is_none());
    let mut odd = snapshot;
    odd.node_initialized_at = Some((1, -1));
    assert!(node.local_state_summary(Some(&odd), Some(&named), None, &parsed, moment(5)).is_err());
}

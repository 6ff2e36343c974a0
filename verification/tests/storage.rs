//! Accounting, admission and reporting of the storage exchanged with peers.

use barter_node::accounting::{
    aggregate_storage_accounting, mean_score_seconds, mirrored_total_size_bytes_from_tracked_peers,
    storage_class, MirroredBlobUsage, PeerBlobReference, PeerStorageProtectionClass,
    PeerStorageRuntimeEntry, PeerStorageRuntimeState, StorageClass,
};
use barter_node::content::{CurrentContent, Limits};
use barter_node::horizon::{replica_horizon_points, ReplicaHorizonPoint};
use barter_node::inventory::NamedPeer;
use barter_node::lineage::{ParsedRevision, PeerRevision, RevisionKey};
use barter_node::mirror::{
    maximum_peer_content_accepted_bytes, mirrored_blob_usage, plan_mirrored_blob_storage,
    StorageAdmission,
};
use barter_node::model::{
    ContentInfo, FirstContactDirection, Peer, PeerOrigin, PeerReachability, Timestamp,
};
use barter_node::node::{Node, StorageConfig};
use barter_node::records::{
    mirrored_peer_content_length, peer_has_storage, peer_is_tracked_only, peer_storage_protection,
    requester_content, BlobRead,
};
use barter_node::status::{Code, StorageError};
use barter_node::storage_report::{get_peer_storage_row, replica_horizon, PeerStorageInfo};
use barter_node::sync::{
    blob_removal_outcome, mirrored_blob_state, remove_unused_foreign_blob, sync_peer_content_info,
    MirroredBlobState, SyncPeerContentResult, SyncPlan, SyncUpdate,
};
use sha2::{Digest, Sha256};

const ID_LEN: usize = 4;

fn small_limits() -> Limits {
    Limits { content_id_len: ID_LEN, max_peer_content_bytes: 100, peer_grpc_message_limit_bytes: 200 }
}

fn key_for(label: &str) -> Vec<u8> {
    let seed = Sha256::digest(label.as_bytes());
    let secret = ed25519_dalek::SecretKey::from_bytes(seed.as_slice()).unwrap();
    ed25519_dalek::PublicKey::from(&secret).to_bytes().to_vec()
}

fn id(byte: u8) -> Vec<u8> {
    vec![byte; ID_LEN]
}

fn content(byte: u8, content_length: i64) -> ContentInfo {
    ContentInfo { content_id: id(byte), content_length }
}

fn peer_with(label: &str, score_seconds: i64, cached: Option<ContentInfo>) -> Peer {
    Peer {
        onion_pubkey: key_for(label),
        score_seconds,
        score_measured_at: 0,
        latest_known_content: cached.clone(),
        latest_cached_content: cached,
        origin: PeerOrigin::Discovered,
        first_contact_direction: FirstContactDirection::Unknown,
        reachability: PeerReachability::Unknown,
        last_live_at: 0,
        pinned_by_us: false,
        pins_us: false,
        our_content_last_verified_content_id: Vec::new(),
        our_content_last_verified_at: 0,
        first_seen_at: None,
        successful_calls: 0,
        failed_calls: 0,
        requester_latest_stored_content: None,
        requester_latest_known_content: None,
        requester_last_advertised_content: None,
        requester_last_advertised_at: None,
        requester_last_downloaded_advertised_content: None,
        requester_last_downloaded_advertised_at: None,
        requester_last_download_latency_seconds: 0,
    }
}

fn read(byte: u8, len: usize) -> BlobRead {
    BlobRead { content_id: id(byte), outcome: Ok(len) }
}

fn reference(label: &str, pinned_by_us: bool, score_seconds: i64, at: i64) -> PeerBlobReference {
    PeerBlobReference {
        peer_public_key: key_for(label),
        pinned_by_us,
        score_seconds,
        score_measured_at: at,
    }
}

fn blob(byte: u8, blob_len: i64, references: Vec<PeerBlobReference>) -> MirroredBlobUsage {
    MirroredBlobUsage { content_id: id(byte), blob_len, references }
}

fn evicted(admission: StorageAdmission) -> Option<Vec<Vec<u8>>> {
    match admission {
        StorageAdmission::Store { evict_content_ids } => Some(evict_content_ids),
        StorageAdmission::TrackOnly => None,
    }
}

fn updated(plan: SyncPlan) -> SyncUpdate {
    match plan {
        SyncPlan::Update(update) => update,
        SyncPlan::Unchanged(_) => unreachable!(),
    }
}

fn row(label: &str, online: bool, our_content_synced: bool, length: i64) -> PeerStorageInfo {
    PeerStorageInfo {
        onion_service_id: format!("{label}.onion"),
        peer_public_key: key_for(label),
        our_content_synced,
        our_remaining_seconds: 0,
        their_remaining_seconds: 0,
        their_content_length: length,
        online,
        their_latest_known_content_id: Vec::new(),
        their_latest_known_content_length: 0,
        their_latest_cached_content_id: Vec::new(),
        their_latest_cached_content_length: 0,
    }
}

fn current(byte: u8, blob_len: u64) -> Option<CurrentContent> {
    Some(CurrentContent {
        content_id: id(byte),
        blob_len,
        created_at_secs: 1,
        created_at_nanos: 2,
    })
}

#[test]
fn aggregate_storage_accounting_splits_deduplicated_bytes_by_class() {
    let pinned_key = vec![0x11; 32];
    let protected_key = vec![0x22; 32];
    let offline_key = vec![0x33; 32];
    let disposable_key = vec![0x44; 32];
    let usage = vec![
        MirroredBlobUsage {
            content_id: b"pinned".to_vec(),
            blob_len: 10,
            references: vec![PeerBlobReference {
                peer_public_key: pinned_key.clone(),
                pinned_by_us: true,
                score_seconds: -10,
                score_measured_at: 0,
            }],
        },
        MirroredBlobUsage {
            content_id: b"protected".to_vec(),
            blob_len: 20,
            references: vec![PeerBlobReference {
                peer_public_key: protected_key.clone(),
                pinned_by_us: false,
                score_seconds: 15,
                score_measured_at: 0,
            }],
        },
        MirroredBlobUsage {
            content_id: b"offline".to_vec(),
            blob_len: 30,
            references: vec![PeerBlobReference {
                peer_public_key: offline_key.clone(),
                pinned_by_us: false,
                score_seconds: 12,
                score_measured_at: 0,
            }],
        },
        MirroredBlobUsage {
            content_id: b"disposable".to_vec(),
            blob_len: 40,
            references: vec![PeerBlobReference {
                peer_public_key: disposable_key.clone(),
                pinned_by_us: false,
                score_seconds: 0,
                score_measured_at: 0,
            }],
        },
    ];
    let contract_states = vec![
        PeerStorageRuntimeEntry {
            peer_public_key: pinned_key,
            state: PeerStorageRuntimeState { online: true, our_content_synced: true },
        },
        PeerStorageRuntimeEntry {
            peer_public_key: protected_key,
            state: PeerStorageRuntimeState { online: true, our_content_synced: true },
        },
        PeerStorageRuntimeEntry {
            peer_public_key: offline_key,
            state: PeerStorageRuntimeState { online: false, our_content_synced: false },
        },
        PeerStorageRuntimeEntry {
            peer_public_key: disposable_key,
            state: PeerStorageRuntimeState { online: false, our_content_synced: false },
        },
    ];

    let accounting = aggregate_storage_accounting(&usage, &contract_states);
    assert_eq!(accounting.pinned_bytes, 10);
    assert_eq!(accounting.protected_bytes, 50);
    assert_eq!(accounting.disposable_bytes, 40);
    assert_eq!(accounting.offline_blocking_bytes, 30);
    assert_eq!(accounting.reclaimable_bytes, 40);
}

#[test]
fn replica_horizon_points_include_finite_and_never_thresholds() {
    let points = replica_horizon_points(&[Some(10), Some(25), None]);

    assert_eq!(
        points,
        vec![
            ReplicaHorizonPoint {
                remaining_fresh_replicas: 2,
                seconds_until_threshold: 10,
                never: false,
            },
            ReplicaHorizonPoint {
                remaining_fresh_replicas: 1,
                seconds_until_threshold: 25,
                never: false,
            },
            ReplicaHorizonPoint {
                remaining_fresh_replicas: 0,
                seconds_until_threshold: 0,
                never: true,
            },
        ]
    );
}

#[test]
fn replica_horizon_points_are_empty_without_replicas() {
    assert!(replica_horizon_points(&[]).is_empty());
}

#[test]
fn replica_horizon_points_with_only_pinned_replicas_are_never() {
    let points = replica_horizon_points(&[None, None]);

    assert_eq!(
        points,
        vec![
            ReplicaHorizonPoint {
                remaining_fresh_replicas: 1,
                seconds_until_threshold: 0,
                never: true,
            },
            ReplicaHorizonPoint {
                remaining_fresh_replicas: 0,
                seconds_until_threshold: 0,
                never: true,
            },
        ]
    );
}

#[test]
fn the_horizon_counts_down_through_sorted_expiries() {
    let points = replica_horizon_points(&[Some(30), Some(5), Some(30)]);
    let seconds: Vec<i64> = points.iter().map(|point| point.seconds_until_threshold).collect();
    let remaining: Vec<i64> =
        points.iter().map(|point| point.remaining_fresh_replicas).collect();
    assert_eq!(seconds, vec![5, 30, 30]);
    assert_eq!(remaining, vec![2, 1, 0]);
}

#[test]
fn positive_scores_and_pins_reserve_storage() {
    assert_eq!(storage_class(false, 1), StorageClass::Reserved);
    assert_eq!(storage_class(true, -1), StorageClass::Reserved);
    assert_eq!(storage_class(false, 0), StorageClass::BestEffort);
    assert_eq!(mean_score_seconds(&[]), 0);
    assert_eq!(mean_score_seconds(&[1, 2, 6]), 3);
    assert_eq!(mean_score_seconds(&[-7, 0]), -3);
    assert_eq!(mean_score_seconds(&[i64::MAX, i64::MAX]), i64::MAX);
}

#[test]
fn mirrored_bytes_count_each_revision_once() {
    let peers = vec![
        peer_with("a", 0, Some(content(1, 10))),
        peer_with("b", 0, Some(content(1, 10))),
        peer_with("c", 0, Some(content(2, 5))),
        peer_with("d", 0, None),
    ];
    assert_eq!(mirrored_total_size_bytes_from_tracked_peers(&peers), 15);
}

#[test]
fn protection_follows_pin_and_score() {
    let mut peer = peer_with("p", 3, Some(content(1, 10)));
    assert_eq!(peer_storage_protection(&peer), PeerStorageProtectionClass::Protected);
    peer.pinned_by_us = true;
    assert_eq!(peer_storage_protection(&peer), PeerStorageProtectionClass::Pinned);
    let disposable = peer_with("q", 0, Some(content(1, 10)));
    assert_eq!(peer_storage_protection(&disposable), PeerStorageProtectionClass::Disposable);
    let none = peer_with("r", 5, None);
    assert_eq!(peer_storage_protection(&none), PeerStorageProtectionClass::Nothing);
    assert!(peer_has_storage(&none));
    assert!(!peer_has_storage(&peer_with("t", 0, None)));
    assert!(peer_has_storage(&disposable));
    let mut on_file = peer_with("s", 0, None);
    on_file.latest_known_content = Some(content(4, 8));
    assert!(peer_is_tracked_only(&on_file));
    assert!(!peer_is_tracked_only(&none));
    assert!(!peer_is_tracked_only(&disposable));
}

#[test]
fn usage_groups_references_by_revision() {
    let peers = vec![
        peer_with("a", 1, Some(content(9, 10))),
        peer_with("b", 2, Some(content(2, 10))),
        peer_with("c", 3, Some(content(9, 10))),
        peer_with("d", 4, Some(content(5, 10))),
    ];
    let usage = mirrored_blob_usage(&peers, &[read(9, 40), read(2, 20)]).unwrap();
    assert_eq!(usage.len(), 2);
    assert_eq!(usage[0].content_id, id(2));
    assert_eq!(usage[0].blob_len, 20);
    assert_eq!(usage[1].content_id, id(9));
    assert_eq!(usage[1].blob_len, 40);
    assert_eq!(usage[1].references.len(), 2);
    assert_eq!(usage[1].references[0].peer_public_key, key_for("a"));
    assert_eq!(usage[1].references[1].score_seconds, 3);

    let damaged = vec![BlobRead {
        content_id: id(9),
        outcome: Err(StorageError::RecoveryRequired("bad".to_string())),
    }];
    assert!(mirrored_blob_usage(&peers, &damaged).unwrap().is_empty());
    let broken = vec![BlobRead {
        content_id: id(2),
        outcome: Err(StorageError::Other("io".to_string())),
    }];
    let error = mirrored_blob_usage(&peers, &broken).unwrap_err();
    assert_eq!(error.code, Code::Internal);
    assert_eq!(error.message, "io");
}

#[test]
fn accepted_bytes_leave_room_for_protected_blobs() {
    let usage = vec![
        blob(1, 30, vec![reference("a", false, 5, 0)]),
        blob(2, 20, vec![reference("b", false, 0, 0)]),
    ];
    assert_eq!(maximum_peer_content_accepted_bytes(&usage, 90, &small_limits()), 60);
    assert_eq!(maximum_peer_content_accepted_bytes(&usage, 10, &small_limits()), 0);
    assert_eq!(maximum_peer_content_accepted_bytes(&usage, 9_000, &small_limits()), 100);
}

#[test]
fn positive_score_peer_can_evict_best_effort_cache() {
    let usage = vec![
        blob(1, 60, vec![reference("old", false, 0, 5)]),
        blob(2, 60, vec![reference("older", false, -3, 9)]),
        blob(3, 40, vec![reference("kept", false, 8, 0)]),
    ];
    let plan = |pinned, score, budget| {
        plan_mirrored_blob_storage(
            &usage,
            &key_for("new"),
            pinned,
            score,
            None,
            &id(7),
            50,
            budget,
            &small_limits(),
        )
        .unwrap()
    };
    assert_eq!(evicted(plan(false, 1, 300)), Some(vec![]));
    assert_eq!(evicted(plan(false, 1, 200)), Some(vec![id(2)]));
    assert_eq!(evicted(plan(false, 1, 150)), Some(vec![id(2), id(1)]));
    assert_eq!(evicted(plan(true, -9, 150)), Some(vec![id(2), id(1)]));
    assert_eq!(evicted(plan(false, 1, 139)), None);
    assert_eq!(evicted(plan(false, 0, 139)), None);
}

#[test]
fn a_replaced_or_present_revision_makes_room() {
    let usage = vec![blob(1, 60, vec![reference("me", false, 5, 0)])];
    let stored = plan_mirrored_blob_storage(
        &usage,
        &key_for("me"),
        false,
        5,
        Some(&id(1)),
        &id(2),
        10,
        100,
        &small_limits(),
    )
    .unwrap();
    assert_eq!(evicted(stored), Some(vec![]));
    let present = plan_mirrored_blob_storage(
        &usage,
        &key_for("other"),
        false,
        0,
        None,
        &id(1),
        10,
        0,
        &small_limits(),
    )
    .unwrap();
    assert_eq!(evicted(present), Some(vec![]));
    let refused = |length| {
        plan_mirrored_blob_storage(
            &usage,
            &key_for("me"),
            false,
            5,
            None,
            &id(2),
            length,
            100,
            &small_limits(),
        )
        .unwrap_err()
    };
    assert_eq!(refused(0).code, Code::InvalidArgument);
    assert_eq!(refused(0).message, "peer content length must be positive");
    assert_eq!(refused(101).code, Code::ResourceExhausted);
    assert_eq!(refused(101).message, "peer content is too large");
}

#[test]
fn syncing_downloads_missing_and_damaged_blobs() {
    let peers = vec![peer_with("a", 5, Some(content(1, 10)))];
    let key = key_for("a");
    let sync = |lookup: Result<bool, StorageError>, budget: i64| {
        sync_peer_content_info(
            "a.onion",
            &peers,
            &key,
            &Some(content(2, 20)),
            &lookup,
            &[read(1, 10)],
            budget,
            &small_limits(),
        )
    };
    let update = updated(sync(Ok(false), 1_000).unwrap());
    assert!(update.download);
    assert_eq!(update.cached, Some(content(2, 20)));
    assert_eq!(update.known, content(2, 20));
    assert_eq!(update.released, Some(id(1)));
    assert_eq!(update.result, SyncPeerContentResult::MirroredBytesCached);

    let update =
        updated(sync(Err(StorageError::RecoveryRequired("bad".to_string())), 1_000).unwrap());
    assert!(update.download);

    let update = updated(sync(Ok(true), 1_000).unwrap());
    assert!(!update.download);
    assert_eq!(update.cached, Some(content(2, 20)));

    let error = sync(Err(StorageError::Other("io".to_string())), 1_000).unwrap_err();
    assert_eq!(error.message, "io");
}

#[test]
fn reserved_peer_keeps_previous_cached_revision_when_newest_wont_fit() {
    let peers = vec![peer_with("a", 5, Some(content(1, 10)))];
    let sync = |peers: &[Peer], budget: i64| {
        updated(
            sync_peer_content_info(
                "a.onion",
                peers,
                &key_for("a"),
                &Some(content(2, 20)),
                &Ok(false),
                &[read(1, 10)],
                budget,
                &small_limits(),
            )
            .unwrap(),
        )
    };
    let update = sync(&peers, 50);
    assert!(!update.download);
    assert_eq!(update.cached, Some(content(1, 10)));
    assert_eq!(update.known, content(2, 20));
    assert_eq!(update.released, None);
    assert_eq!(update.result, SyncPeerContentResult::SidecarOnly);

    let best_effort = vec![peer_with("a", 0, Some(content(1, 10)))];
    let update = sync(&best_effort, 50);
    assert_eq!(update.cached, None);
    assert_eq!(update.released, Some(id(1)));
    assert_eq!(update.result, SyncPeerContentResult::SidecarOnly);

    let mut pinned = peer_with("a", -5, Some(content(1, 10)));
    pinned.pinned_by_us = true;
    assert_eq!(sync(&[pinned], 50).cached, Some(content(1, 10)));
}

#[test]
fn syncing_refuses_untracked_peers_and_bad_descriptors() {
    let peers = vec![peer_with("a", 5, None)];
    let sync = |key: Vec<u8>, info: Option<ContentInfo>| {
        sync_peer_content_info(
            "a.onion",
            &peers,
            &key,
            &info,
            &Ok(false),
            &[],
            1_000,
            &small_limits(),
        )
    };
    let error = sync(key_for("b"), Some(content(1, 1))).unwrap_err();
    assert_eq!(error.code, Code::ResourceExhausted);
    assert_eq!(error.message, "peer capacity reached; refusing to mirror a.onion");
    let short = ContentInfo { content_id: vec![1], content_length: 5 };
    assert_eq!(sync(key_for("a"), Some(short)).unwrap_err().code, Code::InvalidArgument);
    match sync(key_for("a"), None).unwrap() {
        SyncPlan::Unchanged(result) => assert_eq!(result, SyncPeerContentResult::SidecarOnly),
        SyncPlan::Update(_) => unreachable!(),
    }
}

#[test]
fn foreign_blobs_go_once_nobody_refers_to_them() {
    let peers = vec![peer_with("a", 0, Some(content(1, 10)))];
    assert!(!remove_unused_foreign_blob(&id(1), &None, &peers));
    assert!(remove_unused_foreign_blob(&id(2), &None, &peers));
    assert!(!remove_unused_foreign_blob(&id(2), &Some(id(2)), &peers));
    assert!(blob_removal_outcome(Ok(())).is_ok());
    assert!(blob_removal_outcome(Err(StorageError::FileNotFound)).is_ok());
    let error = blob_removal_outcome(Err(StorageError::Other("io".to_string()))).unwrap_err();
    assert_eq!(error.code, Code::Internal);
    assert_eq!(mirrored_blob_state(&Ok(true)).unwrap(), MirroredBlobState::Present);
    assert_eq!(mirrored_blob_state(&Ok(false)).unwrap(), MirroredBlobState::Missing);
    assert_eq!(
        mirrored_blob_state(&Err(StorageError::RecoveryRequired("bad".to_string()))).unwrap(),
        MirroredBlobState::Corrupt
    );
    assert!(mirrored_blob_state(&Err(StorageError::Other("io".to_string()))).is_err());
}

#[test]
fn requesters_learn_only_of_blobs_that_exist() {
    let peers = vec![peer_with("a", 0, Some(content(1, 10)))];
    let key = key_for("a");
    assert_eq!(
        requester_content(&peers, &key, &[read(1, 12)]).unwrap(),
        Some(content(1, 12))
    );
    assert_eq!(requester_content(&peers, &key, &[]).unwrap(), None);
    assert_eq!(requester_content(&peers, &key_for("b"), &[read(1, 12)]).unwrap(), None);
    let damaged = vec![BlobRead {
        content_id: id(1),
        outcome: Err(StorageError::RecoveryRequired("bad".to_string())),
    }];
    assert_eq!(
        requester_content(&peers, &key, &damaged).unwrap_err().code,
        Code::FailedPrecondition
    );
    assert_eq!(mirrored_peer_content_length(&peers, &key, &[read(1, 12)]).unwrap(), 12);
    assert_eq!(mirrored_peer_content_length(&peers, &key, &[]).unwrap(), 0);
    let unclear = vec![BlobRead {
        content_id: id(1),
        outcome: Err(StorageError::Message("odd".to_string())),
    }];
    assert_eq!(mirrored_peer_content_length(&peers, &key, &unclear).unwrap(), 0);
    assert!(mirrored_peer_content_length(&peers, &key, &damaged).is_err());
}

#[test]
fn storage_rows_reflect_what_a_peer_answered() {
    let peers = vec![peer_with("a", 7, Some(content(1, 10)))];
    let answer = |byte: u8| {
        Some(PeerRevision {
            latest_stored: Some(ParsedRevision {
                content: content(byte, 30),
                key: Ok(RevisionKey {
                    sequence: 1,
                    created_at_secs: 1,
                    created_at_nanos: 1,
                    metadata_ciphertext_len: 1,
                }),
            }),
            latest_known: None,
            remaining_seconds: 44,
            requester_pinned: false,
        })
    };
    let build = |answer: Option<PeerRevision>, blob_len: u64| {
        get_peer_storage_row(
            "a.onion",
            &key_for("a"),
            &answer,
            &current(8, blob_len),
            &peers,
            &[read(1, 12)],
            &small_limits(),
        )
    };
    let synced = build(answer(8), 30).unwrap();
    assert!(synced.online);
    assert!(synced.our_content_synced);
    assert_eq!(synced.our_remaining_seconds, 44);
    assert_eq!(synced.their_remaining_seconds, 7);
    assert_eq!(synced.their_content_length, 12);
    assert_eq!(synced.their_latest_cached_content_id, id(1));
    assert_eq!(synced.their_latest_cached_content_length, 10);
    assert!(!build(answer(9), 30).unwrap().our_content_synced);
    let silent = build(None, 101).unwrap();
    assert!(!silent.online);
    assert!(!silent.our_content_synced);
    assert_eq!(silent.our_remaining_seconds, 0);
    assert_eq!(
        build(answer(8), 101).unwrap_err().message,
        "current content exceeds the peer transport limit"
    );
}

#[test]
fn storage_info_splits_obligations_by_reachability() {
    let mut node = Node::new("own.onion".to_string(), key_for("own"), small_limits(), Timestamp {
        secs: 0,
        nanos: 0,
    });
    node.set_storage_config(Some(StorageConfig {
        allocated_storage_for_peers: 120,
        min_replicas: 1,
    }))
    .unwrap();
    let mut verified = peer_with("a", 5, Some(content(1, 30)));
    verified.our_content_last_verified_content_id = id(8);
    let mut pinning = peer_with("b", 0, None);
    pinning.our_content_last_verified_content_id = id(8);
    pinning.pins_us = true;
    let mut tracked_only = peer_with("c", 0, None);
    tracked_only.latest_known_content = Some(content(5, 9));
    let named: Vec<NamedPeer> = vec![("a", verified), ("b", pinning), ("c", tracked_only)]
        .into_iter()
        .map(|(label, peer)| NamedPeer { hostname: format!("{label}.onion"), peer })
        .collect();
    let mut first = row("a", true, true, 30);
    first.our_remaining_seconds = 60;
    let second = row("b", true, true, 5);
    let mut third = row("c", false, false, 11);
    third.their_remaining_seconds = -1;
    let rows = vec![first, second, third];
    let usage = vec![blob(1, 30, vec![reference("a", false, 5, 0)])];
    let info = node.storage_info(&rows, &named, &usage, &current(8, 70)).unwrap();
    assert_eq!(info.online_peers_storage_obligations_bytes, 35);
    assert_eq!(info.offline_peers_storage_obligations_bytes, 11);
    assert_eq!(info.expired_offline_peers_storage_obligations_bytes, 11);
    assert_eq!(info.our_content_bytes, 70);
    assert_eq!(info.maximum_peer_content_accepted_bytes, 90);
    assert_eq!(info.protected_peers_storage_bytes, 30);
    assert_eq!(info.pinned_peers_storage_bytes, 0);
    assert_eq!(info.disposable_peers_storage_bytes, 0);
    assert_eq!(info.tracked_only_peers_count, 1);
    assert_eq!(info.offline_blocking_storage_bytes, 0);
    assert_eq!(
        info.replica_horizon,
        vec![
            ReplicaHorizonPoint {
                remaining_fresh_replicas: 1,
                seconds_until_threshold: 60,
                never: false,
            },
            ReplicaHorizonPoint {
                remaining_fresh_replicas: 0,
                seconds_until_threshold: 0,
                never: true,
            },
        ]
    );
    assert!(replica_horizon(&rows, &named, &None, &small_limits()).unwrap().is_empty());
    assert!(node.storage_info(&rows, &named, &usage, &current(8, 101)).is_err());
}

#[test]
fn a_survey_asks_every_other_known_peer_in_order() {
    let mut node = Node::new("own.onion".to_string(), key_for("own"), small_limits(), Timestamp {
        secs: 0,
        nanos: 0,
    });
    for name in ["b.onion", "own.onion", "a.onion", "broken"] {
        node.peer_admitted(name, None);
    }
    let peers = vec![peer_with("a", 7, None)];
    let mut survey = node.get_peer_storage_response();
    assert_eq!(survey.next_peer(), Some("a.onion"));
    survey.answered(&Some(key_for("a")), &None, &None, &peers, &[]).unwrap();
    assert_eq!(survey.next_peer(), Some("b.onion"));
    survey.answered(&Some(key_for("b")), &None, &None, &peers, &[]).unwrap();
    assert_eq!(survey.next_peer(), Some("broken"));
    survey.answered(&None, &None, &None, &peers, &[]).unwrap();
    assert_eq!(survey.next_peer(), None);
    let rows = survey.finish();
    assert_eq!(rows.len(), 2);
    assert_eq!(rows[0].onion_service_id, "a.onion");
    assert_eq!(rows[0].their_remaining_seconds, 7);
    assert_eq!(rows[1].onion_service_id, "b.onion");
}

//! Serving, fetching, sampling and verifying revisions.

use barter_node::content::{content_id_hex, validate_peer_content_info, CurrentContent, Limits};
use barter_node::inventory::NamedPeer;
use barter_node::lineage::{ParsedRevision, PeerRevision, RevisionKey};
use barter_node::model::{
    ContentInfo, FirstContactDirection, Peer, PeerOrigin, PeerReachability, Timestamp,
};
use barter_node::node::Node;
use barter_node::publish::PeerStorageOperationState;
use barter_node::records::BlobRead;
use barter_node::services::P2pService;
use barter_node::status::{Code, Status, StorageError};
use barter_node::sync::SyncPeerContentResult;
use barter_node::transfer::{
    accept_peer_blob, check_download_request, judge_sample, peer_blob_request, sample_section,
    section_at_digest, serve_download, DownloadRequest, DownloadResponse, DownloadSource, Section,
    SAMPLE_LEN,
};
use barter_node::verification::{
    verify_peer_storage_updates_with_policy, VerificationAction, VerificationAttempt,
};
use sha2::{Digest, Sha256};

const ID_BYTES: usize = 32;

fn peer_limits() -> Limits {
    Limits {
        content_id_len: ID_BYTES,
        max_peer_content_bytes: 4 * 1024 * 1024,
        peer_grpc_message_limit_bytes: 5 * 1024 * 1024,
    }
}

fn key_named(label: &str) -> Vec<u8> {
    let seed = Sha256::digest(label.as_bytes());
    let secret = ed25519_dalek::SecretKey::from_bytes(seed.as_slice()).unwrap();
    ed25519_dalek::PublicKey::from(&secret).to_bytes().to_vec()
}

fn plain_peer(label: &str) -> Peer {
    Peer {
        onion_pubkey: key_named(label),
        score_seconds: 0,
        score_measured_at: 0,
        latest_known_content: None,
        latest_cached_content: None,
        origin: PeerOrigin::Discovered,
        first_contact_direction: FirstContactDirection::Unknown,
        reachability: PeerReachability::Unknown,
        last_live_at: 0,
        pinned_by_us: false,
        pins_us: false,
        our_content_last_verified_content_id: Vec::new(),
        our_content_last_verified_at: 0,
        first_seen_at: None,
        successful_calls: 0,
        failed_calls: 0,
        requester_latest_stored_content: None,
        requester_latest_known_content: None,
        requester_last_advertised_content: None,
        requester_last_advertised_at: None,
        requester_last_downloaded_advertised_content: None,
        requester_last_downloaded_advertised_at: None,
        requester_last_download_latency_seconds: 0,
    }
}

fn ask(offset: i64, length: i64) -> DownloadRequest {
    DownloadRequest {
        content_id: vec![0x55; ID_BYTES],
        offset,
        length,
        reference_content_id: Vec::new(),
    }
}

fn answer(total_length: i64, sha256: Vec<u8>, section: Option<Section>) -> DownloadResponse {
    DownloadResponse { total_length, sha256, section }
}

fn digest(bytes: &[u8]) -> Vec<u8> {
    Sha256::digest(bytes).to_vec()
}

fn report(byte: Option<u8>, length: i64) -> PeerRevision {
    PeerRevision {
        latest_stored: byte.map(|byte| ParsedRevision {
            content: ContentInfo { content_id: vec![byte; ID_BYTES], content_length: length },
            key: Ok(RevisionKey {
                sequence: 1,
                created_at_secs: 1,
                created_at_nanos: 0,
                metadata_ciphertext_len: 0,
            }),
        }),
        latest_known: None,
        remaining_seconds: 0,
        requester_pinned: false,
    }
}

fn active(byte: u8, blob_len: u64) -> Option<CurrentContent> {
    Some(CurrentContent {
        content_id: vec![byte; ID_BYTES],
        blob_len,
        created_at_secs: 1,
        created_at_nanos: 0,
    })
}

fn some_node() -> Node {
    Node::with_local_storage(
        "own.onion".to_string(),
        key_named("own"),
        peer_limits(),
        Timestamp { secs: 0, nanos: 0 },
        &Vec::<NamedPeer>::new(),
    )
}

#[test]
fn sample_section_for_short_blob_uses_tail_from_offset() {
    let peer_public_key = key_named("sample-short-peer");
    let content_id = vec![0x55; ID_BYTES];
    let blob_len = 257usize;

    let (offset, section_len) = sample_section(&peer_public_key, &content_id, 10, blob_len);
    assert!(offset < blob_len);
    assert_eq!(section_len, blob_len - offset);
}

#[test]
fn sample_section_can_return_a_one_byte_tail() {
    let peer_public_key = key_named("sample-tail-peer");
    let content_id = vec![0x77; ID_BYTES];
    let blob_len = 32usize;

    for second in 0..1_024u64 {
        let (offset, section_len) =
            sample_section(&peer_public_key, &content_id, second, blob_len);
        if offset == blob_len - 1 {
            assert_eq!(section_len, 1);
            return;
        }
    }
    panic!("failed to find a one-byte tail sample offset");
}

#[test]
fn samples_follow_the_digest_of_key_content_and_time() {
    let key = vec![1u8; 32];
    let id = vec![2u8; ID_BYTES];
    let mut seed = key.clone();
    seed.extend_from_slice(&id);
    seed.extend_from_slice(&7u64.to_le_bytes());
    let hash = digest(&seed);
    let blob_len = 1_000_000usize;
    let number = u64::from_le_bytes(hash[..8].try_into().unwrap());
    let expected = (number % blob_len as u64) as usize;
    let (offset, length) = sample_section(&key, &id, 7, blob_len);
    assert_eq!(offset, expected);
    assert_eq!(length, SAMPLE_LEN.min(blob_len - expected));
    assert_eq!(section_at_digest(&hash, blob_len), (offset, length));
    assert_eq!(sample_section(&key, &id, 7, 0), (0, 0));
}

#[test]
fn download_requests_are_validated() {
    let limits = peer_limits();
    assert_eq!(check_download_request(&ask(3, 4), &limits).unwrap(), (3, 4));
    let mut short = ask(0, 1);
    short.content_id = vec![1];
    assert_eq!(check_download_request(&short, &limits).unwrap_err().code, Code::InvalidArgument);
    assert_eq!(
        check_download_request(&ask(-1, 1), &limits).unwrap_err().message,
        "offset must be non-negative"
    );
    assert_eq!(
        check_download_request(&ask(0, -1), &limits).unwrap_err().message,
        "length must be non-negative"
    );
    let mut referring = ask(0, 1);
    referring.reference_content_id = vec![1];
    assert_eq!(
        check_download_request(&referring, &limits).unwrap_err().message,
        "reference_content_id is not supported"
    );
}

#[test]
fn p2p_download_returns_exact_requested_range() {
    let blob: Vec<u8> = (0..=255u8).collect();
    let served = serve_download(&blob, 10, 5, &peer_limits()).unwrap();
    assert_eq!(served.total_length, 256);
    assert_eq!(served.sha256, digest(&blob));
    assert_eq!(served.section, Some(Section::RawBytes(vec![10, 11, 12, 13, 14])));
}

#[test]
fn p2p_download_returns_short_tail_near_eof() {
    let blob: Vec<u8> = (0..=255u8).collect();
    let served = serve_download(&blob, 254, 50, &peer_limits()).unwrap();
    assert_eq!(served.section, Some(Section::RawBytes(vec![254, 255])));
    let empty = serve_download(&blob, 256, 50, &peer_limits()).unwrap();
    assert_eq!(empty.section, Some(Section::RawBytes(vec![])));
    let past = serve_download(&blob, 257, 1, &peer_limits()).unwrap_err();
    assert_eq!(past.code, Code::OutOfRange);
    assert_eq!(past.message, "offset is past the end of the blob");
    let large = serve_download(&blob, 0, 4 * 1024 * 1024 + 1, &peer_limits()).unwrap_err();
    assert_eq!(large.code, Code::InvalidArgument);
    assert_eq!(large.message, "length is too large");
}

#[test]
fn download_peer_blob_rejects_malformed_responses() {
    let limits = peer_limits();
    let blob = b"peer-blob".to_vec();
    let good = digest(&blob);
    let raw = || Some(Section::RawBytes(blob.clone()));
    let cases = vec![
        (answer(-1, good.clone(), raw()), Code::Internal, "peer returned a negative content length"),
        (
            answer(4 * 1024 * 1024 + 1, good.clone(), raw()),
            Code::ResourceExhausted,
            "peer returned content larger than the transport limit",
        ),
        (
            answer(8, good.clone(), raw()),
            Code::DataLoss,
            "peer returned a different content length than advertised",
        ),
        (answer(9, vec![1; 31], raw()), Code::DataLoss, "peer returned an invalid content hash"),
        (
            answer(9, good.clone(), Some(Section::Reference)),
            Code::Unimplemented,
            "reference sections are not supported yet",
        ),
        (answer(9, good.clone(), None), Code::Internal, "peer returned no content section"),
        (
            answer(9, good.clone(), Some(Section::RawBytes(b"peer".to_vec()))),
            Code::Internal,
            "peer returned a short content blob",
        ),
        (answer(9, vec![0; 32], raw()), Code::DataLoss, "peer content hash mismatch"),
    ];
    for (response, code, message) in cases {
        let error = accept_peer_blob(response, 9, &limits).unwrap_err();
        assert_eq!(error.code, code);
        assert_eq!(error.message, message);
    }
    assert_eq!(accept_peer_blob(answer(9, good, raw()), 9, &limits).unwrap(), blob);
}

#[test]
fn an_honest_download_is_accepted() {
    let limits = peer_limits();
    let blob = vec![9u8; 1000];
    let request = peer_blob_request(&vec![0x55; ID_BYTES], 1000, &limits).unwrap();
    assert_eq!(request.offset, 0);
    assert_eq!(request.length, 1000);
    let range = check_download_request(&request, &limits).unwrap();
    let served = serve_download(&blob, range.0, range.1, &limits).unwrap();
    assert_eq!(accept_peer_blob(served, 1000, &limits).unwrap(), blob);
    assert_eq!(
        peer_blob_request(&vec![0x55; ID_BYTES], 0, &limits).unwrap_err().message,
        "expected content length must be positive"
    );
    assert_eq!(
        peer_blob_request(&vec![0x55; ID_BYTES], i64::MAX, &limits).unwrap_err().message,
        "expected content is too large"
    );
    assert!(peer_blob_request(&[1], 5, &limits).is_err());
}

#[test]
fn only_the_sampled_bytes_of_the_same_revision_pass() {
    let blob: Vec<u8> = (0..200u8).collect();
    let served = serve_download(&blob, 20, 30, &peer_limits()).unwrap();
    assert!(judge_sample(&blob, 20, 30, &served));
    assert!(!judge_sample(&blob, 21, 30, &served));
    let mut other = blob.clone();
    other[199] = 0;
    assert!(!judge_sample(&other, 20, 30, &served));
    let wrong_total = answer(199, digest(&blob), Some(Section::RawBytes(blob[20..50].to_vec())));
    assert!(!judge_sample(&blob, 20, 30, &wrong_total));
    let no_section = answer(200, digest(&blob), None);
    assert!(!judge_sample(&blob, 20, 30, &no_section));
}

#[test]
fn content_descriptors_are_validated() {
    let limits = peer_limits();
    let info = |len: usize, content_length: i64| ContentInfo {
        content_id: vec![0xab; len],
        content_length,
    };
    assert!(validate_peer_content_info(&info(ID_BYTES, 1), &limits).is_ok());
    assert_eq!(
        validate_peer_content_info(&info(ID_BYTES, 0), &limits).unwrap_err().message,
        "content length must be positive"
    );
    assert_eq!(
        validate_peer_content_info(&info(ID_BYTES, i64::MAX), &limits).unwrap_err().message,
        "content is too large"
    );
    assert_eq!(
        validate_peer_content_info(&info(3, 1), &limits).unwrap_err().code,
        Code::InvalidArgument
    );
    assert_eq!(content_id_hex(&[0xab, 0x01]), "ab01");
    assert_eq!(content_id_hex(&[]), "");
}

#[test]
fn download_hides_other_peers_content() {
    let node = some_node();
    let service = P2pService::new(&node);
    let mut holder = plain_peer("holder");
    holder.latest_cached_content =
        Some(ContentInfo { content_id: vec![0x55; ID_BYTES], content_length: 10 });
    let peers = vec![holder.clone(), plain_peer("other")];
    let reads = vec![BlobRead { content_id: vec![0x55; ID_BYTES], outcome: Ok(10) }];
    let plan = |requester: Option<Vec<u8>>, current: Option<Vec<u8>>| {
        service.download(&ask(1, 2), &requester, &current, Some(&peers), &reads)
    };
    let served = plan(Some(holder.onion_pubkey.clone()), None).unwrap();
    assert_eq!(served.source, DownloadSource::Mirrored);
    assert_eq!((served.offset, served.length), (1, 2));
    let hidden = plan(Some(key_named("other")), None).unwrap_err();
    assert_eq!(hidden.code, Code::NotFound);
    assert_eq!(hidden.message, "content not found");
    assert_eq!(plan(None, None).unwrap_err().code, Code::NotFound);
    let own = plan(None, Some(vec![0x55; ID_BYTES])).unwrap();
    assert_eq!(own.source, DownloadSource::Current);
    assert_eq!(
        service.download(&ask(-1, 2), &None, &None, Some(&peers), &reads).unwrap_err().message,
        "offset must be non-negative"
    );
    assert_eq!(
        service.download(&ask(1, 2), &None, &None, None, &reads).unwrap_err().message,
        "local store is not configured"
    );
    let damaged = vec![BlobRead {
        content_id: vec![0x55; ID_BYTES],
        outcome: Err(StorageError::RecoveryRequired("damaged".to_string())),
    }];
    let error = service
        .download(
            &ask(1, 2),
            &Some(holder.onion_pubkey),
            &Some(vec![0x55; ID_BYTES]),
            Some(&peers),
            &damaged,
        )
        .unwrap_err();
    assert_eq!(error.message, "damaged");
}

#[test]
fn get_content_revision_hides_other_peers_metadata() {
    let node = some_node();
    let service = P2pService::new(&node);
    let mut holder = plain_peer("holder");
    holder.latest_cached_content =
        Some(ContentInfo { content_id: vec![1; ID_BYTES], content_length: 10 });
    holder.latest_known_content =
        Some(ContentInfo { content_id: vec![2; ID_BYTES], content_length: 20 });
    holder.score_seconds = 33;
    holder.pinned_by_us = true;
    let peers = vec![holder.clone()];
    let reads = vec![BlobRead { content_id: vec![1; ID_BYTES], outcome: Ok(10) }];
    let told = service
        .get_content_revision(&Some(holder.onion_pubkey.clone()), Some(&peers), &reads)
        .unwrap();
    assert_eq!(told.requester_latest_stored_content, holder.latest_cached_content);
    assert_eq!(told.requester_latest_known_content, holder.latest_known_content);
    assert_eq!(told.requester_remaining_seconds, 33);
    assert!(told.requester_pinned);
    for stranger in vec![Some(key_named("other")), None] {
        let told = service.get_content_revision(&stranger, Some(&peers), &reads).unwrap();
        assert_eq!(told.requester_latest_stored_content, None);
        assert_eq!(told.requester_latest_known_content, None);
        assert_eq!(told.requester_remaining_seconds, 0);
        assert!(!told.requester_pinned);
    }
    assert!(service.get_content_revision(&None, None, &reads).is_ok());
    assert_eq!(
        service.get_content_revision(&Some(vec![1; 32]), None, &reads).unwrap_err().message,
        "local store is not configured"
    );
}

#[test]
fn set_content_revision_checks_the_offer() {
    let node = some_node();
    let service = P2pService::new(&node);
    let info = |byte: u8| ContentInfo { content_id: vec![byte; ID_BYTES], content_length: 10 };
    let mut peer = plain_peer("peer");
    peer.latest_known_content = Some(info(1));
    let peers = vec![peer.clone()];
    let offer = |previous: Option<ContentInfo>, offered: Option<ContentInfo>| {
        service.set_content_revision(&previous, offered, &peer.onion_pubkey, Some(&peers))
    };
    assert_eq!(offer(Some(info(1)), Some(info(2))).unwrap(), info(2));
    let missing = offer(Some(info(1)), None).unwrap_err();
    assert_eq!(missing.status.message, "requester_content must be set");
    assert!(!missing.previous_mismatch);
    for previous in vec![None, Some(info(3))] {
        let mismatch = offer(previous, Some(info(2))).unwrap_err();
        assert_eq!(mismatch.status.code, Code::FailedPrecondition);
        assert_eq!(
            mismatch.status.message,
            "previous_requester_content did not match the responder's latest known requester revision"
        );
        assert!(mismatch.previous_mismatch);
    }
    let bad = ContentInfo { content_id: vec![1], content_length: 10 };
    assert_eq!(
        offer(Some(bad.clone()), Some(info(2))).unwrap_err().status.code,
        Code::InvalidArgument
    );
    assert_eq!(offer(None, Some(bad)).unwrap_err().status.code, Code::InvalidArgument);
    let storeless = service
        .set_content_revision(&None, Some(info(2)), &peer.onion_pubkey, None)
        .unwrap_err();
    assert_eq!(storeless.status.message, "local store is not configured");
    assert_ne!(
        service.storage_result(SyncPeerContentResult::SidecarOnly),
        service.storage_result(SyncPeerContentResult::MirroredBytesCached)
    );
}

#[test]
fn services_turn_the_local_node_away() {
    let node = some_node();
    let service = P2pService::new(&node);
    let error = service.reject_self(&Some(key_named("own"))).unwrap_err();
    assert_eq!(error.message, "local node cannot act as its own peer");
    assert!(service.reject_self(&Some(key_named("peer"))).is_ok());
    assert!(service.reject_self(&None).is_ok());
    let health = service.health_check("peer.onion".to_string());
    assert_eq!(health.client_onion, "peer.onion");
    assert_eq!(health.server_onion, "own.onion");
    assert_eq!(
        service.peer_exchange(&[key_named("own"), key_named("peer"), vec![1]]),
        vec![key_named("peer")]
    );
}

fn begin(on_file: bool) -> VerificationAttempt {
    let peer = plain_peer("verified");
    let peers = if on_file { vec![peer.clone()] } else { vec![] };
    some_node()
        .verify_peer_storage_updates("verified.onion", &Some(peer.onion_pubkey), Some(&peers))
        .unwrap()
}

fn to_inspection(on_file: bool, revision: PeerRevision) -> VerificationAttempt {
    let mut attempt = begin(on_file);
    match attempt.action() {
        VerificationAction::Connect { track_peer } => assert_eq!(track_peer, on_file),
        _ => unreachable!(),
    }
    attempt.connected();
    assert!(matches!(attempt.action(), VerificationAction::FetchRevision));
    attempt.revision_received(revision);
    if on_file {
        assert!(matches!(attempt.action(), VerificationAction::RecordReport));
        attempt.report_recorded();
    }
    assert!(matches!(attempt.action(), VerificationAction::InspectContent));
    attempt
}

fn finish_tracked(mut attempt: VerificationAttempt) -> VerificationAttempt {
    attempt.outcome_recorded();
    assert!(matches!(attempt.action(), VerificationAction::ExchangePeers));
    attempt.peers_exchanged();
    assert!(matches!(attempt.action(), VerificationAction::Finish));
    attempt
}

#[test]
fn verifying_without_local_content_passes() {
    let mut attempt = to_inspection(true, report(None, 0));
    attempt.content_inspected(&None, &peer_limits()).unwrap();
    match attempt.action() {
        VerificationAction::RecordOutcome(effects) => {
            assert!(effects.passed);
            assert_eq!(effects.verified_content_id, None);
        }
        _ => unreachable!(),
    }
    let updates = finish_tracked(attempt).updates();
    assert_eq!(updates.len(), 3);
    assert_eq!(updates[0].state, PeerStorageOperationState::ConnectingToPeer);
    assert_eq!(updates[1].state, PeerStorageOperationState::VerifyingContent);
    assert_eq!(updates[2].state, PeerStorageOperationState::Completed);
    assert!(updates[2].success);
}

#[test]
fn check_contract_penalizes_missing_our_content() {
    let mut attempt = to_inspection(true, report(Some(2), 10));
    attempt.content_inspected(&active(1, 55), &peer_limits()).unwrap();
    match attempt.action() {
        VerificationAction::RecordOutcome(effects) => assert!(!effects.passed),
        _ => unreachable!(),
    }
    let updates = finish_tracked(attempt).updates();
    assert_eq!(updates[2].state, PeerStorageOperationState::PeerMissingOurContent);
    assert_eq!(updates[2].our_content_length, 55);
    assert!(!updates[2].success);
}

#[test]
fn verifying_samples_the_peers_copy() {
    let blob: Vec<u8> = (0..100u8).collect();
    let run = |tamper: bool| {
        let mut attempt = to_inspection(true, report(Some(1), 100));
        attempt.content_inspected(&active(1, 100), &peer_limits()).unwrap();
        assert!(matches!(attempt.action(), VerificationAction::ReadBlob));
        attempt.blob_read(blob.clone(), 77);
        let request = match attempt.action() {
            VerificationAction::Download(request) => request,
            _ => unreachable!(),
        };
        let range = sample_section(&key_named("verified"), &[1; ID_BYTES], 77, 100);
        assert_eq!((request.offset as usize, request.length as usize), range);
        let mut held = blob.clone();
        if tamper {
            held.push(1);
        }
        let served = serve_download(&held, range.0, range.1, &peer_limits()).unwrap();
        attempt.section_received(&served);
        let effects = match attempt.action() {
            VerificationAction::RecordOutcome(effects) => effects,
            _ => unreachable!(),
        };
        let last = finish_tracked(attempt).updates().pop().unwrap();
        assert_eq!(last.our_content_section_offset as usize, range.0);
        assert_eq!(last.our_content_section_length as usize, range.1);
        assert_eq!(last.our_content_length, 100);
        (effects, last)
    };
    let (effects, last) = run(false);
    assert!(effects.passed);
    assert_eq!(effects.verified_content_id, Some(vec![1; ID_BYTES]));
    assert_eq!(last.state, PeerStorageOperationState::Completed);
    let (effects, last) = run(true);
    assert!(!effects.passed);
    assert_eq!(effects.verified_content_id, None);
    assert_eq!(last.state, PeerStorageOperationState::InvalidContentReturned);
}

#[test]
fn verifying_an_untracked_peer_records_nothing() {
    let mut attempt = to_inspection(false, report(None, 0));
    attempt.content_inspected(&active(1, 5), &peer_limits()).unwrap();
    assert!(matches!(attempt.action(), VerificationAction::Finish));
    assert_eq!(
        attempt.updates()[2].state,
        PeerStorageOperationState::PeerMissingOurContent
    );
    let mut oversized = to_inspection(false, report(None, 0));
    let error = oversized
        .content_inspected(&active(1, 4 * 1024 * 1024 + 1), &peer_limits())
        .unwrap_err();
    assert_eq!(error.message, "current content exceeds the peer transport limit");
}

#[test]
fn check_contract_penalizes_retry_exhausted_transport_failures() {
    let gone = || Status::with_text(Code::Unavailable, "gone");
    let ours = Ok(Some(ContentInfo { content_id: vec![1], content_length: 8 }));
    let concluded = verify_peer_storage_updates_with_policy(gone(), true, true, &ours).unwrap();
    assert_eq!(concluded.updates.len(), 2);
    assert_eq!(concluded.updates[1].state, PeerStorageOperationState::PeerUnavailable);
    assert_eq!(concluded.updates[1].our_content_length, 8);
    assert!(!concluded.effects.unwrap().passed);
    let untracked = verify_peer_storage_updates_with_policy(gone(), true, false, &ours).unwrap();
    assert!(untracked.effects.is_none());
    let terminal = verify_peer_storage_updates_with_policy(gone(), false, true, &ours).unwrap_err();
    assert_eq!(terminal.message, "gone");
    let broken = Err(Status::with_text(Code::Internal, "broken"));
    assert_eq!(
        verify_peer_storage_updates_with_policy(gone(), true, true, &broken).unwrap_err().message,
        "broken"
    );
}

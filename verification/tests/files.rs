//! Files, timestamps, texts and the local RPC surface.

use barter_node::arith::{i64_from_u64, saturating_add_i64, saturating_sub_i64};
use barter_node::collections::{TextMap, TextSet};
use barter_node::content::Limits;
use barter_node::files::{
    collect_set_file_upload, get_file_chunks, rpc_file_info, FileChunk, FileInfo, PlainFile,
    StoredFileInfo, LOCAL_CLI_FILE_CHUNK_BYTES,
};
use barter_node::model::{Duration, ProtoTimestamp, Timestamp};
use barter_node::node::Node;
use barter_node::services::{CliService, SetFileRequest};
use barter_node::status::{Code, StorageError};
use barter_node::text::{
    decimal, join_text, padded_decimal, signed_decimal, text_contains, text_eq, text_less,
};
use barter_node::timestamps::{
    duration_to_millis_i64, now_secs, optional_timestamp_parts, proto_timestamp_from_file_parts,
    proto_timestamp_from_parts, timestamp_less, timestamp_parts,
};

fn local_node() -> Node {
    Node::new(
        "own.onion".to_string(),
        vec![1; 32],
        Limits {
            content_id_len: 4,
            max_peer_content_bytes: 100,
            peer_grpc_message_limit_bytes: 200,
        },
        Timestamp { secs: 0, nanos: 0 },
    )
}

fn plain(data: Vec<u8>) -> PlainFile {
    PlainFile {
        name: "alpha.txt".to_string(),
        data,
        modified_at_secs: 12,
        modified_at_nanos: 34,
    }
}

fn announced(name: &str, size_bytes: i64, modified_at: Option<ProtoTimestamp>) -> FileChunk {
    FileChunk::File(FileInfo { name: name.to_string(), size_bytes, modified_at })
}

fn stamp(seconds: i64, nanos: i32) -> Option<ProtoTimestamp> {
    Some(ProtoTimestamp { seconds, nanos })
}

#[test]
fn a_file_survives_the_stream() {
    for len in [0, 5, LOCAL_CLI_FILE_CHUNK_BYTES, LOCAL_CLI_FILE_CHUNK_BYTES + 1] {
        let data: Vec<u8> = (0..len).map(|at| (at % 251) as u8).collect();
        let chunks = get_file_chunks(plain(data.clone()));
        assert_eq!(chunks.len(), 1 + len.div_ceil(LOCAL_CLI_FILE_CHUNK_BYTES));
        let received = collect_set_file_upload(chunks).unwrap();
        assert_eq!(received, plain(data));
    }
}

#[test]
fn malformed_uploads_are_refused() {
    let message = |chunks: Vec<FileChunk>| {
        let error = collect_set_file_upload(chunks).unwrap_err();
        assert_eq!(error.code, Code::InvalidArgument);
        error.message
    };
    let data = || FileChunk::Data(vec![1, 2]);
    assert_eq!(message(vec![]), "file upload stream is empty");
    assert_eq!(message(vec![data()]), "file metadata must be the first upload chunk");
    assert_eq!(message(vec![FileChunk::Nothing]), "file upload chunk is empty");
    assert_eq!(message(vec![announced("", 2, stamp(1, 0))]), "file name is required");
    assert_eq!(
        message(vec![announced("a", -1, stamp(1, 0))]),
        "file size must be non-negative"
    );
    assert_eq!(message(vec![announced("a", 2, None)]), "file modified_at is required");
    let start = || announced("a", 2, stamp(1, 0));
    assert_eq!(
        message(vec![start(), start()]),
        "file metadata must appear only once per upload"
    );
    assert_eq!(message(vec![start(), FileChunk::Nothing]), "file upload chunk is empty");
    assert_eq!(
        message(vec![start(), data(), data()]),
        "file size does not match streamed payload"
    );
    assert_eq!(collect_set_file_upload(vec![start(), data()]).unwrap().data, vec![1, 2]);
}

#[test]
fn local_file_edits_are_checked() {
    let node = local_node();
    let service = CliService::new(&node);
    let file = |name: &str, modified_at| {
        Some(SetFileRequest { name: name.to_string(), data: vec![7], modified_at })
    };
    let stored = service.set_file(Some(false), file("a", stamp(3, 4))).unwrap();
    assert_eq!(stored.name, "a");
    assert_eq!(stored.data, vec![7]);
    assert_eq!((stored.modified_at_secs, stored.modified_at_nanos), (3, 4));
    let dated = service.set_file(Some(false), file("a", None)).unwrap();
    assert_eq!((dated.modified_at_secs, dated.modified_at_nanos), (0, 0));
    let message = |recovering, file| service.set_file(recovering, file).unwrap_err().message;
    assert_eq!(message(None, file("a", None)), "local store is not configured");
    assert_eq!(
        message(Some(true), file("a", None)),
        "local file edits are blocked while recovery mode is enabled"
    );
    assert_eq!(message(Some(false), None), "file is required");
    assert_eq!(message(Some(false), file("", None)), "file name is required");
    assert_eq!(
        message(Some(false), file("a", stamp(-1, 0))),
        "file modified_at must not be negative"
    );
    assert!(service.delete_file(Some(false), "a").is_ok());
    assert_eq!(
        service.delete_file(Some(false), "").unwrap_err().message,
        "file name is required"
    );
    assert!(service.delete_file(Some(true), "a").is_err());
    assert!(service
        .set_file_stream(Some(false), get_file_chunks(plain(vec![1])))
        .is_ok());
    assert!(service.set_file_stream(None, vec![]).is_err());
}

#[test]
fn files_are_read_and_listed() {
    let node = local_node();
    let service = CliService::new(&node);
    assert_eq!(service.get_file_stream("a", Some(Ok(plain(vec![1, 2])))).unwrap().len(), 2);
    assert_eq!(service.get_file_stream("", None).unwrap_err().message, "file name is required");
    assert_eq!(
        service.get_file_stream("a", None).unwrap_err().message,
        "local store is not configured"
    );
    assert_eq!(
        service.get_file_stream("a", Some(Err(StorageError::FileNotFound))).unwrap_err().code,
        Code::NotFound
    );
    let info = |name: &str| StoredFileInfo {
        name: name.to_string(),
        size_bytes: 5,
        modified_at_secs: 6,
        modified_at_nanos: 7,
    };
    let listed = service.list_files(vec![info("a"), info("b")]);
    assert_eq!(listed.len(), 2);
    assert_eq!(listed[1].name, "b");
    assert_eq!(listed[0], rpc_file_info(info("a")));
    assert_eq!(listed[0].modified_at, stamp(6, 7));
}

#[test]
fn local_requests_name_a_peer_and_a_password() {
    let mut node = local_node();
    node.mark_started(Timestamp { secs: 0, nanos: 0 });
    let service = CliService::new(&node);
    assert_eq!(service.requested_peer(Some("p".to_string())).unwrap(), "p");
    assert_eq!(service.requested_peer(None).unwrap_err().message, "peer is required");
    assert_eq!(
        service.requested_peer(Some(String::new())).unwrap_err().message,
        "peer onion is required"
    );
    assert!(service.unlock("secret").is_ok());
    assert_eq!(service.unlock("").unwrap_err().message, "main password is required");
    assert_eq!(service.init("").unwrap_err().message, "main password is required");
    assert_eq!(
        service.init("secret").unwrap_err().message,
        "initialization is only supported by the daemon"
    );
    assert_eq!(service.stop().message, "graceful stop is only supported by the daemon");
    assert_eq!(service.test_clock().code, Code::Unimplemented);
    let state = service.state(None, Timestamp { secs: 10, nanos: 0 });
    assert!(state.storage_initialized);
    assert_eq!(state.server_onion, "own.onion");
    assert_eq!(state.uptime_seconds, 10);
    assert!(state.local_summary.is_none());
}

#[test]
fn timestamps_round_trip() {
    assert_eq!(proto_timestamp_from_parts(5, 999_999_999).unwrap(), stamp(5, 999_999_999).unwrap());
    assert!(proto_timestamp_from_parts(5, 1_000_000_000).is_err());
    assert!(proto_timestamp_from_parts(5, -1).is_err());
    let encoded = proto_timestamp_from_file_parts(7, 8);
    assert_eq!(timestamp_parts(Some(encoded)).unwrap(), (7, 8));
    assert_eq!(
        timestamp_parts(stamp(1, 1_000_000_000)).unwrap_err().message,
        "file modified_at nanos must be below one second"
    );
    assert_eq!(proto_timestamp_from_file_parts(u64::MAX, 1).seconds, i64::MAX);
    assert_eq!(optional_timestamp_parts(stamp(-3, 4)), Some((-3, 4)));
    assert_eq!(optional_timestamp_parts(None), None);
    assert_eq!(duration_to_millis_i64(Duration { secs: 2, nanos: 3_999_999 }), 2_003);
    assert_eq!(now_secs(Timestamp { secs: u64::MAX, nanos: 0 }), i64::MAX);
    let early = Timestamp { secs: 1, nanos: 2 };
    let late = Timestamp { secs: 1, nanos: 3 };
    assert!(timestamp_less(early, late));
    assert!(!timestamp_less(late, early));
}

#[test]
fn texts_and_numbers_are_written_out() {
    assert_eq!(decimal(0), "0");
    assert_eq!(decimal(u64::MAX), "18446744073709551615");
    assert_eq!(signed_decimal(-42), "-42");
    assert_eq!(signed_decimal(i64::MIN), "-9223372036854775808");
    assert_eq!(padded_decimal(7, 9), "000000007");
    assert_eq!(join_text("a", "b"), "ab");
    assert!(text_contains("over budget", "bud"));
    assert!(!text_contains("over", "overs"));
    assert!(text_contains("", ""));
    assert!(text_less("a", "b"));
    assert!(text_less("a", "aa"));
    assert!(!text_less("b", "a"));
    assert!(text_less("z", "\u{e9}"));
    assert!(text_eq("\u{e9}", "\u{e9}"));
    assert_eq!(saturating_add_i64(i64::MAX, 1), i64::MAX);
    assert_eq!(saturating_sub_i64(i64::MIN, 1), i64::MIN);
    assert_eq!(i64_from_u64(u64::MAX), i64::MAX);
}

#[test]
fn text_collections_stay_in_order() {
    let mut set = TextSet::new();
    for item in ["m", "a", "z", "a"] {
        set.insert(item.to_string());
    }
    assert_eq!(set.len(), 3);
    assert_eq!(set.to_vec(), vec!["a".to_string(), "m".to_string(), "z".to_string()]);
    set.remove("m");
    set.remove("missing");
    assert!(!set.contains("m"));
    let mut map: TextMap<i64> = TextMap::new();
    map.insert("b".to_string(), 1);
    map.insert("a".to_string(), 2);
    map.insert("b".to_string(), 3);
    assert_eq!(map.len(), 2);
    assert_eq!(map.get("b"), Some(&3));
    assert_eq!(map.key_at(0), "a");
    assert_eq!(*map.value_at(0), 2);
    map.remove("a");
    assert_eq!(map.get("a"), None);
}

//! The oplog entry frame and the payload codecs.

use worker_executor::codec::{
    decode_bool, decode_entry, decode_option_bytes, decode_u64, encode_bool, encode_entry,
    encode_option_bytes, encode_u64,
};
use worker_executor::model::WrappedFunctionType;
use worker_executor::oplog::OplogEntry;
use worker_executor::model::{
    AccountId, TemplateId, VersionedWorkerId, WorkerId, WorkerMetadata, WorkerStatus,
};
use worker_executor::persist::{decode_metadata, encode_metadata};

#[test]
fn entry_round_trip_is_identity() {
    let entry = OplogEntry {
        index: 42,
        function_name: "golem keyvalue::eventual::get".to_string(),
        kind: WrappedFunctionType::ReadRemote,
        payload: vec![1, 0, 255, 3],
    };
    let bytes = encode_entry(&entry);
    let decoded = decode_entry(&bytes).expect("a frame must decode");
    assert_eq!(decoded.index, 42);
    assert_eq!(decoded.function_name, "golem keyvalue::eventual::get");
    assert_eq!(decoded.kind, WrappedFunctionType::ReadRemote);
    assert_eq!(decoded.payload, vec![1, 0, 255, 3]);
}

#[test]
fn entry_round_trip_keeps_unicode_names() {
    let entry = OplogEntry {
        index: 1,
        function_name: "wall_clock::now \u{2192} caf\u{e9}".to_string(),
        kind: WrappedFunctionType::WriteLocal,
        payload: vec![],
    };
    let bytes = encode_entry(&entry);
    let decoded = decode_entry(&bytes).expect("a frame must decode");
    assert_eq!(decoded.function_name, "wall_clock::now \u{2192} caf\u{e9}");
    assert_eq!(decoded.payload, Vec::<u8>::new());
}

#[test]
fn entry_frame_layout_is_exact() {
    let entry = OplogEntry {
        index: 1,
        function_name: "ab".to_string(),
        kind: WrappedFunctionType::WriteRemote,
        payload: vec![7],
    };
    let bytes = encode_entry(&entry);
    let mut expected = vec![1, 0, 0, 0, 0, 0, 0, 0];  // index, little endian
    expected.push(3);  // WriteRemote tag
    expected.extend_from_slice(&[2, 0, 0, 0, 0, 0, 0, 0]);  // name length
    expected.extend_from_slice(b"ab");
    expected.extend_from_slice(&[1, 0, 0, 0, 0, 0, 0, 0]);  // payload length
    expected.push(7);
    assert_eq!(bytes, expected);
}

#[test]
fn truncated_frame_is_rejected() {
    let entry = OplogEntry {
        index: 9,
        function_name: "f".to_string(),
        kind: WrappedFunctionType::ReadLocal,
        payload: vec![1, 2],
    };
    let mut bytes = encode_entry(&entry);
    bytes.pop();
    assert!(decode_entry(&bytes).is_none());
}

#[test]
fn bad_kind_tag_is_rejected() {
    let entry = OplogEntry {
        index: 9,
        function_name: "f".to_string(),
        kind: WrappedFunctionType::ReadLocal,
        payload: vec![],
    };
    let mut bytes = encode_entry(&entry);
    bytes[8] = 77;
    assert!(decode_entry(&bytes).is_none());
}

#[test]
fn option_bytes_round_trip() {
    let some = encode_option_bytes(&Some(vec![5, 6]));
    assert_eq!(decode_option_bytes(&some), Some(Some(vec![5, 6])));
    let none = encode_option_bytes(&None);
    assert_eq!(decode_option_bytes(&none), Some(None));
    assert_eq!(decode_option_bytes(&Vec::new()), None);
    assert_eq!(decode_option_bytes(&vec![2, 2]), None);
}

#[test]
fn bool_round_trip() {
    assert_eq!(decode_bool(&encode_bool(true)), Some(true));
    assert_eq!(decode_bool(&encode_bool(false)), Some(false));
    assert_eq!(decode_bool(&vec![2]), None);
    assert_eq!(decode_bool(&vec![]), None);
}

#[test]
fn u64_round_trip() {
    assert_eq!(decode_u64(&encode_u64(0)), Some(0));
    assert_eq!(decode_u64(&encode_u64(u64::MAX)), Some(u64::MAX));
    assert_eq!(encode_u64(258), vec![2, 1, 0, 0, 0, 0, 0, 0]);
    assert_eq!(decode_u64(&vec![1, 2, 3]), None);
}

#[test]
fn metadata_record_round_trip_is_identity() {
    let m = WorkerMetadata {
        worker_id: VersionedWorkerId {
            worker_id: WorkerId {
                template_id: TemplateId { high_bits: 0xdead, low_bits: 0xbeef },
                worker_name: "w\u{00e9}rker".to_string(),
            },
            template_version: -3,
        },
        args: vec!["--a".to_string(), "".to_string()],
        env: vec![
            ("HOME".to_string(), "/tmp/x".to_string()),
            ("EMPTY".to_string(), "".to_string()),
        ],
        account_id: AccountId { value: "acct-1".to_string() },
        last_known_status: WorkerStatus::Retrying,
        retry_count: 2,
        oplog_tail: 17,
    };
    let bytes = encode_metadata(&m);
    let back = decode_metadata(&bytes).expect("a record frame must decode");
    assert_eq!(back.worker_id.worker_id.template_id.high_bits, 0xdead);
    assert_eq!(back.worker_id.worker_id.template_id.low_bits, 0xbeef);
    assert_eq!(back.worker_id.worker_id.worker_name, "w\u{00e9}rker");
    assert_eq!(back.worker_id.template_version, -3);
    assert_eq!(back.args, m.args);
    assert_eq!(back.env, m.env);
    assert_eq!(back.account_id.value, "acct-1");
    assert_eq!(back.last_known_status, WorkerStatus::Retrying);
    assert_eq!(back.retry_count, 2);
    assert_eq!(back.oplog_tail, 17);
}

#[test]
fn metadata_record_rejects_corruption() {
    let m = WorkerMetadata {
        worker_id: VersionedWorkerId {
            worker_id: WorkerId {
                template_id: TemplateId { high_bits: 1, low_bits: 2 },
                worker_name: "n".to_string(),
            },
            template_version: 0,
        },
        args: vec![],
        env: vec![],
        account_id: AccountId { value: "a".to_string() },
        last_known_status: WorkerStatus::Idle,
        retry_count: 0,
        oplog_tail: 0,
    };
    let good = encode_metadata(&m);
    assert!(decode_metadata(&good).is_some());

    let mut truncated = good.clone();
    truncated.pop();
    assert!(decode_metadata(&truncated).is_none());

    let mut bad_status = good.clone();
    bad_status[24] = 200;
    assert!(decode_metadata(&bad_status).is_none());

    let mut trailing = good.clone();
    trailing.push(0);
    assert!(decode_metadata(&trailing).is_none());
}

use pulsar_bridge::diagnostics::{allow_non_pulsar_metadata, format_error_chain, LogLevel};
use pulsar_bridge::message_id::MessageId;
use pulsar_bridge::record::{
    build_message_value, decode_payload, encode_binary, non_empty_properties, ConsumedMessage,
    DecodedPayload, MessageMetadata,
};

fn bare_metadata() -> MessageMetadata {
    MessageMetadata {
        producer_name: String::new(),
        sequence_id: 0,
        publish_time: 0,
        event_time: None,
        partition_key: None,
        ordering_key: None,
        schema_version: None,
        replicate_to: Vec::new(),
        properties: Vec::new(),
    }
}

fn id() -> MessageId {
    MessageId {
        ledger_id: 1,
        entry_id: 2,
        partition: None,
        batch_index: None,
        batch_size: None,
        first_chunk_message_id: None,
        ack_set: Vec::new(),
    }
}

#[test]
fn empty_metadata_fields_are_left_out() {
    let m = ConsumedMessage { id: id(), payload: b"hi".to_vec(), metadata: bare_metadata() };
    let r = build_message_value(&m);
    assert_eq!(r.properties, None);
    assert_eq!(r.producer_name, None);
    assert_eq!(r.sequence_id, None);
    assert_eq!(r.publish_time, None);
    assert_eq!(r.ordering_key, None);
    assert_eq!(r.replicate_to, None);
    assert_eq!(r.message_id, "CAEQAjAA");
    assert_eq!(r.message_id_string, "1:2:-1:0");
    assert_eq!(r.payload, "aGk=");
    match r.decoded {
        DecodedPayload::Text(t) => assert_eq!(t, "hi"),
        other => panic!("unexpected {:?}", other),
    }
}

#[test]
fn present_metadata_fields_are_kept() {
    let mut meta = bare_metadata();
    meta.producer_name = "prod".to_string();
    meta.sequence_id = 4;
    meta.publish_time = 1700;
    meta.event_time = Some(1600);
    meta.partition_key = Some("pk".to_string());
    meta.ordering_key = Some(vec![1, 2, 3]);
    meta.schema_version = Some(Vec::new());
    meta.replicate_to = vec!["east".to_string()];
    meta.properties = vec![
        ("a".to_string(), "1".to_string()),
        ("b".to_string(), String::new()),
        ("c".to_string(), "3".to_string()),
    ];
    let m = ConsumedMessage { id: id(), payload: b"{\"k\":1}".to_vec(), metadata: meta };
    let r = build_message_value(&m);
    assert_eq!(r.producer_name, Some("prod".to_string()));
    assert_eq!(r.sequence_id, Some(4));
    assert_eq!(r.publish_time, Some(1700));
    assert_eq!(r.event_time, Some(1600));
    assert_eq!(r.partition_key, Some("pk".to_string()));
    assert_eq!(r.ordering_key, Some("AQID".to_string()));
    assert_eq!(r.schema_version, None);
    assert_eq!(r.replicate_to, Some(vec!["east".to_string()]));
    assert_eq!(
        r.properties,
        Some(vec![("a".to_string(), "1".to_string()), ("c".to_string(), "3".to_string())])
    );
    assert!(matches!(r.decoded, DecodedPayload::Json(_)));
}

#[test]
fn properties_with_only_empty_values_are_left_out() {
    let mut meta = bare_metadata();
    meta.properties = vec![("a".to_string(), String::new())];
    let m = ConsumedMessage { id: id(), payload: Vec::new(), metadata: meta };
    assert_eq!(build_message_value(&m).properties, None);
    assert!(non_empty_properties(&vec![("x".to_string(), String::new())]).is_empty());
}

#[test]
fn payload_decoding_falls_back_to_lossy_text() {
    assert!(matches!(decode_payload(b"[1, 2]"), DecodedPayload::Json(_)));
    match decode_payload(&[0x61, 0xff]) {
        DecodedPayload::Text(t) => assert_eq!(t, "a\u{FFFD}"),
        other => panic!("unexpected {:?}", other),
    }
}

#[test]
fn binary_fields_encode_only_when_non_empty() {
    assert_eq!(encode_binary(&None), None);
    assert_eq!(encode_binary(&Some(Vec::new())), None);
    assert_eq!(encode_binary(&Some(vec![1, 2, 3])), Some("AQID".to_string()));
}

#[test]
fn error_chain_joins_every_cause() {
    let msgs = vec!["top".to_string(), "middle".to_string(), "root".to_string()];
    assert_eq!(format_error_chain(&msgs), "top | caused by: middle | caused by: root");
    assert_eq!(format_error_chain(&vec!["only".to_string()]), "only");
    assert_eq!(format_error_chain(&Vec::new()), "");
}

#[test]
fn log_filter_quiets_broker_targets() {
    assert!(!allow_non_pulsar_metadata("pulsar::connection_manager", LogLevel::Warn));
    assert!(!allow_non_pulsar_metadata("pulsar", LogLevel::Info));
    assert!(allow_non_pulsar_metadata("pulsar::retry_op", LogLevel::Error));
    assert!(allow_non_pulsar_metadata("app", LogLevel::Trace));
    assert!(allow_non_pulsar_metadata("puls", LogLevel::Debug));
}

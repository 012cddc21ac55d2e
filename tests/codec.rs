use pulsar_bridge::decimal::{decimal_i32, decimal_u64};
use pulsar_bridge::message_id::{
    effective_batch_index, message_id_b64_ws_style, message_id_bytes, message_id_parts,
    message_id_string, norm_i32, push_varint_u64, MessageId,
};

fn plain_id(ledger_id: u64, entry_id: u64) -> MessageId {
    MessageId {
        ledger_id,
        entry_id,
        partition: None,
        batch_index: None,
        batch_size: None,
        first_chunk_message_id: None,
        ack_set: Vec::new(),
    }
}

#[test]
fn varint_single_byte() {
    let mut out = vec![9u8];
    push_varint_u64(127, &mut out);
    assert_eq!(out, vec![9, 127]);
}

#[test]
fn varint_multi_byte() {
    let mut out = Vec::new();
    push_varint_u64(300, &mut out);
    assert_eq!(out, vec![0xAC, 0x02]);
    let mut max = Vec::new();
    push_varint_u64(u64::MAX, &mut max);
    assert_eq!(max, vec![255, 255, 255, 255, 255, 255, 255, 255, 255, 1]);
}

#[test]
fn plain_identifier_forms() {
    let id = plain_id(1, 2);
    assert_eq!(message_id_bytes(&id), vec![8, 1, 16, 2, 48, 0]);
    assert_eq!(message_id_b64_ws_style(&id), "CAEQAjAA");
    assert_eq!(message_id_string(&id), "1:2:-1:0");
    let parts = message_id_parts(&id);
    assert_eq!(parts.ledger_id, 1);
    assert_eq!(parts.entry_id, 2);
    assert_eq!(parts.partition, None);
    assert_eq!(parts.batch_index, Some(0));
    assert_eq!(parts.batch_size, None);
    assert!(parts.first_chunk_message_id.is_none());
    assert!(parts.ack_set.is_none());
}

#[test]
fn zero_batch_fallback_in_every_form() {
    let id = plain_id(77, 0);
    assert_eq!(message_id_parts(&id).batch_index, Some(0));
    assert!(message_id_string(&id).ends_with(":0"));
    assert_eq!(*message_id_bytes(&id).last().unwrap(), 0);
}

#[test]
fn identifier_with_partition_and_batch() {
    let mut id = plain_id(300, 7);
    id.partition = Some(3);
    id.batch_index = Some(5);
    id.batch_size = Some(10);
    assert_eq!(message_id_b64_ws_style(&id), "CKwCEAcoAzAF");
    assert_eq!(message_id_string(&id), "300:7:3:5");
    let parts = message_id_parts(&id);
    assert_eq!(parts.partition, Some(3));
    assert_eq!(parts.batch_index, Some(5));
    assert_eq!(parts.batch_size, Some(10));
}

#[test]
fn negative_values_are_not_applicable() {
    let mut id = plain_id(u64::MAX, 0);
    id.partition = Some(-1);
    id.batch_index = Some(-4);
    id.batch_size = Some(-2);
    assert_eq!(message_id_b64_ws_style(&id), "CP///////////wEQADAA");
    assert_eq!(message_id_string(&id), "18446744073709551615:0:-1:0");
    let parts = message_id_parts(&id);
    assert_eq!(parts.partition, None);
    assert_eq!(parts.batch_size, None);
}

#[test]
fn nested_chunk_identifier_and_ack_set() {
    let mut id = plain_id(5, 6);
    id.ack_set = vec![1, -2];
    id.first_chunk_message_id = Some(Box::new(plain_id(5, 4)));
    let parts = message_id_parts(&id);
    assert_eq!(parts.ack_set, Some(vec![1, -2]));
    let inner = parts.first_chunk_message_id.unwrap();
    assert_eq!(inner.entry_id, 4);
    assert_eq!(inner.batch_index, Some(0));
}

#[test]
fn batch_policy_and_normalisation() {
    assert_eq!(effective_batch_index(Some(4)), Some(4));
    assert_eq!(effective_batch_index(None), Some(0));
    assert_eq!(effective_batch_index(Some(-1)), Some(0));
    assert_eq!(norm_i32(Some(0)), Some(0));
    assert_eq!(norm_i32(Some(-3)), None);
    assert_eq!(norm_i32(None), None);
}

#[test]
fn decimal_text() {
    assert_eq!(decimal_u64(0), "0");
    assert_eq!(decimal_u64(1234567890123), "1234567890123");
    assert_eq!(decimal_i32(-1), "-1");
    assert_eq!(decimal_i32(i32::MIN), "-2147483648");
    assert_eq!(decimal_i32(42), "42");
}

use pulsar_bridge::consume::{
    effective_limit, effective_timeout_ms, on_read_event, starts_from_earliest, MessageWindow,
    ReadAction, ReadEvent,
};
use pulsar_bridge::message_id::MessageId;
use pulsar_bridge::record::{ConsumedMessage, MessageMetadata};

fn message(entry_id: u64) -> ConsumedMessage {
    ConsumedMessage {
        id: MessageId {
            ledger_id: 9,
            entry_id,
            partition: None,
            batch_index: None,
            batch_size: None,
            first_chunk_message_id: None,
            ack_set: Vec::new(),
        },
        payload: format!("m{}", entry_id).into_bytes(),
        metadata: MessageMetadata {
            producer_name: "p".to_string(),
            sequence_id: entry_id,
            publish_time: 0,
            event_time: None,
            partition_key: None,
            ordering_key: None,
            schema_version: None,
            replicate_to: Vec::new(),
            properties: Vec::new(),
        },
    }
}

#[test]
fn window_keeps_last_three_of_ten() {
    let mut window = MessageWindow::new(3);
    for i in 1..=10u64 {
        let action = on_read_event(&mut window, ReadEvent::Delivered(message(i)));
        assert!(matches!(action, ReadAction::Acknowledge));
        assert!(window.len() <= 3);
    }
    assert!(matches!(on_read_event(&mut window, ReadEvent::TimedOut), ReadAction::Close));
    let items = window.into_items();
    let ids: Vec<String> = items.iter().map(|r| r.message_id_string.clone()).collect();
    assert_eq!(ids, vec!["9:8:-1:0", "9:9:-1:0", "9:10:-1:0"]);
    let seqs: Vec<Option<u64>> = items.iter().map(|r| r.sequence_id).collect();
    assert_eq!(seqs, vec![Some(8), Some(9), Some(10)]);
}

#[test]
fn fewer_than_limit_are_all_kept() {
    let mut window = MessageWindow::new(10);
    on_read_event(&mut window, ReadEvent::Delivered(message(1)));
    on_read_event(&mut window, ReadEvent::Delivered(message(2)));
    assert!(matches!(on_read_event(&mut window, ReadEvent::StreamEnded), ReadAction::Close));
    assert_eq!(window.into_items().len(), 2);
}

#[test]
fn timeout_without_delivery_is_empty() {
    let mut window = MessageWindow::new(10);
    assert!(matches!(on_read_event(&mut window, ReadEvent::TimedOut), ReadAction::Close));
    assert!(window.into_items().is_empty());
}

#[test]
fn delivery_error_fails_the_read() {
    let mut window = MessageWindow::new(2);
    on_read_event(&mut window, ReadEvent::Delivered(message(1)));
    match on_read_event(&mut window, ReadEvent::DeliveryFailed("boom".to_string())) {
        ReadAction::Fail(e) => assert_eq!(e, "boom"),
        other => panic!("unexpected {:?}", other),
    }
    assert_eq!(window.len(), 1);
}

#[test]
fn read_defaults() {
    assert_eq!(effective_limit(None), 10);
    assert_eq!(effective_limit(Some(0)), 1);
    assert_eq!(effective_limit(Some(25)), 25);
    assert_eq!(effective_timeout_ms(None), 2000);
    assert_eq!(effective_timeout_ms(Some(0)), 1);
    assert_eq!(effective_timeout_ms(Some(500)), 500);
}

#[test]
fn earliest_start_position() {
    assert!(starts_from_earliest(&Some("earliest".to_string())));
    assert!(starts_from_earliest(&Some("EarLiEST".to_string())));
    assert!(!starts_from_earliest(&Some("latest".to_string())));
    assert!(!starts_from_earliest(&Some("earliest ".to_string())));
    assert!(!starts_from_earliest(&None));
}

use vstd::prelude::*;
use crate::bindings::{base64_of, encode_base64, json_accepts, lossy_text, parse_json, utf8_lossy_of};
use crate::endpoint::pair_views;
use crate::message_id::{
    composite_text, id_bytes, message_id_b64_ws_style, message_id_parts, message_id_string,
    parts_match, MessageId, MessageIdParts,
};

verus! {

/// What the broker reports with one delivered message.
#[derive(Debug)]
pub struct MessageMetadata {
    pub producer_name: String,
    pub sequence_id: u64,
    pub publish_time: u64,
    pub event_time: Option<u64>,
    pub partition_key: Option<String>,
    pub ordering_key: Option<Vec<u8>>,
    pub schema_version: Option<Vec<u8>>,
    pub replicate_to: Vec<String>,
    pub properties: Vec<(String, String)>,
}

/// One message delivered from a subscription.
#[derive(Debug)]
pub struct ConsumedMessage {
    pub id: MessageId,
    pub payload: Vec<u8>,
    pub metadata: MessageMetadata,
}

/// A payload read as JSON where it parses, else as text.
#[derive(Debug)]
pub enum DecodedPayload {
    Json(serde_json::Value),
    Text(String),
}

/// The serialisable record of one consumed message. A field that is `None`
/// is left out of the record; the publish time is written under both
/// `publishTime` and `publishTimestamp`.
#[derive(Debug)]
pub struct MessageRecord {
    pub message_id: String,
    pub message_id_string: String,
    pub message_id_data: MessageIdParts,
    pub payload: String,
    pub decoded: DecodedPayload,
    pub producer_name: Option<String>,
    pub sequence_id: Option<u64>,
    pub publish_time: Option<u64>,
    pub event_time: Option<u64>,
    pub partition_key: Option<String>,
    pub ordering_key: Option<String>,
    pub schema_version: Option<String>,
    pub replicate_to: Option<Vec<String>>,
    pub properties: Option<Vec<(String, String)>>,
}

/// The property pairs whose value is not empty, in their order.
pub open spec fn kept_properties(s: Seq<(Seq<char>, Seq<char>)>) -> Seq<(Seq<char>, Seq<char>)>
    decreases s.len(),
{
    if s.len() == 0 {
        seq![]
    } else if s.last().1.len() > 0 {
        kept_properties(s.drop_last()).push(s.last())
    } else {
        kept_properties(s.drop_last())
    }
}

/// Base-64 of bytes that are present and not empty.
pub open spec fn binary_text(b: Option<Vec<u8>>) -> Option<Seq<char>> {
    if b is Some && b->0@.len() > 0 {
        Some(base64_of(b->0@))
    } else {
        None
    }
}

pub open spec fn text_of(o: Option<String>) -> Option<Seq<char>> {
    match o {
        Some(s) => Some(s@),
        None => None,
    }
}

/// The metadata fields of `r` follow `m`: each is present only when the
/// metadata holds a value that is not empty or zero.
pub open spec fn metadata_fields_match(r: MessageRecord, m: MessageMetadata) -> bool {
    &&& text_of(r.producer_name) == (if m.producer_name@.len() > 0 {
        Some(m.producer_name@)
    } else {
        None
    })
    &&& r.sequence_id == (if m.sequence_id != 0 {
        Some(m.sequence_id)
    } else {
        None
    })
    &&& r.publish_time == (if m.publish_time != 0 {
        Some(m.publish_time)
    } else {
        None
    })
    &&& r.event_time == m.event_time
    &&& text_of(r.partition_key) == (if m.partition_key is Some && m.partition_key->0@.len() > 0 {
        Some(m.partition_key->0@)
    } else {
        None
    })
    &&& text_of(r.ordering_key) == binary_text(m.ordering_key)
    &&& text_of(r.schema_version) == binary_text(m.schema_version)
    &&& (r.replicate_to is Some <==> m.replicate_to@.len() > 0)
    &&& (r.replicate_to is Some ==> r.replicate_to->0@ == m.replicate_to@)
    &&& (r.properties is Some <==> kept_properties(pair_views(m.properties@)).len() > 0)
    &&& (r.properties is Some ==> pair_views(r.properties->0@) == kept_properties(
        pair_views(m.properties@),
    ))
}

/// `d` is the payload read as JSON where its lossy UTF-8 text parses, else
/// that text.
pub open spec fn decoded_matches(d: DecodedPayload, payload: Seq<u8>) -> bool {
    match d {
        DecodedPayload::Json(_) => json_accepts(utf8_lossy_of(payload)),
        DecodedPayload::Text(t) => !json_accepts(utf8_lossy_of(payload)) && t@ == utf8_lossy_of(
            payload,
        ),
    }
}

/// `r` is the record of `m`.
pub open spec fn record_matches(r: MessageRecord, m: ConsumedMessage) -> bool {
    &&& r.message_id@ == base64_of(id_bytes(m.id))
    &&& r.message_id_string@ == composite_text(m.id)
    &&& parts_match(r.message_id_data, m.id)
    &&& r.payload@ == base64_of(m.payload@)
    &&& decoded_matches(r.decoded, m.payload@)
    &&& metadata_fields_match(r, m.metadata)
}

/// Base-64 of bytes that are present and not empty.
pub fn encode_binary(value: &Option<Vec<u8>>) -> (r: Option<String>)
    ensures
        text_of(r) == binary_text(*value),
{
    match value {
        Some(data) => if data.len() > 0 {
            Some(encode_base64(data.as_slice()))
        } else {
            None
        },
        None => None,
    }
}

/// The property pairs whose value is not empty, in their order.
pub fn non_empty_properties(props: &Vec<(String, String)>) -> (r: Vec<(String, String)>)
    ensures
        pair_views(r@) == kept_properties(pair_views(props@)),
{
    let mut out: Vec<(String, String)> = Vec::new();
    let mut i: usize = 0;
    while i < props.len()
        invariant
            i <= props.len(),
            pair_views(out@) == kept_properties(pair_views(props@.subrange(0, i as int))),
        decreases props.len() - i,
    {
        let ghost before = pair_views(props@.subrange(0, i as int));
        let ghost next = pair_views(props@.subrange(0, i + 1));
        assert(next.drop_last() =~= before);
        assert(next.last() == (props@[i as int].0@, props@[i as int].1@));
        if props[i].1.unicode_len() > 0 {
            let k = props[i].0.clone();
            let v = props[i].1.clone();
            let ghost old_out = out@;
            out.push((k, v));
            assert(pair_views(out@) =~= pair_views(old_out).push(next.last()));
        }
        i = i + 1;
    }
    assert(props@.subrange(0, props.len() as int) =~= props@);
    out
}

/// Fills the metadata fields of a record, each only when the metadata holds
/// a value that is not empty or zero.
pub fn apply_metadata_fields(metadata: &MessageMetadata, target: &mut MessageRecord)
    ensures
        metadata_fields_match(*final(target), *metadata),
        final(target).message_id == old(target).message_id,
        final(target).message_id_string == old(target).message_id_string,
        final(target).message_id_data == old(target).message_id_data,
        final(target).payload == old(target).payload,
        final(target).decoded == old(target).decoded,
{
    target.producer_name = if metadata.producer_name.unicode_len() > 0 {
        Some(metadata.producer_name.clone())
    } else {
        None
    };
    target.sequence_id = if metadata.sequence_id != 0 {
        Some(metadata.sequence_id)
    } else {
        None
    };
    target.publish_time = if metadata.publish_time != 0 {
        Some(metadata.publish_time)
    } else {
        None
    };
    target.event_time = metadata.event_time;
    target.partition_key = match &metadata.partition_key {
        Some(k) => if k.unicode_len() > 0 {
            Some(k.clone())
        } else {
            None
        },
        None => None,
    };
    target.ordering_key = encode_binary(&metadata.ordering_key);
    target.schema_version = encode_binary(&metadata.schema_version);
    target.replicate_to = if metadata.replicate_to.len() > 0 {
        Some(metadata.replicate_to.clone())
    } else {
        None
    };
    let kept = non_empty_properties(&metadata.properties);
    target.properties = if kept.len() > 0 {
        Some(kept)
    } else {
        None
    };
}

/// Reads a payload as JSON where its lossy UTF-8 text parses, else as that text.
pub fn decode_payload(data: &[u8]) -> (r: DecodedPayload)
    ensures
        decoded_matches(r, data@),
{
    let text = lossy_text(data);
    match parse_json(text.as_str()) {
        Ok(v) => DecodedPayload::Json(v),
        Err(_) => DecodedPayload::Text(text),
    }
}

/// The record of one consumed message.
pub fn build_message_value(message: &ConsumedMessage) -> (r: MessageRecord)
    ensures
        record_matches(r, *message),
{
    let mut record = MessageRecord {
        message_id: message_id_b64_ws_style(&message.id),
        message_id_string: message_id_string(&message.id),
        message_id_data: message_id_parts(&message.id),
        payload: encode_base64(message.payload.as_slice()),
        decoded: decode_payload(message.payload.as_slice()),
        producer_name: None,
        sequence_id: None,
        publish_time: None,
        event_time: None,
        partition_key: None,
        ordering_key: None,
        schema_version: None,
        replicate_to: None,
        properties: None,
    };
    apply_metadata_fields(&message.metadata, &mut record);
    record
}

/// A record leaves out the properties, producer name and sequence id of a
/// message whose properties are empty, whose producer name is empty and
/// whose sequence id is zero.
pub proof fn lemma_empty_metadata_left_out(r: MessageRecord, m: ConsumedMessage)
    requires
        record_matches(r, m),
        m.metadata.properties@.len() == 0,
        m.metadata.producer_name@.len() == 0,
        m.metadata.sequence_id == 0,
    ensures
        r.properties is None,
        r.producer_name is None,
        r.sequence_id is None,
{
    assert(pair_views(m.metadata.properties@).len() == 0);
}

} // verus!

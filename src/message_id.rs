use vstd::prelude::*;
use crate::bindings::{base64_of, encode_base64};
use crate::decimal::{dec, dec_int, decimal_i32, decimal_u64};

verus! {

/// Unsigned LEB128 bytes of `v`: seven value bits per byte, low group first,
/// with the high bit set on every byte but the last.
pub open spec fn varint(v: nat) -> Seq<u8>
    decreases v,
{
    if v < 128 {
        seq![v as u8]
    } else {
        seq![(v % 128 + 128) as u8] + varint(v / 128)
    }
}

/// Appends the varint encoding of `v` to `out`.
pub fn push_varint_u64(v: u64, out: &mut Vec<u8>)
    ensures
        final(out)@ == old(out)@ + varint(v as nat),
{
    let mut v: u64 = v;
    let ghost start = out@;
    let ghost whole = varint(v as nat);
    let ghost mut done: Seq<u8> = seq![];
    while v >= 0x80
        invariant
            out@ == start + done,
            whole == done + varint(v as nat),
        decreases v,
    {
        let b: u8 = ((v as u8) & 0x7F) | 0x80;
        assert(((v as u8) & 0x7F) | 0x80 == (v % 128 + 128) as u8) by (bit_vector)
            requires
                v >= 0x80,
        ;
        assert((v >> 7) == v / 128) by (bit_vector);
        out.push(b);
        proof {
            assert(varint(v as nat) == seq![b] + varint((v / 128) as nat));
            assert(done + varint(v as nat) == done.push(b) + varint((v / 128) as nat));
            done = done.push(b);
        }
        v = v >> 7;
    }
    out.push(v as u8);
    proof {
        assert(varint(v as nat) == seq![v as u8]);
        assert(out@ =~= start + whole);
    }
}


/// Whether a missing batch index is written as zero, as the broker's
/// WebSocket surface does; every representation of an identifier follows it.
pub const INCLUDE_ZERO_BATCH: bool = true;

const TAG_LEDGER: u8 = 8;
const TAG_ENTRY: u8 = 16;
const TAG_PARTITION: u8 = 40;
const TAG_BATCH: u8 = 48;

/// The broker's logical locator of a message.
#[derive(Debug)]
pub struct MessageId {
    pub ledger_id: u64,
    pub entry_id: u64,
    pub partition: Option<i32>,
    pub batch_index: Option<i32>,
    pub batch_size: Option<i32>,
    pub first_chunk_message_id: Option<Box<MessageId>>,
    pub ack_set: Vec<i64>,
}

/// The structured form of an identifier. Its chunk id is never tracked and
/// is always rendered as null.
#[derive(Debug)]
pub struct MessageIdParts {
    pub ledger_id: u64,
    pub entry_id: u64,
    pub partition: Option<i32>,
    pub batch_index: Option<i32>,
    pub batch_size: Option<i32>,
    pub first_chunk_message_id: Option<Box<MessageIdParts>>,
    pub ack_set: Option<Vec<i64>>,
}

/// A value that is present and non-negative; anything else is "not applicable".
pub open spec fn non_negative(o: Option<i32>) -> Option<i32> {
    if o is Some && o->0 >= 0 {
        o
    } else {
        None
    }
}

/// The batch index that every representation uses: the value when present
/// and non-negative, else zero when `INCLUDE_ZERO_BATCH` holds, else none.
pub open spec fn batch_policy(o: Option<i32>) -> Option<i32> {
    if o is Some && o->0 >= 0 {
        o
    } else if INCLUDE_ZERO_BATCH {
        Some(0i32)
    } else {
        None
    }
}

pub fn norm_i32(o: Option<i32>) -> (r: Option<i32>)
    ensures
        r == non_negative(o),
{
    match o {
        Some(x) => if x >= 0 {
            Some(x)
        } else {
            None
        },
        None => None,
    }
}

/// The shared zero-batch fallback.
pub fn effective_batch_index(o: Option<i32>) -> (r: Option<i32>)
    ensures
        r == batch_policy(o),
{
    match o {
        Some(x) if x >= 0 => Some(x),
        _ => if INCLUDE_ZERO_BATCH {
            Some(0)
        } else {
            None
        },
    }
}

/// The (field number, value) pairs written for an identifier, in order.
pub open spec fn id_fields(id: MessageId) -> Seq<(nat, nat)> {
    let head = seq![(1nat, id.ledger_id as nat), (2nat, id.entry_id as nat)];
    let with_partition = match non_negative(id.partition) {
        Some(p) => head.push((5nat, p as nat)),
        None => head,
    };
    match batch_policy(id.batch_index) {
        Some(b) => with_partition.push((6nat, b as nat)),
        None => with_partition,
    }
}

/// One field: its tag byte (field number, varint wire type) and its value.
pub open spec fn field_bytes(f: (nat, nat)) -> Seq<u8> {
    seq![(f.0 * 8) as u8] + varint(f.1)
}

pub open spec fn encode_fields(fs: Seq<(nat, nat)>) -> Seq<u8>
    decreases fs.len(),
{
    if fs.len() == 0 {
        seq![]
    } else {
        field_bytes(fs[0]) + encode_fields(fs.drop_first())
    }
}

/// The identifier's binary form, before base-64.
pub open spec fn id_bytes(id: MessageId) -> Seq<u8> {
    encode_fields(id_fields(id))
}

proof fn lemma_encode_push(fs: Seq<(nat, nat)>, f: (nat, nat))
    ensures
        encode_fields(fs.push(f)) == encode_fields(fs) + field_bytes(f),
    decreases fs.len(),
{
    if fs.len() == 0 {
        assert(fs.push(f).drop_first() =~= seq![]);
        assert(fs.push(f)[0] == f);
        assert(encode_fields(fs.push(f).drop_first()) == Seq::<u8>::empty());
        assert(encode_fields(fs) == Seq::<u8>::empty());
        assert(encode_fields(fs.push(f)) =~= encode_fields(fs) + field_bytes(f));
    } else {
        lemma_encode_push(fs.drop_first(), f);
        assert(fs.push(f).drop_first() =~= fs.drop_first().push(f));
        assert(fs.push(f)[0] == fs[0]);
        assert(encode_fields(fs.push(f)) == field_bytes(fs[0]) + (encode_fields(fs.drop_first())
            + field_bytes(f)));
        assert(encode_fields(fs.push(f)) =~= encode_fields(fs) + field_bytes(f));
    }
}

fn push_field(tag: u8, v: u64, out: &mut Vec<u8>, Ghost(fs): Ghost<Seq<(nat, nat)>>, Ghost(num): Ghost<nat>)
    requires
        old(out)@ == encode_fields(fs),
        tag as nat == num * 8,
    ensures
        final(out)@ == encode_fields(fs.push((num, v as nat))),
{
    out.push(tag);
    push_varint_u64(v, out);
    proof {
        lemma_encode_push(fs, (num, v as nat));
        assert(out@ =~= encode_fields(fs) + field_bytes((num, v as nat)));
    }
}

/// Bytes of the identifier in the tagged-varint layout of the broker's
/// WebSocket API: ledger id (1), entry id (2), partition (5), batch index (6).
pub fn message_id_bytes(id: &MessageId) -> (r: Vec<u8>)
    ensures
        r@ == id_bytes(*id),
{
    let mut buf: Vec<u8> = Vec::new();
    let ghost fs: Seq<(nat, nat)> = seq![];
    assert(buf@ =~= encode_fields(fs));
    push_field(TAG_LEDGER, id.ledger_id, &mut buf, Ghost(fs), Ghost(1nat));
    let ghost fs = fs.push((1nat, id.ledger_id as nat));
    push_field(TAG_ENTRY, id.entry_id, &mut buf, Ghost(fs), Ghost(2nat));
    let ghost fs = fs.push((2nat, id.entry_id as nat));
    assert(fs =~= seq![(1nat, id.ledger_id as nat), (2nat, id.entry_id as nat)]);
    let ghost mut fs = fs;
    if let Some(p) = norm_i32(id.partition) {
        push_field(TAG_PARTITION, p as u64, &mut buf, Ghost(fs), Ghost(5nat));
        proof {
            fs = fs.push((5nat, p as nat));
        }
    }
    if let Some(b) = effective_batch_index(id.batch_index) {
        push_field(TAG_BATCH, b as u64, &mut buf, Ghost(fs), Ghost(6nat));
        proof {
            fs = fs.push((6nat, b as nat));
        }
    }
    assert(fs == id_fields(*id));
    buf
}

/// The identifier's wire-compatible form: base-64 of its binary form.
pub fn message_id_b64_ws_style(id: &MessageId) -> (r: String)
    ensures
        r@ == base64_of(id_bytes(*id)),
{
    let buf = message_id_bytes(id);
    encode_base64(buf.as_slice())
}

/// Text of a value that is -1 when not applicable.
pub open spec fn or_minus_one(o: Option<i32>) -> int {
    match o {
        Some(x) => x as int,
        None => -1,
    }
}

/// `"{ledger}:{entry}:{partition}:{batch}"`.
pub open spec fn composite_text(id: MessageId) -> Seq<char> {
    dec(id.ledger_id as nat) + seq![':'] + dec(id.entry_id as nat) + seq![':'] + dec_int(
        or_minus_one(non_negative(id.partition)),
    ) + seq![':'] + dec_int(or_minus_one(batch_policy(id.batch_index)))
}

/// The identifier as `"{ledger}:{entry}:{partition}:{batch}"`, with -1 for a
/// partition or batch index that is not applicable.
pub fn message_id_string(id: &MessageId) -> (r: String)
    ensures
        r@ == composite_text(*id),
{
    proof {
        reveal_strlit(":");
    }
    let partition: i32 = match norm_i32(id.partition) {
        Some(p) => p,
        None => -1,
    };
    let batch: i32 = match effective_batch_index(id.batch_index) {
        Some(b) => b,
        None => -1,
    };
    let mut s = decimal_u64(id.ledger_id);
    s.append(":");
    let e = decimal_u64(id.entry_id);
    s.append(e.as_str());
    s.append(":");
    let p = decimal_i32(partition);
    s.append(p.as_str());
    s.append(":");
    let b = decimal_i32(batch);
    s.append(b.as_str());
    s
}


/// `p` is the structured form of `id`, down through every first-chunk identifier.
pub open spec fn parts_match(p: MessageIdParts, id: MessageId) -> bool
    decreases id,
{
    &&& p.ledger_id == id.ledger_id
    &&& p.entry_id == id.entry_id
    &&& p.partition == non_negative(id.partition)
    &&& p.batch_index == batch_policy(id.batch_index)
    &&& p.batch_size == non_negative(id.batch_size)
    &&& (p.ack_set is None <==> id.ack_set@.len() == 0)
    &&& (p.ack_set is Some ==> p.ack_set->0@ == id.ack_set@)
    &&& match (p.first_chunk_message_id, id.first_chunk_message_id) {
        (None, None) => true,
        (Some(a), Some(b)) => parts_match(*a, *b),
        _ => false,
    }
}

/// The structured form of an identifier, with the same batch-index fallback
/// as its binary and composite forms.
pub fn message_id_parts(id: &MessageId) -> (r: MessageIdParts)
    ensures
        parts_match(r, *id),
    decreases *id,
{
    let nested = match &id.first_chunk_message_id {
        Some(inner) => Some(Box::new(message_id_parts(inner))),
        None => None,
    };
    let ack_set = if id.ack_set.len() == 0 {
        None
    } else {
        Some(id.ack_set.clone())
    };
    MessageIdParts {
        ledger_id: id.ledger_id,
        entry_id: id.entry_id,
        partition: norm_i32(id.partition),
        batch_index: effective_batch_index(id.batch_index),
        batch_size: norm_i32(id.batch_size),
        first_chunk_message_id: nested,
        ack_set,
    }
}

/// The fields of a structured identifier that the binary form carries.
pub open spec fn parts_fields(p: MessageIdParts) -> Seq<(nat, nat)> {
    let head = seq![(1nat, p.ledger_id as nat), (2nat, p.entry_id as nat)];
    let with_partition = match p.partition {
        Some(x) => head.push((5nat, x as nat)),
        None => head,
    };
    match p.batch_index {
        Some(b) => with_partition.push((6nat, b as nat)),
        None => with_partition,
    }
}

/// Reads one varint: its value and the bytes after it.
pub open spec fn decode_varint(s: Seq<u8>) -> Option<(nat, Seq<u8>)>
    decreases s.len(),
{
    if s.len() == 0 {
        None
    } else if s[0] < 128 {
        Some((s[0] as nat, s.drop_first()))
    } else {
        match decode_varint(s.drop_first()) {
            Some(p) => Some((((s[0] - 128) + 128 * p.0) as nat, p.1)),
            None => None,
        }
    }
}

/// Reads a sequence of varint fields: (field number, value) in order.
pub open spec fn decode_fields(s: Seq<u8>) -> Option<Seq<(nat, nat)>>
    decreases s.len(),
{
    if s.len() == 0 {
        Some(seq![])
    } else if s[0] % 8 != 0 {
        None
    } else {
        match decode_varint(s.drop_first()) {
            Some(p) => if p.1.len() < s.len() {
                match decode_fields(p.1) {
                    Some(rest) => Some(seq![((s[0] / 8) as nat, p.0)] + rest),
                    None => None,
                }
            } else {
                None
            },
            None => None,
        }
    }
}

proof fn lemma_varint_decodes(v: nat, rest: Seq<u8>)
    ensures
        decode_varint(varint(v) + rest) == Some((v, rest)),
    decreases v,
{
    let s = varint(v) + rest;
    if v < 128 {
        assert(s.drop_first() =~= rest);
    } else {
        lemma_varint_decodes(v / 128, rest);
        assert(s.drop_first() =~= varint(v / 128) + rest);
        assert(s[0] == (v % 128 + 128) as u8);
        assert(v == v % 128 + 128 * (v / 128)) by (nonlinear_arith);
    }
}

proof fn lemma_fields_decode(fs: Seq<(nat, nat)>)
    requires
        forall|i: int| 0 <= i < fs.len() ==> 1 <= #[trigger] fs[i].0 < 32,
    ensures
        decode_fields(encode_fields(fs)) == Some(fs),
    decreases fs.len(),
{
    if fs.len() > 0 {
        let f = fs[0];
        let tail = fs.drop_first();
        assert forall|i: int| 0 <= i < tail.len() implies 1 <= #[trigger] tail[i].0 < 32 by {
            assert(tail[i] == fs[i + 1]);
        }
        lemma_fields_decode(tail);
        let s = encode_fields(fs);
        assert(s == seq![(f.0 * 8) as u8] + (varint(f.1) + encode_fields(tail)));
        assert(s.drop_first() =~= varint(f.1) + encode_fields(tail));
        lemma_varint_decodes(f.1, encode_fields(tail));
        assert((f.0 * 8) as u8 as nat == f.0 * 8);
        assert(seq![f] + tail =~= fs);
    }
}

/// The binary form of every identifier decodes to exactly the ledger id,
/// entry id, partition and batch index of its structured form.
pub proof fn lemma_binary_form_decodes(id: MessageId, parts: MessageIdParts)
    requires
        parts_match(parts, id),
    ensures
        decode_fields(id_bytes(id)) == Some(parts_fields(parts)),
{
    let fs = id_fields(id);
    assert(fs == parts_fields(parts));
    lemma_fields_decode(fs);
}

/// An identifier with neither partition nor batch index has the composite
/// text `"{ledger}:{entry}:-1:0"` (`"...:-1:-1"` without the zero-batch
/// fallback), and its binary form decodes to its structured form's fields.
pub proof fn lemma_plain_identifier(id: MessageId, parts: MessageIdParts)
    requires
        id.partition is None,
        id.batch_index is None,
        parts_match(parts, id),
    ensures
        composite_text(id) == dec(id.ledger_id as nat) + seq![':'] + dec(id.entry_id as nat)
            + seq![':', '-', '1', ':'] + (if INCLUDE_ZERO_BATCH {
            seq!['0']
        } else {
            seq!['-', '1']
        }),
        decode_fields(id_bytes(id)) == Some(parts_fields(parts)),
{
    lemma_binary_form_decodes(id, parts);
    assert(dec(1) == seq!['1']);
    assert(dec(0) == seq!['0']);
    assert(dec_int(-1) =~= seq!['-', '1']);
    assert(composite_text(id) =~= dec(id.ledger_id as nat) + seq![':'] + dec(id.entry_id as nat)
        + seq![':', '-', '1', ':'] + (if INCLUDE_ZERO_BATCH {
        seq!['0']
    } else {
        seq!['-', '1']
    }));
}

/// With the zero-batch fallback on, an identifier without a batch index has
/// batch index 0 in its structured form, and its binary form carries field 6
/// with value 0.
pub proof fn lemma_zero_batch_round_trip(id: MessageId, parts: MessageIdParts)
    requires
        INCLUDE_ZERO_BATCH,
        id.batch_index is None,
        parts_match(parts, id),
    ensures
        parts.batch_index == Some(0i32),
        decode_fields(id_bytes(id)) == Some(parts_fields(parts)),
        parts_fields(parts).last() == (6nat, 0nat),
{
    lemma_binary_form_decodes(id, parts);
}

} // verus!

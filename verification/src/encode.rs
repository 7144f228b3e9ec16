//! Writing: from a message or an event to the bytes of its body.

use vstd::prelude::*;
use crate::event::{
    encoding_error, kind_error, texts_view, EncodingError, Event, EventKind, Message, MessageView,
    Timestamp, ID_NONCE_LEN, NANOS_PER_SECOND,
};
use crate::schema::{
    encodable, handshake_fields, kind_fields, kind_sized, kind_slot, lifecycle_fields,
    message_bytes, message_sized, message_slot, nanos_fields, nonce_words, ordinary_fields,
    payload_bytes, record_fields, seconds_fields, seconds_word, text_fields, timestamp_fields,
    whoareyou_fields, FIND_NODE_SLOT, HANDSHAKE_SLOT, NODES_SLOT, ORDINARY_SLOT, PING_SLOT,
    PONG_SLOT, RANDOM_SLOT, RECORD_SLOT, SHUTDOWN_SLOT, STARTED_SLOT, TIMESTAMP_SLOT, WHOAREYOU_SLOT,
};
use crate::text::text_field;
use crate::varint::{pack, packed};
use crate::wire::{
    bytes_field, field_bytes, field_ok, fields_bytes, fields_ok, lemma_fields_bytes_four,
    lemma_fields_bytes_one, lemma_fields_bytes_push, lemma_fields_bytes_three,
    lemma_fields_bytes_two, put_bytes_field, put_varint_field, varint_field, WireField,
    FIELD_NUMBER_END,
};

verus! {

/// Appends the field that carries `text` under `number` to `out`.
pub fn put_text_field(out: &mut Vec<u8>, number: u32, text: &str)
    requires
        1 <= number < FIELD_NUMBER_END,
    ensures
        final(out)@ == old(out)@ + field_bytes(text_field(number, text@)),
        field_ok(text_field(number, text@)),
{
    put_bytes_field(out, number, text.as_bytes());
}

/// The 64-bit word that stands for `seconds` on the wire.
pub fn seconds_to_word(seconds: i64) -> (word: u64)
    ensures
        word == seconds_word(seconds),
{
    if seconds >= 0 {
        seconds as u64
    } else {
        u64::MAX - ((-(seconds + 1)) as u64)
    }
}

/// The body of a timestamp: its seconds and its nanoseconds, each of them
/// only where it is not zero.
pub fn encode_timestamp(timestamp: &Timestamp) -> (body: Vec<u8>)
    ensures
        body@ == fields_bytes(timestamp_fields(*timestamp)),
{
    let mut body: Vec<u8> = Vec::new();
    let ghost front = seconds_fields(timestamp.seconds);
    if timestamp.seconds != 0 {
        put_varint_field(&mut body, 1, seconds_to_word(timestamp.seconds));
        proof {
            lemma_fields_bytes_one(varint_field(1, seconds_word(timestamp.seconds)));
        }
    }
    proof {
        assert(body@ =~= fields_bytes(front));
        assert(front + nanos_fields(0) =~= front);
    }
    if timestamp.nanos != 0 {
        put_varint_field(&mut body, 2, timestamp.nanos as u64);
        proof {
            let last = varint_field(2, timestamp.nanos as u64);
            lemma_fields_bytes_push(front, last);
            assert(front.push(last) =~= front + nanos_fields(timestamp.nanos));
        }
    }
    body
}

/// Appends one field for each text of `texts`, all under `number`, to `out`.
fn put_text_fields(out: &mut Vec<u8>, number: u32, texts: &Vec<String>, Ghost(front): Ghost<
    Seq<WireField>,
>)
    requires
        1 <= number < FIELD_NUMBER_END,
        old(out)@ == fields_bytes(front),
        fields_ok(front),
    ensures
        final(out)@ == fields_bytes(front + text_fields(number, texts_view(texts@))),
        fields_ok(front + text_fields(number, texts_view(texts@))),
{
    let ghost all = text_fields(number, texts_view(texts@));
    let mut i: usize = 0;
    proof {
        assert(front + all.take(0) =~= front);
    }
    while i < texts.len()
        invariant
            i <= texts@.len(),
            1 <= number < FIELD_NUMBER_END,
            all == text_fields(number, texts_view(texts@)),
            out@ == fields_bytes(front + all.take(i as int)),
            fields_ok(front + all.take(i as int)),
        decreases texts@.len() - i,
    {
        let ghost so_far = front + all.take(i as int);
        put_text_field(out, number, texts[i].as_str());
        proof {
            let field = text_field(number, texts@[i as int]@);
            assert(all[i as int] == field);
            assert(front + all.take(i + 1) =~= so_far.push(field));
            lemma_fields_bytes_push(so_far, field);
        }
        i += 1;
    }
    proof {
        assert(all.take(i as int) =~= all);
    }
}

/// The body of a ping.
fn encode_ping(request_id: &str, enr_seq: u64) -> (body: Vec<u8>)
    ensures
        body@ == message_bytes(MessageView::Ping { request_id: request_id@, enr_seq }),
        message_sized(MessageView::Ping { request_id: request_id@, enr_seq }),
{
    let mut body: Vec<u8> = Vec::new();
    put_text_field(&mut body, 1, request_id);
    put_varint_field(&mut body, 2, enr_seq);
    proof {
        lemma_fields_bytes_two(text_field(1, request_id@), varint_field(2, enr_seq));
        assert(body@ =~= fields_bytes(seq![text_field(1, request_id@), varint_field(2, enr_seq)]));
    }
    body
}

/// The body of a pong.
fn encode_pong(request_id: &str, enr_seq: u64, recipient_ip: &str, recipient_port: u32) -> (body:
    Vec<u8>)
    ensures
        body@ == message_bytes(
            MessageView::Pong {
                request_id: request_id@,
                enr_seq,
                recipient_ip: recipient_ip@,
                recipient_port,
            },
        ),
        message_sized(
            MessageView::Pong {
                request_id: request_id@,
                enr_seq,
                recipient_ip: recipient_ip@,
                recipient_port,
            },
        ),
{
    let mut body: Vec<u8> = Vec::new();
    put_text_field(&mut body, 1, request_id);
    put_varint_field(&mut body, 2, enr_seq);
    put_text_field(&mut body, 3, recipient_ip);
    put_varint_field(&mut body, 4, recipient_port as u64);
    proof {
        lemma_fields_bytes_four(
            text_field(1, request_id@),
            varint_field(2, enr_seq),
            text_field(3, recipient_ip@),
            varint_field(4, recipient_port as u64),
        );
        assert(body@ =~= fields_bytes(
            seq![
                text_field(1, request_id@),
                varint_field(2, enr_seq),
                text_field(3, recipient_ip@),
                varint_field(4, recipient_port as u64),
            ],
        ));
    }
    body
}

/// The body of a search for nodes.
fn encode_find_node(request_id: &str, distances: &[u64]) -> (body: Vec<u8>)
    ensures
        body@ == message_bytes(
            MessageView::FindNode { request_id: request_id@, distances: distances@ },
        ),
        message_sized(MessageView::FindNode { request_id: request_id@, distances: distances@ }),
{
    let mut body: Vec<u8> = Vec::new();
    put_text_field(&mut body, 1, request_id);
    let run = pack(distances);
    put_bytes_field(&mut body, 2, run.as_slice());
    proof {
        lemma_fields_bytes_two(text_field(1, request_id@), bytes_field(2, packed(distances@)));
        assert(body@ =~= fields_bytes(
            seq![text_field(1, request_id@), bytes_field(2, packed(distances@))],
        ));
    }
    body
}

/// The body of a list of nodes.
fn encode_nodes(request_id: &str, total: u64, node_ids: &Vec<String>) -> (body: Vec<u8>)
    ensures
        body@ == message_bytes(
            MessageView::Nodes {
                request_id: request_id@,
                total,
                node_ids: texts_view(node_ids@),
            },
        ),
        message_sized(
            MessageView::Nodes {
                request_id: request_id@,
                total,
                node_ids: texts_view(node_ids@),
            },
        ),
{
    let mut body: Vec<u8> = Vec::new();
    put_text_field(&mut body, 1, request_id);
    put_varint_field(&mut body, 2, total);
    let ghost front = seq![text_field(1, request_id@), varint_field(2, total)];
    proof {
        lemma_fields_bytes_two(text_field(1, request_id@), varint_field(2, total));
        assert(body@ =~= fields_bytes(front));
    }
    put_text_fields(&mut body, 3, node_ids, Ghost(front));
    body
}

/// The body of a message.
pub fn encode_message(message: &Message) -> (body: Vec<u8>)
    ensures
        body@ == message_bytes(message@),
        message_sized(message@),
{
    match message {
        Message::Ping { request_id, enr_seq } => encode_ping(request_id.as_str(), *enr_seq),
        Message::Pong { request_id, enr_seq, recipient_ip, recipient_port } => encode_pong(
            request_id.as_str(),
            *enr_seq,
            recipient_ip.as_str(),
            *recipient_port,
        ),
        Message::FindNode { request_id, distances } => encode_find_node(
            request_id.as_str(),
            distances.as_slice(),
        ),
        Message::Nodes { request_id, total, node_ids } => encode_nodes(
            request_id.as_str(),
            *total,
            node_ids,
        ),
        Message::Random => Vec::new(),
    }
}

/// The slot under which a message travels.
pub fn slot_of_message(message: &Message) -> (slot: u32)
    ensures
        slot == message_slot(message@),
        1 <= slot < FIELD_NUMBER_END,
{
    match message {
        Message::Ping { .. } => PING_SLOT,
        Message::Pong { .. } => PONG_SLOT,
        Message::FindNode { .. } => FIND_NODE_SLOT,
        Message::Nodes { .. } => NODES_SLOT,
        Message::Random => RANDOM_SLOT,
    }
}

/// The entries of a nonce as the words that travel.
pub fn words_of_nonce(nonce: &[u8]) -> (words: Vec<u64>)
    ensures
        words@ == nonce_words(nonce@),
{
    let mut words: Vec<u64> = Vec::new();
    let mut i: usize = 0;
    while i < nonce.len()
        invariant
            i <= nonce@.len(),
            words@ == nonce_words(nonce@.take(i as int)),
        decreases nonce@.len() - i,
    {
        words.push(nonce[i] as u64);
        proof {
            assert(words@ =~= nonce_words(nonce@.take(i + 1)));
        }
        i += 1;
    }
    proof {
        assert(nonce@.take(i as int) =~= nonce@);
    }
    words
}

/// The body of the start or the shutdown of a node.
fn encode_node_id(node_id: &str) -> (body: Vec<u8>)
    ensures
        body@ == fields_bytes(lifecycle_fields(node_id@)),
        fields_ok(lifecycle_fields(node_id@)),
{
    let mut body: Vec<u8> = Vec::new();
    put_text_field(&mut body, 1, node_id);
    proof {
        lemma_fields_bytes_one(text_field(1, node_id@));
        assert(body@ =~= fields_bytes(lifecycle_fields(node_id@)));
    }
    body
}

/// The body of an ordinary message.
fn encode_ordinary(sender: &str, recipient: &str, payload: &Message) -> (body: Vec<u8>)
    ensures
        body@ == fields_bytes(ordinary_fields(sender@, recipient@, payload@)),
        fields_ok(ordinary_fields(sender@, recipient@, payload@)),
        message_sized(payload@),
{
    let mut body: Vec<u8> = Vec::new();
    put_text_field(&mut body, 1, sender);
    put_text_field(&mut body, 2, recipient);
    let inner = encode_message(payload);
    put_bytes_field(&mut body, slot_of_message(payload), inner.as_slice());
    proof {
        lemma_fields_bytes_three(
            text_field(1, sender@),
            text_field(2, recipient@),
            bytes_field(message_slot(payload@), message_bytes(payload@)),
        );
        assert(body@ =~= fields_bytes(
            seq![
                text_field(1, sender@),
                text_field(2, recipient@),
                bytes_field(message_slot(payload@), message_bytes(payload@)),
            ],
        ));
    }
    body
}

/// The body of a challenge.
fn encode_whoareyou(sender: &str, recipient: &str, id_nonce: &[u8], enr_seq: u64) -> (body: Vec<
    u8,
>)
    ensures
        body@ == fields_bytes(whoareyou_fields(sender@, recipient@, id_nonce@, enr_seq)),
        fields_ok(whoareyou_fields(sender@, recipient@, id_nonce@, enr_seq)),
{
    let mut body: Vec<u8> = Vec::new();
    put_text_field(&mut body, 1, sender);
    put_text_field(&mut body, 2, recipient);
    let words = words_of_nonce(id_nonce);
    let run = pack(words.as_slice());
    put_bytes_field(&mut body, 3, run.as_slice());
    put_varint_field(&mut body, 4, enr_seq);
    proof {
        lemma_fields_bytes_four(
            text_field(1, sender@),
            text_field(2, recipient@),
            bytes_field(3, packed(nonce_words(id_nonce@))),
            varint_field(4, enr_seq),
        );
        assert(body@ =~= fields_bytes(
            seq![
                text_field(1, sender@),
                text_field(2, recipient@),
                bytes_field(3, packed(nonce_words(id_nonce@))),
                varint_field(4, enr_seq),
            ],
        ));
    }
    body
}

/// The body of a handshake message.
fn encode_handshake(
    sender: &str,
    recipient: &str,
    updated_record: Option<u64>,
    payload: &Message,
) -> (body: Vec<u8>)
    ensures
        body@ == fields_bytes(handshake_fields(sender@, recipient@, updated_record, payload@)),
        fields_ok(handshake_fields(sender@, recipient@, updated_record, payload@)),
        message_sized(payload@),
{
    let mut body: Vec<u8> = Vec::new();
    put_text_field(&mut body, 1, sender);
    put_text_field(&mut body, 2, recipient);
    let inner = encode_message(payload);
    put_bytes_field(&mut body, slot_of_message(payload), inner.as_slice());
    let ghost front = seq![
        text_field(1, sender@),
        text_field(2, recipient@),
        bytes_field(message_slot(payload@), message_bytes(payload@)),
    ];
    proof {
        lemma_fields_bytes_three(
            text_field(1, sender@),
            text_field(2, recipient@),
            bytes_field(message_slot(payload@), message_bytes(payload@)),
        );
        assert(body@ =~= fields_bytes(front));
        assert(front + record_fields(None) =~= front);
    }
    match updated_record {
        Some(enr_seq) => {
            let mut record: Vec<u8> = Vec::new();
            put_varint_field(&mut record, 1, enr_seq);
            put_bytes_field(&mut body, RECORD_SLOT, record.as_slice());
            proof {
                lemma_fields_bytes_one(varint_field(1, enr_seq));
                assert(record@ =~= fields_bytes(seq![varint_field(1, enr_seq)]));
                let last = bytes_field(RECORD_SLOT, record@);
                lemma_fields_bytes_push(front, last);
                assert(front.push(last) =~= front + record_fields(updated_record));
            }
        },
        None => {},
    }
    body
}

/// The constraint of the wire form that an occurrence breaks, or nothing for
/// a valid one.
pub fn kind_fault(kind: &EventKind) -> (fault: Option<EncodingError>)
    ensures
        fault == kind_error(kind@),
{
    match kind {
        EventKind::SendWhoAreYou { id_nonce, .. } => {
            if id_nonce.len() != ID_NONCE_LEN {
                Some(EncodingError::NonceLength)
            } else {
                None
            }
        },
        EventKind::SendHandshakeMessage { payload, .. } => {
            match payload {
                Message::Ping { .. } | Message::FindNode { .. } => None,
                _ => Some(EncodingError::NotARequest),
            }
        },
        _ => None,
    }
}

/// The body of an occurrence, or the constraint of the wire form that it breaks.
pub fn encode_kind(kind: &EventKind) -> (r: Result<Vec<u8>, EncodingError>)
    ensures
        match r {
            Ok(body) => kind_error(kind@) is None && body@ == fields_bytes(kind_fields(kind@))
                && kind_sized(kind@),
            Err(error) => kind_error(kind@) == Some(error),
        },
{
    match kind_fault(kind) {
        Some(fault) => {
            return Err(fault);
        },
        None => {},
    }
    let body = match kind {
        EventKind::NodeStarted { node_id } => encode_node_id(node_id.as_str()),
        EventKind::Shutdown { node_id } => encode_node_id(node_id.as_str()),
        EventKind::SendOrdinaryMessage { sender, recipient, payload } => encode_ordinary(
            sender.as_str(),
            recipient.as_str(),
            payload,
        ),
        EventKind::SendWhoAreYou { sender, recipient, id_nonce, enr_seq } => encode_whoareyou(
            sender.as_str(),
            recipient.as_str(),
            id_nonce.as_slice(),
            *enr_seq,
        ),
        EventKind::SendHandshakeMessage {
            sender,
            recipient,
            updated_record,
            payload,
        } => encode_handshake(sender.as_str(), recipient.as_str(), *updated_record, payload),
    };
    Ok(body)
}

/// The slot under which an occurrence travels.
pub fn slot_of_kind(kind: &EventKind) -> (slot: u32)
    ensures
        slot == kind_slot(kind@),
        1 <= slot < FIELD_NUMBER_END,
{
    match kind {
        EventKind::NodeStarted { .. } => STARTED_SLOT,
        EventKind::Shutdown { .. } => SHUTDOWN_SLOT,
        EventKind::SendOrdinaryMessage { .. } => ORDINARY_SLOT,
        EventKind::SendWhoAreYou { .. } => WHOAREYOU_SLOT,
        EventKind::SendHandshakeMessage { .. } => HANDSHAKE_SLOT,
    }
}

/// The payload of the record of an event: the bytes of the event, without the
/// length in front. It fails where the event breaks a constraint of the wire
/// form, and only there.
pub fn encode_payload(event: &Event) -> (r: Result<Vec<u8>, EncodingError>)
    ensures
        match r {
            Ok(bytes) => encodable(event@) && bytes@ == payload_bytes(event@),
            Err(error) => encoding_error(event@) == Some(error),
        },
{
    if event.timestamp.nanos >= NANOS_PER_SECOND {
        return Err(EncodingError::NanosOutOfRange);
    }
    let inner = match encode_kind(&event.kind) {
        Ok(inner) => inner,
        Err(error) => {
            return Err(error);
        },
    };
    let stamp = encode_timestamp(&event.timestamp);
    let mut bytes: Vec<u8> = Vec::new();
    put_bytes_field(&mut bytes, TIMESTAMP_SLOT, stamp.as_slice());
    put_bytes_field(&mut bytes, slot_of_kind(&event.kind), inner.as_slice());
    proof {
        lemma_fields_bytes_two(
            bytes_field(TIMESTAMP_SLOT, fields_bytes(timestamp_fields(event.timestamp))),
            bytes_field(kind_slot(event.kind@), fields_bytes(kind_fields(event.kind@))),
        );
        assert(bytes@ =~= payload_bytes(event@));
    }
    // The payload is held in memory, so its length fits a length prefix.
    let size: usize = bytes.len();
    proof {
        assert(payload_bytes(event@).len() == size);
    }
    Ok(bytes)
}

} // verus!

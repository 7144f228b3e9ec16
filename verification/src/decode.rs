//! Reading: from the bytes of a body back to the message or the event.

use vstd::prelude::*;
use crate::event::{
    texts_view, Event, EventKind, Message, Timestamp, ID_NONCE_LEN, NANOS_PER_SECOND,
};
use crate::schema::{
    event_of_fields, find_node_of_fields, handshake_of_fields, kind_of_field, kind_of_fields,
    message_of_field, message_of_fields, nodes_of_fields, nonce_of_words, ordinary_of_fields,
    payload_event, ping_of_fields, pong_of_fields, record_of_fields, texts_of_fields,
    timestamp_of_field, timestamp_of_fields, timestamp_of_words, whoareyou_of_fields, word_seconds,
    FIND_NODE_SLOT, HANDSHAKE_SLOT, NODES_SLOT, ORDINARY_SLOT, PING_SLOT, PONG_SLOT, RANDOM_SLOT,
    RECORD_SLOT, SHUTDOWN_SLOT, STARTED_SLOT, TIMESTAMP_SLOT, WHOAREYOU_SLOT,
};
use crate::text::{body_in, field_text, text_in, word_in};
use crate::varint::unpack;
use crate::wire::{fields_view, read_fields, Field, Value};

verus! {

/// The seconds that a 64-bit word stands for.
pub fn word_to_seconds(word: u64) -> (seconds: i64)
    ensures
        seconds == word_seconds(word),
{
    if word <= 0x7fff_ffff_ffff_ffff {
        word as i64
    } else {
        -((u64::MAX - word) as i64) - 1
    }
}

/// The timestamp of the seconds that stand for `word` and of `nanos`
/// nanoseconds, where these stay within one second.
fn timestamp_from_words(word: u64, nanos: u64) -> (r: Option<Timestamp>)
    ensures
        r == timestamp_of_words(word, nanos),
{
    if nanos < NANOS_PER_SECOND as u64 {
        Some(Timestamp { seconds: word_to_seconds(word), nanos: nanos as u32 })
    } else {
        None
    }
}

/// The timestamp that `fields` hold, where a field that is missing counts as
/// zero.
pub fn decode_timestamp(fields: &Vec<Field>) -> (r: Option<Timestamp>)
    ensures
        r == timestamp_of_fields(fields_view(fields@)),
{
    if fields.len() == 0 {
        timestamp_from_words(0, 0)
    } else if fields.len() == 1 {
        match (word_in(&fields[0], 1), word_in(&fields[0], 2)) {
            (Some(seconds), _) => timestamp_from_words(seconds, 0),
            (None, Some(nanos)) => timestamp_from_words(0, nanos),
            (None, None) => None,
        }
    } else if fields.len() == 2 {
        match (word_in(&fields[0], 1), word_in(&fields[1], 2)) {
            (Some(seconds), Some(nanos)) => timestamp_from_words(seconds, nanos),
            _ => None,
        }
    } else {
        None
    }
}

/// The texts of `fields[from..]`, where each of them is a text under `number`.
pub fn texts_in(fields: &Vec<Field>, from: usize, number: u32) -> (r: Option<Vec<String>>)
    requires
        from <= fields@.len(),
    ensures
        match r {
            Some(texts) => texts_of_fields(fields_view(fields@).skip(from as int), number) == Some(
                texts_view(texts@),
            ),
            None => texts_of_fields(fields_view(fields@).skip(from as int), number) is None,
        },
{
    let ghost rest = fields_view(fields@).skip(from as int);
    let mut texts: Vec<String> = Vec::new();
    let mut i: usize = from;
    while i < fields.len()
        invariant
            from <= i <= fields@.len(),
            rest == fields_view(fields@).skip(from as int),
            texts@.len() == i - from,
            forall|j: int|
                0 <= j < i - from ==> (#[trigger] field_text(rest[j], number)) == Some(texts@[j]@),
        decreases fields@.len() - i,
    {
        match text_in(&fields[i], number) {
            Some(text) => {
                proof {
                    assert(rest[i - from] == fields@[i as int]@);
                }
                texts.push(text);
            },
            None => {
                proof {
                    assert(rest[i - from] == fields@[i as int]@);
                    assert(field_text(rest[i - from], number) is None);
                }
                return None;
            },
        }
        i += 1;
    }
    proof {
        assert(Seq::new(rest.len(), |j: int| field_text(rest[j], number).unwrap()) =~= texts_view(
            texts@,
        ));
    }
    Some(texts)
}

/// The ping that `fields` hold.
fn decode_ping(fields: &Vec<Field>) -> (r: Option<Message>)
    ensures
        match r {
            Some(message) => ping_of_fields(fields_view(fields@)) == Some(message@),
            None => ping_of_fields(fields_view(fields@)) is None,
        },
{
    if fields.len() != 2 {
        return None;
    }
    match (text_in(&fields[0], 1), word_in(&fields[1], 2)) {
        (Some(request_id), Some(enr_seq)) => Some(Message::Ping { request_id, enr_seq }),
        _ => None,
    }
}

/// The pong that `fields` hold.
fn decode_pong(fields: &Vec<Field>) -> (r: Option<Message>)
    ensures
        match r {
            Some(message) => pong_of_fields(fields_view(fields@)) == Some(message@),
            None => pong_of_fields(fields_view(fields@)) is None,
        },
{
    if fields.len() != 4 {
        return None;
    }
    match (
        text_in(&fields[0], 1),
        word_in(&fields[1], 2),
        text_in(&fields[2], 3),
        word_in(&fields[3], 4),
    ) {
        (Some(request_id), Some(enr_seq), Some(recipient_ip), Some(port)) => {
            if port <= 0xffff_ffff {
                Some(
                    Message::Pong {
                        request_id,
                        enr_seq,
                        recipient_ip,
                        recipient_port: port as u32,
                    },
                )
            } else {
                None
            }
        },
        _ => None,
    }
}

/// The search for nodes that `fields` hold.
fn decode_find_node(fields: &Vec<Field>) -> (r: Option<Message>)
    ensures
        match r {
            Some(message) => find_node_of_fields(fields_view(fields@)) == Some(message@),
            None => find_node_of_fields(fields_view(fields@)) is None,
        },
{
    if fields.len() != 2 {
        return None;
    }
    match (text_in(&fields[0], 1), body_in(&fields[1], 2)) {
        (Some(request_id), Some(run)) => match unpack(run) {
            Some(distances) => Some(Message::FindNode { request_id, distances }),
            None => None,
        },
        _ => None,
    }
}

/// The list of nodes that `fields` hold.
fn decode_nodes(fields: &Vec<Field>) -> (r: Option<Message>)
    ensures
        match r {
            Some(message) => nodes_of_fields(fields_view(fields@)) == Some(message@),
            None => nodes_of_fields(fields_view(fields@)) is None,
        },
{
    if fields.len() < 2 {
        return None;
    }
    match (text_in(&fields[0], 1), word_in(&fields[1], 2), texts_in(fields, 2, 3)) {
        (Some(request_id), Some(total), Some(node_ids)) => Some(
            Message::Nodes { request_id, total, node_ids },
        ),
        _ => None,
    }
}

/// The message that `fields` hold, read as the kind that travels under `slot`.
pub fn decode_message(slot: u32, fields: &Vec<Field>) -> (r: Option<Message>)
    ensures
        match r {
            Some(message) => message_of_fields(slot, fields_view(fields@)) == Some(message@),
            None => message_of_fields(slot, fields_view(fields@)) is None,
        },
{
    if slot == PING_SLOT {
        decode_ping(fields)
    } else if slot == PONG_SLOT {
        decode_pong(fields)
    } else if slot == FIND_NODE_SLOT {
        decode_find_node(fields)
    } else if slot == NODES_SLOT {
        decode_nodes(fields)
    } else if slot == RANDOM_SLOT && fields.len() == 0 {
        Some(Message::Random)
    } else {
        None
    }
}

/// The message that `field` holds.
pub fn message_in(field: &Field) -> (r: Option<Message>)
    ensures
        match r {
            Some(message) => message_of_field(field@) == Some(message@),
            None => message_of_field(field@) is None,
        },
{
    reveal(message_of_field);
    match &field.value {
        Value::Bytes(body) => match read_fields(body.as_slice()) {
            Some(inner) => decode_message(field.number, &inner),
            None => None,
        },
        Value::Varint(_) => None,
    }
}

/// The nonce that `words` stand for.
pub fn nonce_from_words(words: &Vec<u64>) -> (r: Option<Vec<u8>>)
    ensures
        match r {
            Some(nonce) => nonce_of_words(words@) == Some(nonce@),
            None => nonce_of_words(words@) is None,
        },
{
    if words.len() != ID_NONCE_LEN {
        return None;
    }
    let mut nonce: Vec<u8> = Vec::new();
    let mut i: usize = 0;
    while i < words.len()
        invariant
            i <= words@.len(),
            nonce@.len() == i,
            forall|j: int| 0 <= j < i ==> #[trigger] words@[j] <= u8::MAX,
            forall|j: int| 0 <= j < i ==> nonce@[j] == #[trigger] words@[j] as u8,
        decreases words@.len() - i,
    {
        let word: u64 = words[i];
        if word > 255 {
            return None;
        }
        nonce.push(word as u8);
        i += 1;
    }
    proof {
        assert(Seq::new(words@.len(), |j: int| words@[j] as u8) =~= nonce@);
    }
    Some(nonce)
}

/// The updated record that `fields[from..]` hold: none, or one.
pub fn record_in(fields: &Vec<Field>, from: usize) -> (r: Option<Option<u64>>)
    requires
        from <= fields@.len(),
    ensures
        r == record_of_fields(fields_view(fields@).skip(from as int)),
{
    let ghost rest = fields_view(fields@).skip(from as int);
    if fields.len() == from {
        return Some(None);
    }
    if fields.len() - from != 1 {
        return None;
    }
    proof {
        assert(rest[0] == fields@[from as int]@);
    }
    match body_in(&fields[from], RECORD_SLOT) {
        Some(body) => match read_fields(body) {
            Some(inner) => {
                if inner.len() == 1 {
                    match word_in(&inner[0], 1) {
                        Some(enr_seq) => Some(Some(enr_seq)),
                        None => None,
                    }
                } else {
                    None
                }
            },
            None => None,
        },
        None => None,
    }
}

/// The start or the shutdown of a node that `fields` hold.
fn decode_lifecycle(slot: u32, fields: &Vec<Field>) -> (r: Option<EventKind>)
    requires
        slot == STARTED_SLOT || slot == SHUTDOWN_SLOT,
    ensures
        match r {
            Some(kind) => kind_of_fields(slot, fields_view(fields@)) == Some(kind@),
            None => kind_of_fields(slot, fields_view(fields@)) is None,
        },
{
    if fields.len() != 1 {
        return None;
    }
    match text_in(&fields[0], 1) {
        Some(node_id) => {
            if slot == STARTED_SLOT {
                Some(EventKind::NodeStarted { node_id })
            } else {
                Some(EventKind::Shutdown { node_id })
            }
        },
        None => None,
    }
}

/// The ordinary message that `fields` hold.
fn decode_ordinary(fields: &Vec<Field>) -> (r: Option<EventKind>)
    ensures
        match r {
            Some(kind) => ordinary_of_fields(fields_view(fields@)) == Some(kind@),
            None => ordinary_of_fields(fields_view(fields@)) is None,
        },
{
    if fields.len() != 3 {
        return None;
    }
    match (text_in(&fields[0], 1), text_in(&fields[1], 2), message_in(&fields[2])) {
        (Some(sender), Some(recipient), Some(payload)) => Some(
            EventKind::SendOrdinaryMessage { sender, recipient, payload },
        ),
        _ => None,
    }
}

/// The challenge that `fields` hold.
fn decode_whoareyou(fields: &Vec<Field>) -> (r: Option<EventKind>)
    ensures
        match r {
            Some(kind) => whoareyou_of_fields(fields_view(fields@)) == Some(kind@),
            None => whoareyou_of_fields(fields_view(fields@)) is None,
        },
{
    if fields.len() != 4 {
        return None;
    }
    match (
        text_in(&fields[0], 1),
        text_in(&fields[1], 2),
        body_in(&fields[2], 3),
        word_in(&fields[3], 4),
    ) {
        (Some(sender), Some(recipient), Some(run), Some(enr_seq)) => match unpack(run) {
            Some(words) => match nonce_from_words(&words) {
                Some(id_nonce) => Some(
                    EventKind::SendWhoAreYou { sender, recipient, id_nonce, enr_seq },
                ),
                None => None,
            },
            None => None,
        },
        _ => None,
    }
}

/// The handshake message that `fields` hold.
fn decode_handshake(fields: &Vec<Field>) -> (r: Option<EventKind>)
    ensures
        match r {
            Some(kind) => handshake_of_fields(fields_view(fields@)) == Some(kind@),
            None => handshake_of_fields(fields_view(fields@)) is None,
        },
{
    if fields.len() < 3 {
        return None;
    }
    match (
        text_in(&fields[0], 1),
        text_in(&fields[1], 2),
        message_in(&fields[2]),
        record_in(fields, 3),
    ) {
        (Some(sender), Some(recipient), Some(payload), Some(updated_record)) => {
            match payload {
                Message::Ping { .. } | Message::FindNode { .. } => Some(
                    EventKind::SendHandshakeMessage { sender, recipient, updated_record, payload },
                ),
                _ => None,
            }
        },
        _ => None,
    }
}

/// The occurrence that `fields` hold, read as the kind that travels under `slot`.
pub fn decode_kind(slot: u32, fields: &Vec<Field>) -> (r: Option<EventKind>)
    ensures
        match r {
            Some(kind) => kind_of_fields(slot, fields_view(fields@)) == Some(kind@),
            None => kind_of_fields(slot, fields_view(fields@)) is None,
        },
{
    if slot == STARTED_SLOT || slot == SHUTDOWN_SLOT {
        decode_lifecycle(slot, fields)
    } else if slot == ORDINARY_SLOT {
        decode_ordinary(fields)
    } else if slot == WHOAREYOU_SLOT {
        decode_whoareyou(fields)
    } else if slot == HANDSHAKE_SLOT {
        decode_handshake(fields)
    } else {
        None
    }
}

/// The timestamp that `field` holds.
fn timestamp_in(field: &Field) -> (r: Option<Timestamp>)
    ensures
        r == timestamp_of_field(field@),
{
    reveal(timestamp_of_field);
    match body_in(field, TIMESTAMP_SLOT) {
        Some(stamp) => match read_fields(stamp) {
            Some(inner) => decode_timestamp(&inner),
            None => None,
        },
        None => None,
    }
}

/// The occurrence that `field` holds.
fn kind_in(field: &Field) -> (r: Option<EventKind>)
    ensures
        match r {
            Some(kind) => kind_of_field(field@) == Some(kind@),
            None => kind_of_field(field@) is None,
        },
{
    reveal(kind_of_field);
    match &field.value {
        Value::Bytes(body) => match read_fields(body.as_slice()) {
            Some(inner) => decode_kind(field.number, &inner),
            None => None,
        },
        Value::Varint(_) => None,
    }
}

/// The event that `fields` hold.
fn decode_event(fields: &Vec<Field>) -> (r: Option<Event>)
    ensures
        match r {
            Some(event) => event_of_fields(fields_view(fields@)) == Some(event@),
            None => event_of_fields(fields_view(fields@)) is None,
        },
{
    if fields.len() != 2 {
        return None;
    }
    match (timestamp_in(&fields[0]), kind_in(&fields[1])) {
        (Some(timestamp), Some(kind)) => Some(Event { timestamp, kind }),
        _ => None,
    }
}

/// The event that the payload of a record holds, or nothing where the bytes
/// are no event.
pub fn decode_payload(bytes: &[u8]) -> (r: Option<Event>)
    ensures
        match r {
            Some(event) => payload_event(bytes@) == Some(event@),
            None => payload_event(bytes@) is None,
        },
{
    match read_fields(bytes) {
        Some(fields) => decode_event(&fields),
        None => None,
    }
}

} // verus!

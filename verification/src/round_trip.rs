//! Reading gives back what was written: the proofs, from a single field up to a
//! whole event.

use vstd::prelude::*;
use crate::event::{EventKindView, EventView, MessageView, Timestamp, ID_NONCE_LEN};
use crate::schema::{
    event_fields, event_of_fields, event_sized, handshake_fields, handshake_of_fields, kind_fields,
    kind_of_field, kind_of_fields, kind_sized, kind_slot, message_bytes, message_fields,
    message_of_field, message_of_fields, message_sized, message_slot, nonce_of_words, nonce_words,
    ordinary_fields, ordinary_of_fields, payload_bytes, payload_event, record_fields,
    record_of_fields, seconds_word, text_fields, texts_of_fields, timestamp_fields,
    timestamp_of_field, timestamp_of_fields, whoareyou_fields, whoareyou_of_fields, word_seconds,
    TIMESTAMP_SLOT,
};
use crate::text::{field_text, lemma_field_text_written};
use crate::varint::lemma_unpacked_written;
use crate::wire::{
    bytes_field, fields_bytes, fields_ok, lemma_parse_fields_written, parse_fields, varint_field,
    WireField, WireValue,
};

verus! {

/// The seconds of a timestamp are read back from their word.
pub proof fn lemma_seconds_round_trip(seconds: i64)
    ensures
        word_seconds(seconds_word(seconds)) == seconds,
{
}

/// A valid timestamp is read back from its fields.
pub proof fn lemma_timestamp_round_trip(timestamp: Timestamp)
    requires
        timestamp.valid(),
    ensures
        timestamp_of_fields(timestamp_fields(timestamp)) == Some(timestamp),
        fields_ok(timestamp_fields(timestamp)),
{
    lemma_seconds_round_trip(timestamp.seconds);
    let fields = timestamp_fields(timestamp);
    if timestamp.seconds != 0 && timestamp.nanos != 0 {
        assert(fields =~= seq![
            varint_field(1, seconds_word(timestamp.seconds)),
            varint_field(2, timestamp.nanos as u64),
        ]);
    } else if timestamp.seconds != 0 {
        assert(fields =~= seq![varint_field(1, seconds_word(timestamp.seconds))]);
    } else if timestamp.nanos != 0 {
        assert(fields =~= seq![varint_field(2, timestamp.nanos as u64)]);
    } else {
        assert(fields =~= Seq::<WireField>::empty());
    }
}

/// A list of texts is read back from its fields.
pub proof fn lemma_texts_round_trip(number: u32, texts: Seq<Seq<char>>)
    ensures
        texts_of_fields(text_fields(number, texts), number) == Some(texts),
{
    let fields = text_fields(number, texts);
    assert forall|i: int| 0 <= i < fields.len() implies (#[trigger] field_text(
        fields[i],
        number,
    )) == Some(texts[i]) by {
        lemma_field_text_written(number, texts[i]);
    }
    assert(Seq::new(fields.len(), |i: int| field_text(fields[i], number).unwrap()) =~= texts);
}

/// A message is read back from its fields.
pub proof fn lemma_message_round_trip(message: MessageView)
    ensures
        message_of_fields(message_slot(message), message_fields(message)) == Some(message),
{
    let fields = message_fields(message);
    match message {
        MessageView::Ping { request_id, enr_seq } => {
            lemma_field_text_written(1, request_id);
        },
        MessageView::Pong { request_id, enr_seq, recipient_ip, recipient_port } => {
            lemma_field_text_written(1, request_id);
            lemma_field_text_written(3, recipient_ip);
        },
        MessageView::FindNode { request_id, distances } => {
            lemma_field_text_written(1, request_id);
            lemma_unpacked_written(distances);
        },
        MessageView::Nodes { request_id, total, node_ids } => {
            lemma_field_text_written(1, request_id);
            lemma_texts_round_trip(3, node_ids);
            assert(fields.skip(2) =~= text_fields(3, node_ids));
        },
        MessageView::Random => {},
    }
}

/// A message is read back from the field that carries it.
pub proof fn lemma_message_field_round_trip(message: MessageView)
    requires
        message_sized(message),
    ensures
        message_of_field(bytes_field(message_slot(message), message_bytes(message))) == Some(
            message,
        ),
{
    reveal(message_of_field);
    lemma_parse_fields_written(message_fields(message));
    lemma_message_round_trip(message);
}

/// A nonce of the fixed length is read back from its words.
pub proof fn lemma_nonce_round_trip(nonce: Seq<u8>)
    requires
        nonce.len() == ID_NONCE_LEN,
    ensures
        nonce_of_words(nonce_words(nonce)) == Some(nonce),
{
    let words = nonce_words(nonce);
    assert(Seq::new(words.len(), |i: int| words[i] as u8) =~= nonce);
}

/// An updated record, or its absence, is read back from its fields.
pub proof fn lemma_record_round_trip(updated_record: Option<u64>)
    ensures
        record_of_fields(record_fields(updated_record)) == Some(updated_record),
{
    match updated_record {
        Some(enr_seq) => {
            let inner = seq![varint_field(1, enr_seq)];
            assert(fields_ok(inner));
            lemma_parse_fields_written(inner);
        },
        None => {},
    }
}

/// An ordinary message is read back from its fields.
proof fn lemma_ordinary_round_trip(sender: Seq<char>, recipient: Seq<char>, payload: MessageView)
    requires
        message_sized(payload),
    ensures
        ordinary_of_fields(ordinary_fields(sender, recipient, payload)) == Some(
            EventKindView::SendOrdinaryMessage { sender, recipient, payload },
        ),
{
    lemma_field_text_written(1, sender);
    lemma_field_text_written(2, recipient);
    lemma_message_field_round_trip(payload);
}

/// A challenge is read back from its fields.
proof fn lemma_whoareyou_round_trip(
    sender: Seq<char>,
    recipient: Seq<char>,
    id_nonce: Seq<u8>,
    enr_seq: u64,
)
    requires
        id_nonce.len() == ID_NONCE_LEN,
    ensures
        whoareyou_of_fields(whoareyou_fields(sender, recipient, id_nonce, enr_seq)) == Some(
            EventKindView::SendWhoAreYou { sender, recipient, id_nonce, enr_seq },
        ),
{
    lemma_field_text_written(1, sender);
    lemma_field_text_written(2, recipient);
    lemma_unpacked_written(nonce_words(id_nonce));
    lemma_nonce_round_trip(id_nonce);
}

/// A handshake message is read back from its fields.
proof fn lemma_handshake_round_trip(
    sender: Seq<char>,
    recipient: Seq<char>,
    updated_record: Option<u64>,
    payload: MessageView,
)
    requires
        payload.is_request(),
        message_sized(payload),
    ensures
        handshake_of_fields(handshake_fields(sender, recipient, updated_record, payload)) == Some(
            EventKindView::SendHandshakeMessage { sender, recipient, updated_record, payload },
        ),
{
    let front = ordinary_fields(sender, recipient, payload);
    let fields = handshake_fields(sender, recipient, updated_record, payload);
    lemma_field_text_written(1, sender);
    lemma_field_text_written(2, recipient);
    lemma_message_field_round_trip(payload);
    lemma_record_round_trip(updated_record);
    assert(fields.len() >= 3);
    assert(fields[0] == front[0]);
    assert(fields[1] == front[1]);
    assert(fields[2] == front[2]);
    assert(fields.skip(3) =~= record_fields(updated_record));
}

/// A valid occurrence is read back from its fields.
pub proof fn lemma_kind_round_trip(kind: EventKindView)
    requires
        kind.valid(),
        kind_sized(kind),
    ensures
        kind_of_fields(kind_slot(kind), kind_fields(kind)) == Some(kind),
{
    match kind {
        EventKindView::NodeStarted { node_id } => {
            lemma_field_text_written(1, node_id);
        },
        EventKindView::Shutdown { node_id } => {
            lemma_field_text_written(1, node_id);
        },
        EventKindView::SendOrdinaryMessage { sender, recipient, payload } => {
            lemma_ordinary_round_trip(sender, recipient, payload);
        },
        EventKindView::SendWhoAreYou { sender, recipient, id_nonce, enr_seq } => {
            lemma_whoareyou_round_trip(sender, recipient, id_nonce, enr_seq);
        },
        EventKindView::SendHandshakeMessage { sender, recipient, updated_record, payload } => {
            lemma_handshake_round_trip(sender, recipient, updated_record, payload);
        },
    }
}

/// A valid timestamp is read back from the field that carries it.
pub proof fn lemma_timestamp_field_round_trip(timestamp: Timestamp)
    requires
        timestamp.valid(),
    ensures
        timestamp_of_field(
            bytes_field(TIMESTAMP_SLOT, fields_bytes(timestamp_fields(timestamp))),
        ) == Some(timestamp),
{
    reveal(timestamp_of_field);
    lemma_timestamp_round_trip(timestamp);
    lemma_parse_fields_written(timestamp_fields(timestamp));
}

/// A valid occurrence is read back from the field that carries it.
pub proof fn lemma_kind_field_round_trip(kind: EventKindView)
    requires
        kind.valid(),
        kind_sized(kind),
    ensures
        kind_of_field(bytes_field(kind_slot(kind), fields_bytes(kind_fields(kind)))) == Some(kind),
{
    reveal(kind_of_field);
    lemma_parse_fields_written(kind_fields(kind));
    lemma_kind_round_trip(kind);
}

/// A timestamp and an occurrence are read back from the two fields of an event.
proof fn lemma_event_of_two_fields(
    timestamp: Timestamp,
    kind: EventKindView,
    first: WireField,
    second: WireField,
)
    requires
        timestamp_of_field(first) == Some(timestamp),
        kind_of_field(second) == Some(kind),
    ensures
        event_of_fields(seq![first, second]) == Some(EventView { timestamp, kind }),
{
    let fields = seq![first, second];
    assert(fields.len() == 2);
    assert(fields[0] == first);
    assert(fields[1] == second);
}

/// A valid event is read back from its fields.
pub proof fn lemma_event_fields_round_trip(event: EventView)
    requires
        event.valid(),
        kind_sized(event.kind),
    ensures
        event_of_fields(event_fields(event)) == Some(event),
{
    lemma_timestamp_field_round_trip(event.timestamp);
    lemma_kind_field_round_trip(event.kind);
    lemma_event_of_two_fields(
        event.timestamp,
        event.kind,
        bytes_field(TIMESTAMP_SLOT, fields_bytes(timestamp_fields(event.timestamp))),
        bytes_field(kind_slot(event.kind), fields_bytes(kind_fields(event.kind))),
    );
}

/// A valid event is read back from its payload.
pub proof fn lemma_event_round_trip(event: EventView)
    requires
        event.valid(),
        event_sized(event),
    ensures
        payload_event(payload_bytes(event)) == Some(event),
{
    lemma_parse_fields_written(event_fields(event));
    lemma_event_fields_round_trip(event);
}

/// An occurrence that is read from fields meets the constraints of the wire
/// form.
pub proof fn lemma_read_kind_is_valid(slot: u32, fields: Seq<WireField>)
    ensures
        match kind_of_fields(slot, fields) {
            Some(kind) => kind.valid(),
            None => true,
        },
{
}

/// An event that is read from a payload meets the constraints of the wire
/// form.
pub proof fn lemma_read_event_is_valid(bytes: Seq<u8>)
    ensures
        match payload_event(bytes) {
            Some(event) => event.valid(),
            None => true,
        },
{
    reveal(timestamp_of_field);
    reveal(kind_of_field);
    match parse_fields(bytes) {
        Some(fields) => {
            if fields.len() == 2 {
                match fields[1].value {
                    WireValue::Bytes(body) => {
                        match parse_fields(body) {
                            Some(inner) => {
                                lemma_read_kind_is_valid(fields[1].number, inner);
                            },
                            None => {},
                        }
                    },
                    WireValue::Varint(_) => {},
                }
            }
        },
        None => {},
    }
}

} // verus!

//! The layout of a record: which fields each message and each event is made of,
//! and how the fields of a body are read back into the value they came from.
//!
//! A body is a run of fields, always in this order. Only a timestamp leaves a
//! field out: one whose value is zero, as the timestamp of protocol buffers
//! does. A reader takes a field that is left out as zero.
//!
//! | body | fields |
//! |---|---|
//! | event | 1 timestamp, then one of: 2 started, 3 shutdown, 4 ordinary message, 5 challenge, 6 handshake message |
//! | timestamp | 1 seconds, 2 nanoseconds |
//! | started, shutdown | 1 node |
//! | ordinary message | 1 sender, 2 recipient, then one of: 3 ping, 4 pong, 5 search for nodes, 6 list of nodes, 7 random packet |
//! | challenge | 1 sender, 2 recipient, 3 nonce (a packed run), 4 sequence number |
//! | handshake message | 1 sender, 2 recipient, one of: 3 ping, 5 search for nodes, then 8 updated record where there is one |
//! | ping | 1 request, 2 sequence number |
//! | pong | 1 request, 2 sequence number, 3 address, 4 port |
//! | search for nodes | 1 request, 2 distances (a packed run) |
//! | list of nodes | 1 request, 2 total, then 3 node, once for each node |
//! | updated record | 1 sequence number |
//!
//! Numbers travel as varints, texts as their UTF-8 bytes, and a body inside a
//! body as a length-prefixed field.

use vstd::prelude::*;
use crate::event::{
    EventKindView, EventView, MessageView, Timestamp, ID_NONCE_LEN, NANOS_PER_SECOND,
};
use crate::text::{field_body, field_text, field_word, text_field};
use crate::varint::{packed, unpacked};
use crate::wire::{
    bytes_field, fields_bytes, fields_ok, parse_fields, varint_field, WireField, WireValue,
};

verus! {

/// The field of an event that holds its timestamp.
pub const TIMESTAMP_SLOT: u32 = 1;

/// The field of an event that holds the start of a node.
pub const STARTED_SLOT: u32 = 2;

/// The field of an event that holds the shutdown of a node.
pub const SHUTDOWN_SLOT: u32 = 3;

/// The field of an event that holds an ordinary message.
pub const ORDINARY_SLOT: u32 = 4;

/// The field of an event that holds a challenge.
pub const WHOAREYOU_SLOT: u32 = 5;

/// The field of an event that holds a handshake message.
pub const HANDSHAKE_SLOT: u32 = 6;

/// The field of a sent message that holds a ping.
pub const PING_SLOT: u32 = 3;

/// The field of a sent message that holds a pong.
pub const PONG_SLOT: u32 = 4;

/// The field of a sent message that holds a search for nodes.
pub const FIND_NODE_SLOT: u32 = 5;

/// The field of a sent message that holds a list of nodes.
pub const NODES_SLOT: u32 = 6;

/// The field of a sent message that holds a random packet.
pub const RANDOM_SLOT: u32 = 7;

/// The field of a handshake message that holds the updated record.
pub const RECORD_SLOT: u32 = 8;

/// The seconds of a timestamp as the 64-bit word that stands for them on the
/// wire: two's complement.
pub open spec fn seconds_word(seconds: i64) -> u64 {
    if seconds >= 0 {
        seconds as u64
    } else {
        (seconds + 0x1_0000_0000_0000_0000) as u64
    }
}

/// The seconds that a 64-bit word stands for.
pub open spec fn word_seconds(word: u64) -> i64 {
    if word <= i64::MAX {
        word as i64
    } else {
        (word - 0x1_0000_0000_0000_0000) as i64
    }
}

/// The field of the seconds of a timestamp: none where they are zero.
pub open spec fn seconds_fields(seconds: i64) -> Seq<WireField> {
    if seconds != 0 {
        seq![varint_field(1, seconds_word(seconds))]
    } else {
        Seq::empty()
    }
}

/// The field of the nanoseconds of a timestamp: none where they are zero.
pub open spec fn nanos_fields(nanos: u32) -> Seq<WireField> {
    if nanos != 0 {
        seq![varint_field(2, nanos as u64)]
    } else {
        Seq::empty()
    }
}

/// The fields of a timestamp: its seconds, then its nanoseconds, each of them
/// only where it is not zero.
pub open spec fn timestamp_fields(timestamp: Timestamp) -> Seq<WireField> {
    seconds_fields(timestamp.seconds) + nanos_fields(timestamp.nanos)
}

/// The timestamp of the seconds that stand for `word` and of `nanos`
/// nanoseconds, where these stay within one second.
pub open spec fn timestamp_of_words(word: u64, nanos: u64) -> Option<Timestamp> {
    if nanos < NANOS_PER_SECOND {
        Some(Timestamp { seconds: word_seconds(word), nanos: nanos as u32 })
    } else {
        None
    }
}

/// The timestamp that `fields` hold: the seconds, then the nanoseconds, where
/// a field that is missing counts as zero.
pub open spec fn timestamp_of_fields(fields: Seq<WireField>) -> Option<Timestamp> {
    if fields.len() == 0 {
        timestamp_of_words(0, 0)
    } else if fields.len() == 1 {
        match (field_word(fields[0], 1), field_word(fields[0], 2)) {
            (Some(seconds), _) => timestamp_of_words(seconds, 0),
            (None, Some(nanos)) => timestamp_of_words(0, nanos),
            (None, None) => None,
        }
    } else if fields.len() == 2 {
        match (field_word(fields[0], 1), field_word(fields[1], 2)) {
            (Some(seconds), Some(nanos)) => timestamp_of_words(seconds, nanos),
            _ => None,
        }
    } else {
        None
    }
}

/// The field under which a message travels.
pub open spec fn message_slot(message: MessageView) -> u32 {
    match message {
        MessageView::Ping { .. } => PING_SLOT,
        MessageView::Pong { .. } => PONG_SLOT,
        MessageView::FindNode { .. } => FIND_NODE_SLOT,
        MessageView::Nodes { .. } => NODES_SLOT,
        MessageView::Random => RANDOM_SLOT,
    }
}

/// One field for each text, all under `number`, in the order of the texts.
pub open spec fn text_fields(number: u32, texts: Seq<Seq<char>>) -> Seq<WireField> {
    Seq::new(texts.len(), |i: int| text_field(number, texts[i]))
}

/// The texts of `fields`, where each of them is a text under `number`.
pub open spec fn texts_of_fields(fields: Seq<WireField>, number: u32) -> Option<Seq<Seq<char>>> {
    if forall|i: int| 0 <= i < fields.len() ==> (#[trigger] field_text(fields[i], number)) is Some {
        Some(Seq::new(fields.len(), |i: int| field_text(fields[i], number).unwrap()))
    } else {
        None
    }
}

/// The fields of a message.
pub open spec fn message_fields(message: MessageView) -> Seq<WireField> {
    match message {
        MessageView::Ping { request_id, enr_seq } => seq![
            text_field(1, request_id),
            varint_field(2, enr_seq),
        ],
        MessageView::Pong { request_id, enr_seq, recipient_ip, recipient_port } => seq![
            text_field(1, request_id),
            varint_field(2, enr_seq),
            text_field(3, recipient_ip),
            varint_field(4, recipient_port as u64),
        ],
        MessageView::FindNode { request_id, distances } => seq![
            text_field(1, request_id),
            bytes_field(2, packed(distances)),
        ],
        MessageView::Nodes { request_id, total, node_ids } => seq![
            text_field(1, request_id),
            varint_field(2, total),
        ] + text_fields(3, node_ids),
        MessageView::Random => Seq::empty(),
    }
}

/// The bytes of a message.
pub open spec fn message_bytes(message: MessageView) -> Seq<u8> {
    fields_bytes(message_fields(message))
}

/// The ping that `fields` hold.
pub open spec fn ping_of_fields(fields: Seq<WireField>) -> Option<MessageView> {
    if fields.len() == 2 {
        match (field_text(fields[0], 1), field_word(fields[1], 2)) {
            (Some(request_id), Some(enr_seq)) => Some(MessageView::Ping { request_id, enr_seq }),
            _ => None,
        }
    } else {
        None
    }
}

/// The pong that `fields` hold.
pub open spec fn pong_of_fields(fields: Seq<WireField>) -> Option<MessageView> {
    if fields.len() == 4 {
        match (
            field_text(fields[0], 1),
            field_word(fields[1], 2),
            field_text(fields[2], 3),
            field_word(fields[3], 4),
        ) {
            (Some(request_id), Some(enr_seq), Some(recipient_ip), Some(port)) => if port
                <= u32::MAX {
                Some(
                    MessageView::Pong {
                        request_id,
                        enr_seq,
                        recipient_ip,
                        recipient_port: port as u32,
                    },
                )
            } else {
                None
            },
            _ => None,
        }
    } else {
        None
    }
}

/// The search for nodes that `fields` hold.
pub open spec fn find_node_of_fields(fields: Seq<WireField>) -> Option<MessageView> {
    if fields.len() == 2 {
        match (field_text(fields[0], 1), field_body(fields[1], 2)) {
            (Some(request_id), Some(run)) => match unpacked(run) {
                Some(distances) => Some(MessageView::FindNode { request_id, distances }),
                None => None,
            },
            _ => None,
        }
    } else {
        None
    }
}

/// The list of nodes that `fields` hold.
pub open spec fn nodes_of_fields(fields: Seq<WireField>) -> Option<MessageView> {
    if fields.len() >= 2 {
        match (
            field_text(fields[0], 1),
            field_word(fields[1], 2),
            texts_of_fields(fields.skip(2), 3),
        ) {
            (Some(request_id), Some(total), Some(node_ids)) => Some(
                MessageView::Nodes { request_id, total, node_ids },
            ),
            _ => None,
        }
    } else {
        None
    }
}

/// The message that `fields` hold, read as the kind that travels under `slot`.
pub open spec fn message_of_fields(slot: u32, fields: Seq<WireField>) -> Option<MessageView> {
    if slot == PING_SLOT {
        ping_of_fields(fields)
    } else if slot == PONG_SLOT {
        pong_of_fields(fields)
    } else if slot == FIND_NODE_SLOT {
        find_node_of_fields(fields)
    } else if slot == NODES_SLOT {
        nodes_of_fields(fields)
    } else if slot == RANDOM_SLOT && fields.len() == 0 {
        Some(MessageView::Random)
    } else {
        None
    }
}

/// The message that a field holds: its number says which kind, its bytes are
/// the body.
#[verifier::opaque]
pub open spec fn message_of_field(field: WireField) -> Option<MessageView> {
    match field.value {
        WireValue::Bytes(body) => match parse_fields(body) {
            Some(inner) => message_of_fields(field.number, inner),
            None => None,
        },
        WireValue::Varint(_) => None,
    }
}

/// The entries of a nonce as the words that travel.
pub open spec fn nonce_words(nonce: Seq<u8>) -> Seq<u64> {
    Seq::new(nonce.len(), |i: int| nonce[i] as u64)
}

/// The nonce that `words` stand for: as many entries as a nonce has, each of
/// them one byte.
pub open spec fn nonce_of_words(words: Seq<u64>) -> Option<Seq<u8>> {
    if words.len() == ID_NONCE_LEN && forall|i: int|
        0 <= i < words.len() ==> #[trigger] words[i] <= u8::MAX {
        Some(Seq::new(words.len(), |i: int| words[i] as u8))
    } else {
        None
    }
}

/// The field that holds an updated record, where there is one.
pub open spec fn record_fields(updated_record: Option<u64>) -> Seq<WireField> {
    match updated_record {
        Some(enr_seq) => seq![bytes_field(RECORD_SLOT, fields_bytes(seq![varint_field(1, enr_seq)]))],
        None => Seq::empty(),
    }
}

/// The updated record that `fields` hold: none, or one.
pub open spec fn record_of_fields(fields: Seq<WireField>) -> Option<Option<u64>> {
    if fields.len() == 0 {
        Some(None)
    } else if fields.len() == 1 {
        match field_body(fields[0], RECORD_SLOT) {
            Some(body) => match parse_fields(body) {
                Some(inner) => if inner.len() == 1 {
                    match field_word(inner[0], 1) {
                        Some(enr_seq) => Some(Some(enr_seq)),
                        None => None,
                    }
                } else {
                    None
                },
                None => None,
            },
            None => None,
        }
    } else {
        None
    }
}

/// The field of an event under which a kind of occurrence travels.
pub open spec fn kind_slot(kind: EventKindView) -> u32 {
    match kind {
        EventKindView::NodeStarted { .. } => STARTED_SLOT,
        EventKindView::Shutdown { .. } => SHUTDOWN_SLOT,
        EventKindView::SendOrdinaryMessage { .. } => ORDINARY_SLOT,
        EventKindView::SendWhoAreYou { .. } => WHOAREYOU_SLOT,
        EventKindView::SendHandshakeMessage { .. } => HANDSHAKE_SLOT,
    }
}

/// The fields of the start or the shutdown of a node.
pub open spec fn lifecycle_fields(node_id: Seq<char>) -> Seq<WireField> {
    seq![text_field(1, node_id)]
}

/// The fields of an ordinary message.
pub open spec fn ordinary_fields(
    sender: Seq<char>,
    recipient: Seq<char>,
    payload: MessageView,
) -> Seq<WireField> {
    seq![
        text_field(1, sender),
        text_field(2, recipient),
        bytes_field(message_slot(payload), message_bytes(payload)),
    ]
}

/// The fields of a challenge.
pub open spec fn whoareyou_fields(
    sender: Seq<char>,
    recipient: Seq<char>,
    id_nonce: Seq<u8>,
    enr_seq: u64,
) -> Seq<WireField> {
    seq![
        text_field(1, sender),
        text_field(2, recipient),
        bytes_field(3, packed(nonce_words(id_nonce))),
        varint_field(4, enr_seq),
    ]
}

/// The fields of a handshake message: those of an ordinary message, then the
/// updated record where there is one.
pub open spec fn handshake_fields(
    sender: Seq<char>,
    recipient: Seq<char>,
    updated_record: Option<u64>,
    payload: MessageView,
) -> Seq<WireField> {
    ordinary_fields(sender, recipient, payload) + record_fields(updated_record)
}

/// The fields of an occurrence.
pub open spec fn kind_fields(kind: EventKindView) -> Seq<WireField> {
    match kind {
        EventKindView::NodeStarted { node_id } => lifecycle_fields(node_id),
        EventKindView::Shutdown { node_id } => lifecycle_fields(node_id),
        EventKindView::SendOrdinaryMessage { sender, recipient, payload } => ordinary_fields(
            sender,
            recipient,
            payload,
        ),
        EventKindView::SendWhoAreYou { sender, recipient, id_nonce, enr_seq } => whoareyou_fields(
            sender,
            recipient,
            id_nonce,
            enr_seq,
        ),
        EventKindView::SendHandshakeMessage {
            sender,
            recipient,
            updated_record,
            payload,
        } => handshake_fields(sender, recipient, updated_record, payload),
    }
}

/// The node that `fields` name: the body of a start or a shutdown.
pub open spec fn lifecycle_of_fields(fields: Seq<WireField>) -> Option<Seq<char>> {
    if fields.len() == 1 {
        field_text(fields[0], 1)
    } else {
        None
    }
}

/// The ordinary message that `fields` hold.
pub open spec fn ordinary_of_fields(fields: Seq<WireField>) -> Option<EventKindView> {
    if fields.len() == 3 {
        match (field_text(fields[0], 1), field_text(fields[1], 2), message_of_field(fields[2])) {
            (Some(sender), Some(recipient), Some(payload)) => Some(
                EventKindView::SendOrdinaryMessage { sender, recipient, payload },
            ),
            _ => None,
        }
    } else {
        None
    }
}

/// The challenge that `fields` hold.
pub open spec fn whoareyou_of_fields(fields: Seq<WireField>) -> Option<EventKindView> {
    if fields.len() == 4 {
        match (
            field_text(fields[0], 1),
            field_text(fields[1], 2),
            field_body(fields[2], 3),
            field_word(fields[3], 4),
        ) {
            (Some(sender), Some(recipient), Some(run), Some(enr_seq)) => match unpacked(run) {
                Some(words) => match nonce_of_words(words) {
                    Some(id_nonce) => Some(
                        EventKindView::SendWhoAreYou { sender, recipient, id_nonce, enr_seq },
                    ),
                    None => None,
                },
                None => None,
            },
            _ => None,
        }
    } else {
        None
    }
}

/// The handshake message that `fields` hold.
pub open spec fn handshake_of_fields(fields: Seq<WireField>) -> Option<EventKindView> {
    if fields.len() >= 3 {
        match (
            field_text(fields[0], 1),
            field_text(fields[1], 2),
            message_of_field(fields[2]),
            record_of_fields(fields.skip(3)),
        ) {
            (Some(sender), Some(recipient), Some(payload), Some(updated_record)) => if payload.is_request() {
                Some(
                    EventKindView::SendHandshakeMessage {
                        sender,
                        recipient,
                        updated_record,
                        payload,
                    },
                )
            } else {
                None
            },
            _ => None,
        }
    } else {
        None
    }
}

/// The occurrence that `fields` hold, read as the kind that travels under `slot`.
pub open spec fn kind_of_fields(slot: u32, fields: Seq<WireField>) -> Option<EventKindView> {
    if slot == STARTED_SLOT {
        match lifecycle_of_fields(fields) {
            Some(node_id) => Some(EventKindView::NodeStarted { node_id }),
            None => None,
        }
    } else if slot == SHUTDOWN_SLOT {
        match lifecycle_of_fields(fields) {
            Some(node_id) => Some(EventKindView::Shutdown { node_id }),
            None => None,
        }
    } else if slot == ORDINARY_SLOT {
        ordinary_of_fields(fields)
    } else if slot == WHOAREYOU_SLOT {
        whoareyou_of_fields(fields)
    } else if slot == HANDSHAKE_SLOT {
        handshake_of_fields(fields)
    } else {
        None
    }
}

/// The fields of an event: its timestamp, then what happened.
pub open spec fn event_fields(event: EventView) -> Seq<WireField> {
    seq![
        bytes_field(TIMESTAMP_SLOT, fields_bytes(timestamp_fields(event.timestamp))),
        bytes_field(kind_slot(event.kind), fields_bytes(kind_fields(event.kind))),
    ]
}

/// The timestamp that a field holds.
#[verifier::opaque]
pub open spec fn timestamp_of_field(field: WireField) -> Option<Timestamp> {
    match field_body(field, TIMESTAMP_SLOT) {
        Some(stamp) => match parse_fields(stamp) {
            Some(inner) => timestamp_of_fields(inner),
            None => None,
        },
        None => None,
    }
}

/// The occurrence that a field holds: its number says which kind, its bytes
/// are the body.
#[verifier::opaque]
pub open spec fn kind_of_field(field: WireField) -> Option<EventKindView> {
    match field.value {
        WireValue::Bytes(body) => match parse_fields(body) {
            Some(inner) => kind_of_fields(field.number, inner),
            None => None,
        },
        WireValue::Varint(_) => None,
    }
}

/// The event that `fields` hold.
pub open spec fn event_of_fields(fields: Seq<WireField>) -> Option<EventView> {
    if fields.len() == 2 {
        match (timestamp_of_field(fields[0]), kind_of_field(fields[1])) {
            (Some(timestamp), Some(kind)) => Some(EventView { timestamp, kind }),
            _ => None,
        }
    } else {
        None
    }
}

/// The payload of a record: the bytes of the event.
pub open spec fn payload_bytes(event: EventView) -> Seq<u8> {
    fields_bytes(event_fields(event))
}

/// The event that a payload holds, or nothing where the bytes are no event.
pub open spec fn payload_event(bytes: Seq<u8>) -> Option<EventView> {
    match parse_fields(bytes) {
        Some(fields) => event_of_fields(fields),
        None => None,
    }
}

/// Every length in the message fits the 64 bits of a length prefix.
pub open spec fn message_sized(message: MessageView) -> bool {
    fields_ok(message_fields(message))
}

/// Every length in the occurrence fits the 64 bits of a length prefix.
pub open spec fn kind_sized(kind: EventKindView) -> bool {
    &&& fields_ok(kind_fields(kind))
    &&& match kind {
        EventKindView::SendOrdinaryMessage { payload, .. } => message_sized(payload),
        EventKindView::SendHandshakeMessage { payload, .. } => message_sized(payload),
        _ => true,
    }
}

/// Every length in the event fits the 64 bits of a length prefix.
pub open spec fn event_sized(event: EventView) -> bool {
    &&& kind_sized(event.kind)
    &&& fields_ok(event_fields(event))
    &&& payload_bytes(event).len() <= u64::MAX
}

/// The event can be written: it meets the constraints of the wire form, and
/// every length in it fits the 64 bits of a length prefix, as it does for any
/// event that is held in memory.
pub open spec fn encodable(event: EventView) -> bool {
    event.valid() && event_sized(event)
}

} // verus!

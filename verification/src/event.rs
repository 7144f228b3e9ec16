//! What can be recorded: the events of a node and the messages they carry.

use vstd::prelude::*;

verus! {

/// The number of entries in the nonce of a challenge.
pub const ID_NONCE_LEN: usize = 16;

/// One second, in nanoseconds.
pub const NANOS_PER_SECOND: u32 = 1_000_000_000;

/// A point in time: whole seconds since the epoch and the nanoseconds within
/// that second.
#[derive(Clone, Copy, Debug, PartialEq, Eq)]
pub struct Timestamp {
    pub seconds: i64,
    pub nanos: u32,
}

impl Timestamp {
    /// The nanoseconds stay within one second.
    pub open spec fn valid(self) -> bool {
        self.nanos < NANOS_PER_SECOND
    }

    /// The nanoseconds since the epoch that this point stands for.
    pub open spec fn total_nanos(self) -> int {
        self.seconds * NANOS_PER_SECOND + self.nanos
    }
}

/// A protocol message carried by an event.
#[derive(Clone, Debug, PartialEq, Eq)]
pub enum Message {
    /// A ping, with the sequence number of the sender's record.
    Ping { request_id: String, enr_seq: u64 },
    /// The answer to a ping: the sequence number of the responder's record, and
    /// the address and port at which the responder saw the sender.
    Pong { request_id: String, enr_seq: u64, recipient_ip: String, recipient_port: u32 },
    /// A search for the nodes at the given distances.
    FindNode { request_id: String, distances: Vec<u64> },
    /// The answer to a search: how many responses the answer comes in, and the
    /// nodes of this one, in the order in which they were sent.
    Nodes { request_id: String, total: u64, node_ids: Vec<String> },
    /// A random packet, sent to provoke a challenge. It carries nothing.
    Random,
}

/// A message, as contracts see it.
pub enum MessageView {
    Ping { request_id: Seq<char>, enr_seq: u64 },
    Pong { request_id: Seq<char>, enr_seq: u64, recipient_ip: Seq<char>, recipient_port: u32 },
    FindNode { request_id: Seq<char>, distances: Seq<u64> },
    Nodes { request_id: Seq<char>, total: u64, node_ids: Seq<Seq<char>> },
    Random,
}

/// The texts of a list, each by its view.
pub open spec fn texts_view(texts: Seq<String>) -> Seq<Seq<char>> {
    Seq::new(texts.len(), |i: int| texts[i]@)
}

impl View for Message {
    type V = MessageView;

    open spec fn view(&self) -> MessageView {
        match self {
            Message::Ping { request_id, enr_seq } => MessageView::Ping {
                request_id: request_id@,
                enr_seq: *enr_seq,
            },
            Message::Pong {
                request_id,
                enr_seq,
                recipient_ip,
                recipient_port,
            } => MessageView::Pong {
                request_id: request_id@,
                enr_seq: *enr_seq,
                recipient_ip: recipient_ip@,
                recipient_port: *recipient_port,
            },
            Message::FindNode { request_id, distances } => MessageView::FindNode {
                request_id: request_id@,
                distances: distances@,
            },
            Message::Nodes { request_id, total, node_ids } => MessageView::Nodes {
                request_id: request_id@,
                total: *total,
                node_ids: texts_view(node_ids@),
            },
            Message::Random => MessageView::Random,
        }
    }
}

impl MessageView {
    /// A request that may open a session: a ping or a search for nodes.
    pub open spec fn is_request(self) -> bool {
        self is Ping || self is FindNode
    }
}

/// What happened.
#[derive(Clone, Debug, PartialEq, Eq)]
pub enum EventKind {
    /// The node started.
    NodeStarted { node_id: String },
    /// The node shut down.
    Shutdown { node_id: String },
    /// An ordinary message was sent: any message that is no part of a handshake.
    SendOrdinaryMessage { sender: String, recipient: String, payload: Message },
    /// A challenge was sent: its nonce of `ID_NONCE_LEN` entries, and the
    /// sequence number of the record that the sender holds of the recipient.
    SendWhoAreYou { sender: String, recipient: String, id_nonce: Vec<u8>, enr_seq: u64 },
    /// A request was sent in answer to a challenge, with the sequence number
    /// of the sender's record where the record went along.
    SendHandshakeMessage {
        sender: String,
        recipient: String,
        updated_record: Option<u64>,
        payload: Message,
    },
}

/// What happened, as contracts see it.
pub enum EventKindView {
    NodeStarted { node_id: Seq<char> },
    Shutdown { node_id: Seq<char> },
    SendOrdinaryMessage { sender: Seq<char>, recipient: Seq<char>, payload: MessageView },
    SendWhoAreYou { sender: Seq<char>, recipient: Seq<char>, id_nonce: Seq<u8>, enr_seq: u64 },
    SendHandshakeMessage {
        sender: Seq<char>,
        recipient: Seq<char>,
        updated_record: Option<u64>,
        payload: MessageView,
    },
}

impl View for EventKind {
    type V = EventKindView;

    open spec fn view(&self) -> EventKindView {
        match self {
            EventKind::NodeStarted { node_id } => EventKindView::NodeStarted { node_id: node_id@ },
            EventKind::Shutdown { node_id } => EventKindView::Shutdown { node_id: node_id@ },
            EventKind::SendOrdinaryMessage {
                sender,
                recipient,
                payload,
            } => EventKindView::SendOrdinaryMessage {
                sender: sender@,
                recipient: recipient@,
                payload: payload@,
            },
            EventKind::SendWhoAreYou {
                sender,
                recipient,
                id_nonce,
                enr_seq,
            } => EventKindView::SendWhoAreYou {
                sender: sender@,
                recipient: recipient@,
                id_nonce: id_nonce@,
                enr_seq: *enr_seq,
            },
            EventKind::SendHandshakeMessage {
                sender,
                recipient,
                updated_record,
                payload,
            } => EventKindView::SendHandshakeMessage {
                sender: sender@,
                recipient: recipient@,
                updated_record: *updated_record,
                payload: payload@,
            },
        }
    }
}

impl EventKindView {
    /// The constraints of the wire form: a nonce has its fixed length, and a
    /// handshake carries a request.
    pub open spec fn valid(self) -> bool {
        match self {
            EventKindView::SendWhoAreYou { id_nonce, .. } => id_nonce.len() == ID_NONCE_LEN,
            EventKindView::SendHandshakeMessage { payload, .. } => payload.is_request(),
            _ => true,
        }
    }
}

/// One recorded occurrence: what happened, and when.
#[derive(Clone, Debug, PartialEq, Eq)]
pub struct Event {
    pub timestamp: Timestamp,
    pub kind: EventKind,
}

/// An event, as contracts see it.
pub struct EventView {
    pub timestamp: Timestamp,
    pub kind: EventKindView,
}

impl View for Event {
    type V = EventView;

    open spec fn view(&self) -> EventView {
        EventView { timestamp: self.timestamp, kind: self.kind@ }
    }
}

impl EventView {
    /// The event meets every constraint of the wire form.
    pub open spec fn valid(self) -> bool {
        self.timestamp.valid() && self.kind.valid()
    }
}

/// Why an event cannot be encoded.
#[derive(Clone, Copy, Debug, PartialEq, Eq)]
pub enum EncodingError {
    /// The nanoseconds of the timestamp reach a whole second or more.
    NanosOutOfRange,
    /// The nonce of a challenge does not have its fixed length.
    NonceLength,
    /// The message of a handshake is no request.
    NotARequest,
}

/// The error that an occurrence owes, or nothing for a valid one.
pub open spec fn kind_error(kind: EventKindView) -> Option<EncodingError> {
    match kind {
        EventKindView::SendWhoAreYou { id_nonce, .. } => if id_nonce.len() != ID_NONCE_LEN {
            Some(EncodingError::NonceLength)
        } else {
            None
        },
        EventKindView::SendHandshakeMessage { payload, .. } => if !payload.is_request() {
            Some(EncodingError::NotARequest)
        } else {
            None
        },
        _ => None,
    }
}

/// The error that an event owes, or nothing for a valid one: the timestamp is
/// looked at first.
pub open spec fn encoding_error(event: EventView) -> Option<EncodingError> {
    if !event.timestamp.valid() {
        Some(EncodingError::NanosOutOfRange)
    } else {
        kind_error(event.kind)
    }
}

} // verus!

//! Emission: one operation for each kind of event. Each builds the event,
//! stamps it with the current time, encodes it and appends its record to the
//! log.

use vstd::prelude::*;
use crate::clock::{clock_reading, stamp, timestamp_of};
use crate::event::{
    encoding_error, kind_error, EncodingError, Event, EventKind, EventKindView, EventView, Message,
    MessageView, Timestamp, ID_NONCE_LEN,
};
use crate::log::TraceLog;
use crate::peer::{node_id_label, node_id_text};
use crate::record::record_bytes;
use crate::rpc::{
    message_of_request, message_of_response, request_message, response_message, Request, Response,
};
use crate::schema::encodable;
use crate::wire::copy_range;

verus! {

/// Why an event was not recorded.
#[derive(Clone, Copy, Debug, PartialEq, Eq)]
pub enum TraceError {
    /// The event breaks a constraint of the wire form.
    Encoding(EncodingError),
    /// The log has no message for this kind of request or response.
    UnsupportedKind,
}

/// The log grew by exactly one record: that of an occurrence of `kind`, with
/// some valid timestamp.
pub open spec fn emitted(before: Seq<u8>, after: Seq<u8>, kind: EventKindView) -> bool {
    exists|timestamp: Timestamp|
        #[trigger] encodable(EventView { timestamp, kind }) && after == before + record_bytes(
            EventView { timestamp, kind },
        )
}

/// Records an occurrence with the timestamp that is given. The event is
/// rejected, and the log is left as it was, exactly where it breaks a
/// constraint of the wire form.
pub fn emit_at(log: &mut TraceLog, timestamp: Timestamp, kind: EventKind) -> (r: Result<
    (),
    TraceError,
>)
    ensures
        match r {
            Ok(()) => encodable(EventView { timestamp, kind: kind@ }) && final(log)@ == old(log)@
                + record_bytes(EventView { timestamp, kind: kind@ }),
            Err(error) => final(log)@ == old(log)@ && match encoding_error(
                EventView { timestamp, kind: kind@ },
            ) {
                Some(fault) => error == TraceError::Encoding(fault),
                None => false,
            },
        },
{
    let event = Event { timestamp, kind };
    match log.record(&event) {
        Ok(()) => Ok(()),
        Err(fault) => Err(TraceError::Encoding(fault)),
    }
}

/// Records an occurrence, stamped with the time that a reading of the clock
/// stands for: `seconds` whole seconds since the epoch and `subsec_nanos`
/// nanoseconds behind them. The event is rejected, and the log is left as it
/// was, exactly where the occurrence breaks a constraint of the wire form:
/// every reading has its timestamp.
pub fn emit_reading(
    log: &mut TraceLog,
    seconds: i64,
    subsec_nanos: u32,
    kind: EventKind,
) -> (r: Result<(), TraceError>)
    ensures
        match r {
            Ok(()) => kind_error(kind@) is None && encodable(
                EventView { timestamp: timestamp_of(seconds, subsec_nanos), kind: kind@ },
            ) && final(log)@ == old(log)@ + record_bytes(
                EventView { timestamp: timestamp_of(seconds, subsec_nanos), kind: kind@ },
            ),
            Err(error) => final(log)@ == old(log)@ && match kind_error(kind@) {
                Some(fault) => error == TraceError::Encoding(fault),
                None => false,
            },
        },
{
    emit_at(log, stamp(seconds, subsec_nanos), kind)
}

/// Records an occurrence, stamped with the current time. The event is
/// rejected, and the log is left as it was, exactly where the occurrence
/// breaks a constraint of the wire form: the clock never stands in the way.
pub fn emit(log: &mut TraceLog, kind: EventKind) -> (r: Result<(), TraceError>)
    ensures
        match r {
            Ok(()) => kind_error(kind@) is None && emitted(old(log)@, final(log)@, kind@),
            Err(error) => final(log)@ == old(log)@ && match kind_error(kind@) {
                Some(fault) => error == TraceError::Encoding(fault),
                None => false,
            },
        },
{
    let (seconds, subsec_nanos) = clock_reading();
    let ghost shown = kind@;
    let r = emit_reading(log, seconds, subsec_nanos, kind);
    proof {
        if r is Ok {
            let timestamp = timestamp_of(seconds, subsec_nanos);
            assert(encodable(EventView { timestamp, kind: shown }) && log@ == old(log)@
                + record_bytes(EventView { timestamp, kind: shown }));
        }
    }
    r
}

/// Empties the log, whether or not it held anything.
pub fn clear_log(log: &mut TraceLog)
    ensures
        final(log)@ == Seq::<u8>::empty(),
{
    log.reset();
}

/// Records that the node with the identifier `node_id` started. It always
/// succeeds.
pub fn start(log: &mut TraceLog, node_id: &[u8; 32]) -> (r: Result<(), TraceError>)
    ensures
        r is Ok,
        emitted(
            old(log)@,
            final(log)@,
            EventKindView::NodeStarted { node_id: node_id_label(node_id@) },
        ),
{
    emit(log, EventKind::NodeStarted { node_id: node_id_text(node_id) })
}

/// Records that the node with the identifier `node_id` shut down. It always
/// succeeds.
pub fn shutdown(log: &mut TraceLog, node_id: &[u8; 32]) -> (r: Result<(), TraceError>)
    ensures
        r is Ok,
        emitted(
            old(log)@,
            final(log)@,
            EventKindView::Shutdown { node_id: node_id_label(node_id@) },
        ),
{
    emit(log, EventKind::Shutdown { node_id: node_id_text(node_id) })
}

/// The occurrence of an ordinary message from `sender` to `recipient`.
pub open spec fn ordinary_kind(sender: Seq<u8>, recipient: Seq<u8>, payload: MessageView) -> EventKindView {
    EventKindView::SendOrdinaryMessage {
        sender: node_id_label(sender),
        recipient: node_id_label(recipient),
        payload,
    }
}

/// Records `payload` as an ordinary message from `sender` to `recipient`. It
/// always succeeds.
pub fn send_message(log: &mut TraceLog, sender: &[u8; 32], recipient: &[u8; 32], payload: Message) -> (r:
    Result<(), TraceError>)
    ensures
        r is Ok,
        emitted(old(log)@, final(log)@, ordinary_kind(sender@, recipient@, payload@)),
{
    emit(
        log,
        EventKind::SendOrdinaryMessage {
            sender: node_id_text(sender),
            recipient: node_id_text(recipient),
            payload,
        },
    )
}

/// Records that `sender` sent a random packet to `recipient`. It always
/// succeeds.
pub fn send_random_packet(log: &mut TraceLog, sender: &[u8; 32], recipient: &[u8; 32]) -> (r: Result<
    (),
    TraceError,
>)
    ensures
        r is Ok,
        emitted(old(log)@, final(log)@, ordinary_kind(sender@, recipient@, MessageView::Random)),
{
    send_message(log, sender, recipient, Message::Random)
}

/// Records that `sender` sent `request` to `recipient`. A request of a kind
/// that the log has no message for is refused, and nothing is recorded.
pub fn send_rpc_request(
    log: &mut TraceLog,
    sender: &[u8; 32],
    recipient: &[u8; 32],
    request: &Request,
) -> (r: Result<(), TraceError>)
    ensures
        match r {
            Ok(()) => request_message(*request) is Some && emitted(
                old(log)@,
                final(log)@,
                ordinary_kind(sender@, recipient@, request_message(*request).unwrap()),
            ),
            Err(error) => final(log)@ == old(log)@ && request_message(*request) is None && error
                == TraceError::UnsupportedKind,
        },
{
    match message_of_request(request) {
        Some(payload) => send_message(log, sender, recipient, payload),
        None => Err(TraceError::UnsupportedKind),
    }
}

/// Records that `sender` sent `response` to `recipient`. A response of a kind
/// that the log has no message for is refused, and nothing is recorded.
pub fn send_rpc_response(
    log: &mut TraceLog,
    sender: &[u8; 32],
    recipient: &[u8; 32],
    response: &Response,
) -> (r: Result<(), TraceError>)
    ensures
        match r {
            Ok(()) => response_message(*response) is Some && emitted(
                old(log)@,
                final(log)@,
                ordinary_kind(sender@, recipient@, response_message(*response).unwrap()),
            ),
            Err(error) => final(log)@ == old(log)@ && response_message(*response) is None
                && error == TraceError::UnsupportedKind,
        },
{
    match message_of_response(response) {
        Some(payload) => send_message(log, sender, recipient, payload),
        None => Err(TraceError::UnsupportedKind),
    }
}

/// The occurrence of a challenge from `sender` to `recipient`.
pub open spec fn whoareyou_kind(
    sender: Seq<u8>,
    recipient: Seq<u8>,
    id_nonce: Seq<u8>,
    enr_seq: u64,
) -> EventKindView {
    EventKindView::SendWhoAreYou {
        sender: node_id_label(sender),
        recipient: node_id_label(recipient),
        id_nonce,
        enr_seq,
    }
}

/// Records that `sender` challenged `recipient`. A nonce that does not have
/// its fixed length is rejected, and nothing is recorded.
pub fn send_whoareyou(
    log: &mut TraceLog,
    sender: &[u8; 32],
    recipient: &[u8; 32],
    id_nonce: &[u8],
    enr_seq: u64,
) -> (r: Result<(), TraceError>)
    ensures
        match r {
            Ok(()) => id_nonce@.len() == ID_NONCE_LEN && emitted(
                old(log)@,
                final(log)@,
                whoareyou_kind(sender@, recipient@, id_nonce@, enr_seq),
            ),
            Err(error) => final(log)@ == old(log)@ && id_nonce@.len() != ID_NONCE_LEN && error
                == TraceError::Encoding(EncodingError::NonceLength),
        },
{
    let nonce = copy_range(id_nonce, 0, id_nonce.len());
    proof {
        assert(nonce@ =~= id_nonce@);
    }
    emit(
        log,
        EventKind::SendWhoAreYou {
            sender: node_id_text(sender),
            recipient: node_id_text(recipient),
            id_nonce: nonce,
            enr_seq,
        },
    )
}

/// The occurrence of a handshake message from `sender` to `recipient`.
pub open spec fn handshake_kind(
    sender: Seq<u8>,
    recipient: Seq<u8>,
    updated_record: Option<u64>,
    payload: MessageView,
) -> EventKindView {
    EventKindView::SendHandshakeMessage {
        sender: node_id_label(sender),
        recipient: node_id_label(recipient),
        updated_record,
        payload,
    }
}

/// Records that `sender` sent `request` to `recipient` in a handshake, with
/// the sequence number of its updated record where it sent one. A request of
/// a kind that the log has no message for is refused, and nothing is recorded.
pub fn send_handshake_message(
    log: &mut TraceLog,
    sender: &[u8; 32],
    recipient: &[u8; 32],
    updated_enr: Option<u64>,
    request: &Request,
) -> (r: Result<(), TraceError>)
    ensures
        match r {
            Ok(()) => request_message(*request) is Some && emitted(
                old(log)@,
                final(log)@,
                handshake_kind(sender@, recipient@, updated_enr, request_message(*request).unwrap()),
            ),
            Err(error) => final(log)@ == old(log)@ && request_message(*request) is None && error
                == TraceError::UnsupportedKind,
        },
{
    match message_of_request(request) {
        Some(payload) => emit(
            log,
            EventKind::SendHandshakeMessage {
                sender: node_id_text(sender),
                recipient: node_id_text(recipient),
                updated_record: updated_enr,
                payload,
            },
        ),
        None => Err(TraceError::UnsupportedKind),
    }
}

} // verus!

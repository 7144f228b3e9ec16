//! Records: the payload of an event with its length in front, so that a log is
//! read record by record with nothing else between them.

use vstd::prelude::*;
use crate::decode::decode_payload;
use crate::encode::encode_payload;
use crate::event::{encoding_error, EncodingError, Event, EventView};
use crate::round_trip::lemma_read_event_is_valid;
use crate::schema::{encodable, payload_bytes, payload_event};
use crate::varint::{
    lemma_take_varint_written, lemma_varint_len_u64, put_varint, read_varint, take_varint, varint,
    MAX_VARINT_LEN,
};
use crate::wire::put_bytes;

verus! {

/// A payload with its length in front.
pub open spec fn framed(payload: Seq<u8>) -> Seq<u8> {
    varint(payload.len()) + payload
}

/// The record of an event.
pub open spec fn record_bytes(event: EventView) -> Seq<u8> {
    framed(payload_bytes(event))
}

/// What stands at the front of a run of bytes.
pub enum FrameView {
    /// A whole record: its payload, and the bytes that the record takes.
    Whole { payload: Seq<u8>, used: nat },
    /// The beginning of a record whose end is missing.
    Cut,
    /// No record: a length that is no 64-bit number.
    Bad,
}

/// The bytes are the beginning of a length whose last byte is still to come.
pub open spec fn length_cut(bytes: Seq<u8>) -> bool {
    bytes.len() < MAX_VARINT_LEN && forall|i: int| 0 <= i < bytes.len() ==> #[trigger] bytes[i] >= 128
}

/// What stands at the front of `bytes`.
pub open spec fn take_frame(bytes: Seq<u8>) -> FrameView {
    match take_varint(bytes, MAX_VARINT_LEN as nat) {
        Some((len, used)) => if len <= bytes.len() - used {
            FrameView::Whole {
                payload: bytes.subrange(used as int, used + len),
                used: (used + len) as nat,
            }
        } else {
            FrameView::Cut
        },
        None => if length_cut(bytes) {
            FrameView::Cut
        } else {
            FrameView::Bad
        },
    }
}

/// The event of a record that fills `bytes` exactly, or nothing where `bytes`
/// are no such record.
pub open spec fn record_event(bytes: Seq<u8>) -> Option<EventView> {
    match take_frame(bytes) {
        FrameView::Whole { payload, used } => if used == bytes.len() {
            payload_event(payload)
        } else {
            None
        },
        _ => None,
    }
}

/// The length in front of a record is the exact number of bytes of the payload
/// that follows it, whatever comes after the record.
pub proof fn lemma_frame_written(payload: Seq<u8>, rest: Seq<u8>)
    requires
        payload.len() <= u64::MAX,
    ensures
        take_varint(framed(payload) + rest, MAX_VARINT_LEN as nat) == Some(
            (payload.len() as u64, varint(payload.len()).len()),
        ),
        take_frame(framed(payload) + rest) == (FrameView::Whole {
            payload,
            used: framed(payload).len(),
        }),
        framed(payload).len() == varint(payload.len()).len() + payload.len(),
        framed(payload).len() > 0,
{
    let len = payload.len() as u64;
    let prefix = varint(len as nat);
    let bytes = framed(payload) + rest;
    lemma_varint_len_u64(len);
    assert(bytes =~= prefix + (payload + rest));
    lemma_take_varint_written(len, payload + rest, MAX_VARINT_LEN as nat);
    assert(bytes.subrange(prefix.len() as int, prefix.len() + len) =~= payload);
}

/// The size of the length that stands in front of a payload of `len` bytes, as
/// `protobuf::rt::compute_raw_varint64_size` computes it: the number of bytes
/// of the base-128 encoding of `len`.
pub assume_specification[ protobuf::rt::compute_raw_varint64_size ](value: u64) -> (size: u32)
    ensures
        size == varint(value as nat).len(),
;

/// The number of bytes of a record whose payload has `len` bytes, or nothing
/// where that number is beyond what this machine can count.
pub fn record_len(len: usize) -> (r: Option<usize>)
    ensures
        match r {
            Some(size) => size == varint(len as nat).len() + len,
            None => varint(len as nat).len() + len > usize::MAX,
        },
{
    let prefix: u32 = protobuf::rt::compute_raw_varint64_size(len as u64);
    proof {
        lemma_varint_len_u64(len as u64);
    }
    if len <= usize::MAX - prefix as usize {
        Some(prefix as usize + len)
    } else {
        None
    }
}

/// The record of a payload: its length, then the payload.
pub fn frame(payload: &[u8]) -> (record: Vec<u8>)
    ensures
        record@ == framed(payload@),
{
    let mut record: Vec<u8> = match record_len(payload.len()) {
        Some(size) => Vec::with_capacity(size),
        None => Vec::new(),
    };
    put_varint(&mut record, payload.len() as u64);
    put_bytes(&mut record, payload);
    record
}

/// The record of an event: where the event meets the constraints of the wire
/// form, its payload with the length in front; otherwise the constraint that
/// it breaks.
pub fn encode(event: &Event) -> (r: Result<Vec<u8>, EncodingError>)
    ensures
        match r {
            Ok(record) => encodable(event@) && record@ == record_bytes(event@),
            Err(error) => encoding_error(event@) == Some(error),
        },
{
    match encode_payload(event) {
        Ok(payload) => Ok(frame(payload.as_slice())),
        Err(error) => Err(error),
    }
}

/// What `read_frame` found: where the payload of a whole record lies, or why
/// there is none.
#[derive(Clone, Copy, Debug, PartialEq, Eq)]
pub enum Frame {
    /// A whole record: its payload lies at `start..end`.
    Whole { start: usize, end: usize },
    /// The beginning of a record whose end is missing.
    Cut,
    /// No record: a length that is no 64-bit number.
    Bad,
}

/// Looks at the record that begins at `bytes[pos..]`.
pub fn read_frame(bytes: &[u8], pos: usize) -> (r: Frame)
    requires
        pos <= bytes@.len(),
    ensures
        match r {
            Frame::Whole { start, end } => pos < start <= end <= bytes@.len() && take_frame(
                bytes@.skip(pos as int),
            ) == (FrameView::Whole {
                payload: bytes@.subrange(start as int, end as int),
                used: (end - pos) as nat,
            }),
            Frame::Cut => take_frame(bytes@.skip(pos as int)) is Cut,
            Frame::Bad => take_frame(bytes@.skip(pos as int)) is Bad,
        },
{
    let ghost input = bytes@.skip(pos as int);
    match read_varint(bytes, pos, MAX_VARINT_LEN) {
        Some((len, start)) => {
            if len <= (bytes.len() - start) as u64 {
                let end: usize = start + len as usize;
                proof {
                    assert(input.subrange(start - pos, start - pos + len) =~= bytes@.subrange(
                        start as int,
                        end as int,
                    ));
                }
                Frame::Whole { start, end }
            } else {
                Frame::Cut
            }
        },
        None => {
            if bytes.len() - pos >= MAX_VARINT_LEN {
                return Frame::Bad;
            }
            let mut i: usize = pos;
            while i < bytes.len()
                invariant
                    pos <= i <= bytes@.len(),
                    input == bytes@.skip(pos as int),
                    bytes@.len() - pos < MAX_VARINT_LEN,
                    take_varint(input, MAX_VARINT_LEN as nat) is None,
                    forall|j: int| 0 <= j < i - pos ==> #[trigger] input[j] >= 128,
                decreases bytes@.len() - i,
            {
                if bytes[i] < 128 {
                    proof {
                        assert(input[i - pos] < 128);
                    }
                    return Frame::Bad;
                }
                i += 1;
            }
            Frame::Cut
        },
    }
}

/// The event of a record that fills `bytes` exactly. An event that comes out
/// meets the constraints of the wire form.
pub fn decode(bytes: &[u8]) -> (r: Option<Event>)
    ensures
        match r {
            Some(event) => record_event(bytes@) == Some(event@) && event@.valid(),
            None => record_event(bytes@) is None,
        },
{
    proof {
        assert(bytes@.skip(0) =~= bytes@);
        match take_frame(bytes@) {
            FrameView::Whole { payload, used } => {
                lemma_read_event_is_valid(payload);
            },
            _ => {},
        }
    }
    match read_frame(bytes, 0) {
        Frame::Whole { start, end } => {
            if end == bytes.len() {
                decode_payload(vstd::slice::slice_subrange(bytes, start, end))
            } else {
                None
            }
        },
        _ => None,
    }
}

} // verus!

//! The log: records one after another, only ever added at the end, and the
//! reader that takes them apart again.

use vstd::prelude::*;
use crate::decode::decode_payload;
use crate::event::{encoding_error, EncodingError, Event, EventView};
use crate::record::{encode, read_frame, record_bytes, take_frame, Frame, FrameView};
use crate::round_trip::lemma_read_event_is_valid;
use crate::schema::{encodable, payload_event};
use crate::wire::put_bytes;

verus! {

/// How the reading of a log ended.
#[derive(Clone, Copy, Debug, PartialEq, Eq)]
pub enum Ending {
    /// Every byte belongs to a record that was read.
    Clean,
    /// The last record is incomplete: the log ends before the record does.
    Truncated,
    /// The bytes behind the last record that was read are no record.
    Corrupt,
}

/// What a log holds, as contracts see it.
pub struct LogView {
    /// The events of the complete records, in the order of the log.
    pub events: Seq<EventView>,
    /// How the reading ends.
    pub ending: Ending,
    /// The number of bytes that the complete records take.
    pub consumed: nat,
}

/// What a run of bytes holds when it is read record by record from the front:
/// the events of the records up to the first place that holds no whole record
/// of an event, the bytes that these records take, and how the reading ends.
#[verifier::opaque]
pub open spec fn log_view(bytes: Seq<u8>) -> LogView
    decreases bytes.len(),
{
    if bytes.len() == 0 {
        LogView { events: Seq::empty(), ending: Ending::Clean, consumed: 0 }
    } else {
        match take_frame(bytes) {
            FrameView::Whole { payload, used } => match payload_event(payload) {
                Some(event) => if 0 < used <= bytes.len() {
                    let rest = log_view(bytes.skip(used as int));
                    LogView {
                        events: seq![event] + rest.events,
                        ending: rest.ending,
                        consumed: used + rest.consumed,
                    }
                } else {
                    LogView { events: Seq::empty(), ending: Ending::Corrupt, consumed: 0 }
                },
                None => LogView { events: Seq::empty(), ending: Ending::Corrupt, consumed: 0 },
            },
            FrameView::Cut => LogView {
                events: Seq::empty(),
                ending: Ending::Truncated,
                consumed: 0,
            },
            FrameView::Bad => LogView { events: Seq::empty(), ending: Ending::Corrupt, consumed: 0 },
        }
    }
}

/// The events of a list, each by its view.
pub open spec fn events_view(events: Seq<Event>) -> Seq<EventView> {
    Seq::new(events.len(), |i: int| events[i]@)
}

/// What a reader found in a log.
#[derive(Clone, Debug, PartialEq, Eq)]
pub struct LogContents {
    /// The events of the complete records, in the order of the log.
    pub events: Vec<Event>,
    /// How the reading ended.
    pub ending: Ending,
    /// The number of bytes that the complete records take.
    pub consumed: usize,
}

impl View for LogContents {
    type V = LogView;

    open spec fn view(&self) -> LogView {
        LogView {
            events: events_view(self.events@),
            ending: self.ending,
            consumed: self.consumed as nat,
        }
    }
}

/// The reading of nothing: no events, a clean end.
pub proof fn lemma_log_view_empty(bytes: Seq<u8>)
    requires
        bytes.len() == 0,
    ensures
        log_view(bytes) == (LogView { events: Seq::empty(), ending: Ending::Clean, consumed: 0 }),
{
    reveal(log_view);
}

/// The reading of bytes that begin with the whole record of an event: that
/// event first, then the reading of what lies behind the record.
pub proof fn lemma_log_view_record(bytes: Seq<u8>, payload: Seq<u8>, used: nat, event: EventView)
    requires
        take_frame(bytes) == (FrameView::Whole { payload, used }),
        payload_event(payload) == Some(event),
        0 < used <= bytes.len(),
    ensures
        log_view(bytes).events == seq![event] + log_view(bytes.skip(used as int)).events,
        log_view(bytes).ending == log_view(bytes.skip(used as int)).ending,
        log_view(bytes).consumed == used + log_view(bytes.skip(used as int)).consumed,
{
    reveal(log_view);
}

/// The reading of bytes that begin with no whole record of an event: it stops
/// at once, as truncated where the record is cut, as corrupt otherwise.
pub proof fn lemma_log_view_stop(bytes: Seq<u8>)
    requires
        bytes.len() > 0,
        match take_frame(bytes) {
            FrameView::Whole { payload, used } => payload_event(payload) is None,
            _ => true,
        },
    ensures
        log_view(bytes) == (LogView {
            events: Seq::empty(),
            ending: if take_frame(bytes) is Cut {
                Ending::Truncated
            } else {
                Ending::Corrupt
            },
            consumed: 0,
        }),
{
    reveal(log_view);
}

/// Reads a log: every complete record from the front, up to the end of the
/// bytes or to the first place that holds no whole record of an event. The
/// reading ends clean exactly where every byte was taken, and every event
/// that comes out meets the constraints of the wire form.
pub fn read_log(bytes: &[u8]) -> (contents: LogContents)
    ensures
        contents@ == log_view(bytes@),
        contents.consumed <= bytes@.len(),
        contents.ending is Clean <==> contents.consumed == bytes@.len(),
        forall|i: int| 0 <= i < contents.events@.len() ==> (#[trigger] contents.events@[i])@.valid(),
{
    let mut events: Vec<Event> = Vec::new();
    let mut pos: usize = 0;
    proof {
        assert(bytes@.skip(0) =~= bytes@);
        assert(events_view(events@) + log_view(bytes@).events =~= log_view(bytes@).events);
    }
    while pos < bytes.len()
        invariant
            pos <= bytes@.len(),
            log_view(bytes@).events == events_view(events@) + log_view(
                bytes@.skip(pos as int),
            ).events,
            log_view(bytes@).ending == log_view(bytes@.skip(pos as int)).ending,
            log_view(bytes@).consumed == pos + log_view(bytes@.skip(pos as int)).consumed,
            forall|i: int| 0 <= i < events@.len() ==> (#[trigger] events@[i])@.valid(),
        decreases bytes@.len() - pos,
    {
        let ghost before = events_view(events@);
        let ghost input = bytes@.skip(pos as int);
        let step: Result<(Event, usize), Ending> = match read_frame(bytes, pos) {
            Frame::Whole { start, end } => {
                match decode_payload(vstd::slice::slice_subrange(bytes, start, end)) {
                    Some(event) => {
                        proof {
                            lemma_log_view_record(
                                input,
                                bytes@.subrange(start as int, end as int),
                                (end - pos) as nat,
                                event@,
                            );
                            assert(input.skip(end - pos) =~= bytes@.skip(end as int));
                            lemma_read_event_is_valid(bytes@.subrange(start as int, end as int));
                        }
                        Ok((event, end))
                    },
                    None => {
                        proof {
                            lemma_log_view_stop(input);
                        }
                        Err(Ending::Corrupt)
                    },
                }
            },
            Frame::Cut => {
                proof {
                    lemma_log_view_stop(input);
                }
                Err(Ending::Truncated)
            },
            Frame::Bad => {
                proof {
                    lemma_log_view_stop(input);
                }
                Err(Ending::Corrupt)
            },
        };
        match step {
            Ok((event, end)) => {
                let ghost shown = event@;
                events.push(event);
                proof {
                    let rest = log_view(bytes@.skip(end as int)).events;
                    assert(events_view(events@) =~= before.push(shown));
                    assert(before + (seq![shown] + rest) =~= before.push(shown) + rest);
                }
                pos = end;
            },
            Err(ending) => {
                proof {
                    assert(before + Seq::<EventView>::empty() =~= before);
                }
                return LogContents { events, ending, consumed: pos };
            },
        }
    }
    proof {
        lemma_log_view_empty(bytes@.skip(pos as int));
        assert(events_view(events@) + Seq::<EventView>::empty() =~= events_view(events@));
    }
    LogContents { events, ending: Ending::Clean, consumed: pos }
}

/// An append-only log held in memory: the bytes that the log file holds, in
/// the order in which they were appended.
pub struct TraceLog {
    bytes: Vec<u8>,
}

impl View for TraceLog {
    type V = Seq<u8>;

    closed spec fn view(&self) -> Seq<u8> {
        self.bytes@
    }
}

impl TraceLog {
    /// An empty log.
    pub fn new() -> (log: TraceLog)
        ensures
            log@ == Seq::<u8>::empty(),
    {
        TraceLog { bytes: Vec::new() }
    }

    /// The log that holds `bytes`: what a log file held when it was opened.
    pub fn from_bytes(bytes: Vec<u8>) -> (log: TraceLog)
        ensures
            log@ == bytes@,
    {
        TraceLog { bytes }
    }

    /// The bytes of the log.
    pub fn as_bytes(&self) -> (bytes: &[u8])
        ensures
            bytes@ == self@,
    {
        self.bytes.as_slice()
    }

    /// The number of bytes in the log.
    pub fn len(&self) -> (len: usize)
        ensures
            len == self@.len(),
    {
        self.bytes.len()
    }

    /// Adds `record` at the end. What the log held stays as it was, byte for byte.
    pub fn append(&mut self, record: &[u8])
        ensures
            final(self)@ == old(self)@ + record@,
    {
        put_bytes(&mut self.bytes, record);
    }

    /// Empties the log, whether or not it held anything.
    pub fn reset(&mut self)
        ensures
            final(self)@ == Seq::<u8>::empty(),
    {
        self.bytes = Vec::new();
    }

    /// Encodes `event` and adds its record at the end. An event that breaks a
    /// constraint of the wire form is rejected and leaves the log as it was.
    pub fn record(&mut self, event: &Event) -> (r: Result<(), EncodingError>)
        ensures
            match r {
                Ok(()) => encodable(event@) && final(self)@ == old(self)@ + record_bytes(event@),
                Err(error) => encoding_error(event@) == Some(error) && final(self)@ == old(self)@,
            },
    {
        match encode(event) {
            Ok(record) => {
                self.append(record.as_slice());
                Ok(())
            },
            Err(error) => Err(error),
        }
    }

    /// Reads the log back: its events, and how the reading ended.
    pub fn read(&self) -> (contents: LogContents)
        ensures
            contents@ == log_view(self@),
            contents.consumed <= self@.len(),
            contents.ending is Clean <==> contents.consumed == self@.len(),
            forall|i: int|
                0 <= i < contents.events@.len() ==> (#[trigger] contents.events@[i])@.valid(),
    {
        read_log(self.bytes.as_slice())
    }
}

} // verus!

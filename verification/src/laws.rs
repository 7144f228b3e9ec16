//! What holds of records and logs as a whole.

use vstd::prelude::*;
use crate::event::{encoding_error, EventView};
use crate::log::{
    lemma_log_view_empty, lemma_log_view_record, lemma_log_view_stop, log_view, Ending, LogView,
};
use crate::record::{framed, lemma_frame_written, record_bytes, record_event, take_frame, FrameView};
use crate::round_trip::{lemma_event_round_trip, lemma_read_event_is_valid};
use crate::schema::{encodable, payload_bytes};
use crate::varint::{
    lemma_take_varint_written, lemma_varint_cut, lemma_varint_len_u64, take_varint, varint,
    MAX_VARINT_LEN,
};

verus! {

/// Every event of the list can be written.
pub open spec fn events_ok(events: Seq<EventView>) -> bool {
    forall|i: int| 0 <= i < events.len() ==> encodable(#[trigger] events[i])
}

/// The log that holds the records of `events`, in their order.
pub open spec fn log_bytes(events: Seq<EventView>) -> Seq<u8>
    decreases events.len(),
{
    if events.len() == 0 {
        Seq::empty()
    } else {
        log_bytes(events.drop_last()) + record_bytes(events.last())
    }
}

/// The log after `records` were appended to `log`, one after another: what
/// one call of `TraceLog::append` for each of them leaves.
pub open spec fn appended(log: Seq<u8>, records: Seq<Seq<u8>>) -> Seq<u8>
    decreases records.len(),
{
    if records.len() == 0 {
        log
    } else {
        appended(log, records.drop_last()) + records.last()
    }
}

/// Decoding the record of a valid event gives the event back, equal in every
/// field, the timestamp among them.
pub proof fn law_round_trip(event: EventView)
    requires
        encodable(event),
    ensures
        record_event(record_bytes(event)) == Some(event),
{
    let payload = payload_bytes(event);
    lemma_frame_written(payload, Seq::empty());
    assert(framed(payload) + Seq::<u8>::empty() =~= framed(payload));
    lemma_event_round_trip(event);
}

/// Two events with the same record are the same event.
pub proof fn law_records_tell_events_apart(first: EventView, second: EventView)
    requires
        encodable(first),
        encodable(second),
        record_bytes(first) == record_bytes(second),
    ensures
        first == second,
{
    law_round_trip(first);
    law_round_trip(second);
}

/// An event is rejected exactly where it breaks a constraint of the wire
/// form, and an event that meets them all owes no error.
pub proof fn law_rejected_iff_invalid(event: EventView)
    ensures
        encoding_error(event) is None <==> event.valid(),
{
}

/// The length that a record declares in front is the exact number of bytes of
/// the payload behind it, and the record holds nothing else.
pub proof fn law_length_prefix(event: EventView)
    requires
        encodable(event),
    ensures
        take_varint(record_bytes(event), MAX_VARINT_LEN as nat) == Some(
            (payload_bytes(event).len() as u64, varint(payload_bytes(event).len()).len()),
        ),
        record_bytes(event).len() == varint(payload_bytes(event).len()).len() + payload_bytes(
            event,
        ).len(),
        record_bytes(event).skip(varint(payload_bytes(event).len()).len() as int) == payload_bytes(
            event,
        ),
{
    let payload = payload_bytes(event);
    lemma_frame_written(payload, Seq::empty());
    assert(framed(payload) + Seq::<u8>::empty() =~= framed(payload));
    assert(framed(payload).skip(varint(payload.len()).len() as int) =~= payload);
}

/// Appending never shortens the log.
pub proof fn lemma_appended_grows(log: Seq<u8>, records: Seq<Seq<u8>>, count: int)
    requires
        0 <= count <= records.len(),
    ensures
        appended(log, records.take(count)).len() <= appended(log, records).len(),
        appended(log, records).take(appended(log, records.take(count)).len() as int) == appended(
            log,
            records.take(count),
        ),
    decreases records.len(),
{
    if count == records.len() {
        assert(records.take(count) =~= records);
        assert(appended(log, records).take(appended(log, records).len() as int) =~= appended(
            log,
            records,
        ));
    } else {
        let front = records.drop_last();
        assert(front.take(count) =~= records.take(count));
        lemma_appended_grows(log, front, count);
        let earlier = appended(log, records.take(count));
        assert(appended(log, records).take(earlier.len() as int) =~= appended(log, front).take(
            earlier.len() as int,
        ));
    }
}

/// Appending changes nothing that the log already held: after any number of
/// appends, the bytes that stood in the log after the first `count` of them
/// still stand, each at its place.
pub proof fn law_append_only(log: Seq<u8>, records: Seq<Seq<u8>>, count: int, kept: int)
    requires
        0 <= count <= records.len(),
        0 <= kept <= appended(log, records.take(count)).len(),
    ensures
        kept <= appended(log, records).len(),
        appended(log, records).take(kept) == appended(log, records.take(count)).take(kept),
{
    lemma_appended_grows(log, records, count);
    let earlier = appended(log, records.take(count));
    assert(appended(log, records).take(kept) =~= appended(log, records).take(
        earlier.len() as int,
    ).take(kept));
}

/// A record that is appended after others lies behind all of them, in
/// whatever order the others reached the log: what the log held before the
/// later append is still its beginning, and the later record is its end.
pub proof fn law_later_append_is_last(log: Seq<u8>, earlier: Seq<Seq<u8>>, later: Seq<u8>)
    ensures
        appended(log, earlier.push(later)) == appended(log, earlier) + later,
        appended(log, earlier.push(later)).take(appended(log, earlier).len() as int) == appended(
            log,
            earlier,
        ),
        appended(log, earlier.push(later)).skip(appended(log, earlier).len() as int) == later,
{
    let all = earlier.push(later);
    assert(all.drop_last() =~= earlier);
    let before = appended(log, earlier);
    assert((before + later).take(before.len() as int) =~= before);
    assert((before + later).skip(before.len() as int) =~= later);
}

/// A log begins with the record of its first event.
proof fn lemma_log_bytes_front(events: Seq<EventView>)
    requires
        events.len() > 0,
    ensures
        log_bytes(events) == record_bytes(events[0]) + log_bytes(events.skip(1)),
    decreases events.len(),
{
    if events.len() == 1 {
        assert(events.drop_last() =~= Seq::<EventView>::empty());
        assert(events.skip(1) =~= Seq::<EventView>::empty());
        assert(log_bytes(events) =~= record_bytes(events[0]) + log_bytes(events.skip(1)));
    } else {
        lemma_log_bytes_front(events.drop_last());
        assert(events.drop_last().skip(1) =~= events.skip(1).drop_last());
        assert(events.skip(1).last() == events.last());
        assert(log_bytes(events) =~= record_bytes(events[0]) + log_bytes(events.skip(1)));
    }
}

/// Reading bytes that begin with the record of `first` gives that event
/// first, and then whatever reading the bytes behind the record gives.
proof fn lemma_log_view_first(first: EventView, behind: Seq<u8>)
    requires
        encodable(first),
    ensures
        log_view(record_bytes(first) + behind).events == seq![first] + log_view(behind).events,
        log_view(record_bytes(first) + behind).ending == log_view(behind).ending,
        log_view(record_bytes(first) + behind).consumed == record_bytes(first).len() + log_view(
            behind,
        ).consumed,
{
    let payload = payload_bytes(first);
    let bytes = record_bytes(first) + behind;
    lemma_frame_written(payload, behind);
    lemma_event_round_trip(first);
    lemma_log_view_record(bytes, payload, framed(payload).len(), first);
    assert(bytes.skip(framed(payload).len() as int) =~= behind);
}

/// Reading a log that begins with the records of `events` gives these events
/// first, and then whatever reading the rest gives.
pub proof fn lemma_log_view_written(events: Seq<EventView>, rest: Seq<u8>)
    requires
        events_ok(events),
    ensures
        log_view(log_bytes(events) + rest).events == events + log_view(rest).events,
        log_view(log_bytes(events) + rest).ending == log_view(rest).ending,
        log_view(log_bytes(events) + rest).consumed == log_bytes(events).len() + log_view(
            rest,
        ).consumed,
    decreases events.len(),
{
    if events.len() == 0 {
        assert(log_bytes(events) + rest =~= rest);
        assert(events + log_view(rest).events =~= log_view(rest).events);
    } else {
        let first = events[0];
        let tail = events.skip(1);
        let behind = log_bytes(tail) + rest;
        lemma_log_bytes_front(events);
        assert(log_bytes(events) + rest =~= record_bytes(first) + behind);
        lemma_log_view_first(first, behind);
        assert(events_ok(tail)) by {
            assert forall|i: int| 0 <= i < tail.len() implies encodable(#[trigger] tail[i]) by {
                assert(tail[i] == events[i + 1]);
            }
        }
        lemma_log_view_written(tail, rest);
        assert(seq![first] + (tail + log_view(rest).events) =~= events + log_view(rest).events);
        assert(log_bytes(events).len() == record_bytes(first).len() + log_bytes(tail).len());
    }
}

/// Records come out in the order in which they went in: reading the log that
/// holds the records of `events` gives exactly these events, and ends clean.
pub proof fn law_read_back(events: Seq<EventView>)
    requires
        events_ok(events),
    ensures
        log_view(log_bytes(events)) == (LogView {
            events,
            ending: Ending::Clean,
            consumed: log_bytes(events).len(),
        }),
{
    lemma_log_view_written(events, Seq::empty());
    lemma_log_view_empty(Seq::empty());
    assert(log_bytes(events) + Seq::<u8>::empty() =~= log_bytes(events));
    assert(events + Seq::<EventView>::empty() =~= events);
}

/// What a reader makes of a record is an event that meets the constraints of
/// the wire form: decoding never yields an event that encoding would reject.
pub proof fn law_decoded_is_valid(bytes: Seq<u8>)
    ensures
        match record_event(bytes) {
            Some(event) => event.valid(),
            None => true,
        },
{
    match take_frame(bytes) {
        FrameView::Whole { payload, used } => {
            lemma_read_event_is_valid(payload);
        },
        _ => {},
    }
}

/// After a reset the log is empty, whatever it held before, and one append
/// later it holds exactly that one record.
pub proof fn law_reset_then_append(event: EventView)
    requires
        encodable(event),
    ensures
        appended(Seq::empty(), seq![record_bytes(event)]) == record_bytes(event),
        log_view(appended(Seq::empty(), seq![record_bytes(event)])) == (LogView {
            events: seq![event],
            ending: Ending::Clean,
            consumed: record_bytes(event).len(),
        }),
{
    let records = seq![record_bytes(event)];
    assert(appended(Seq::empty(), records) =~= record_bytes(event)) by {
        reveal_with_fuel(appended, 2);
    }
    let events = seq![event];
    assert(log_bytes(events) =~= record_bytes(event)) by {
        reveal_with_fuel(log_bytes, 2);
    }
    law_read_back(events);
}

/// The beginning of a record, cut anywhere before its end, is seen as cut.
pub proof fn lemma_cut_record(payload: Seq<u8>, kept: int)
    requires
        payload.len() <= u64::MAX,
        0 < kept < framed(payload).len(),
    ensures
        take_frame(framed(payload).take(kept)) is Cut,
{
    let len = payload.len() as u64;
    let prefix = varint(len as nat);
    let partial = framed(payload).take(kept);
    lemma_varint_len_u64(len);
    if kept < prefix.len() {
        assert(partial =~= prefix.take(kept));
        lemma_varint_cut(len as nat, kept as nat, MAX_VARINT_LEN as nat);
        assert forall|i: int| 0 <= i < partial.len() implies #[trigger] partial[i] >= 128 by {
            assert(partial[i] == prefix[i]);
        }
    } else {
        let body = payload.take(kept - prefix.len());
        assert(partial =~= prefix + body);
        lemma_take_varint_written(len, body, MAX_VARINT_LEN as nat);
    }
}

/// A log that ends in the middle of a record gives every record before it,
/// and is reported as truncated: the events read are those of the complete
/// records, and nothing is made of the incomplete one.
pub proof fn law_truncated_tail(events: Seq<EventView>, last: EventView, kept: int)
    requires
        events_ok(events),
        encodable(last),
        0 < kept < record_bytes(last).len(),
    ensures
        log_view(log_bytes(events) + record_bytes(last).take(kept)) == (LogView {
            events,
            ending: Ending::Truncated,
            consumed: log_bytes(events).len(),
        }),
{
    let partial = record_bytes(last).take(kept);
    lemma_cut_record(payload_bytes(last), kept);
    lemma_log_view_stop(partial);
    lemma_log_view_written(events, partial);
    assert(events + Seq::<EventView>::empty() =~= events);
}

} // verus!

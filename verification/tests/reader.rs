use node_trace::event::{EncodingError, Event, EventKind, Message, Timestamp};
use node_trace::log::{read_log, Ending, LogContents, TraceLog};
use node_trace::record::{encode, frame};

fn started(seconds: i64, node_id: &str) -> Event {
    Event {
        timestamp: Timestamp { seconds, nanos: 5 },
        kind: EventKind::NodeStarted { node_id: node_id.to_string() },
    }
}

fn ping(seconds: i64) -> Event {
    Event {
        timestamp: Timestamp { seconds, nanos: 0 },
        kind: EventKind::SendOrdinaryMessage {
            sender: "A".to_string(),
            recipient: "B".to_string(),
            payload: Message::Ping { request_id: "1".to_string(), enr_seq: 5 },
        },
    }
}

#[test]
fn ordinary_message_is_read_back_from_the_log() {
    let mut log = TraceLog::new();
    log.record(&ping(3)).unwrap();
    let contents = log.read();
    assert_eq!(contents.ending, Ending::Clean);
    assert_eq!(contents.events.len(), 1);
    match &contents.events[0].kind {
        EventKind::SendOrdinaryMessage { sender, recipient, payload } => {
            assert_eq!(sender, "A");
            assert_eq!(recipient, "B");
            assert_eq!(payload, &Message::Ping { request_id: "1".to_string(), enr_seq: 5 });
        },
        other => panic!("unexpected event {:?}", other),
    }
}

#[test]
fn truncated_tail_is_reported_and_earlier_records_are_kept() {
    let first = started(1, "A");
    let second = ping(2);
    let third = started(3, "a node with a longer name");
    let mut complete = encode(&first).unwrap();
    complete.extend_from_slice(&encode(&second).unwrap());
    let last = encode(&third).unwrap();
    for kept in 1..last.len() {
        let mut bytes = complete.clone();
        bytes.extend_from_slice(&last[..kept]);
        let contents = read_log(&bytes);
        assert_eq!(contents.events, vec![first.clone(), second.clone()]);
        assert_eq!(contents.ending, Ending::Truncated);
        assert_eq!(contents.consumed, complete.len());
    }
    let mut bytes = complete.clone();
    bytes.extend_from_slice(&last);
    let contents = read_log(&bytes);
    assert_eq!(contents.events, vec![first, second, third]);
    assert_eq!(contents.ending, Ending::Clean);
    assert_eq!(contents.consumed, bytes.len());
}

#[test]
fn truncated_length_prefix_is_reported_as_truncated() {
    let long = Event {
        timestamp: Timestamp { seconds: 1, nanos: 1 },
        kind: EventKind::NodeStarted { node_id: "x".repeat(200) },
    };
    let record = encode(&long).unwrap();
    assert!(record[0] >= 0x80);
    let contents = read_log(&record[..1]);
    assert_eq!(contents.events, vec![]);
    assert_eq!(contents.ending, Ending::Truncated);
    assert_eq!(contents.consumed, 0);
}

#[test]
fn empty_log_reads_clean() {
    assert_eq!(
        read_log(&[]),
        LogContents { events: vec![], ending: Ending::Clean, consumed: 0 }
    );
    assert_eq!(TraceLog::new().read().ending, Ending::Clean);
}

#[test]
fn record_that_holds_no_event_is_reported_as_corrupt() {
    let first = started(1, "A");
    let mut bytes = encode(&first).unwrap();
    let good = bytes.len();
    bytes.extend_from_slice(&frame(&[0xff, 0xff, 0xff]));
    bytes.extend_from_slice(&encode(&first).unwrap());
    let contents = read_log(&bytes);
    assert_eq!(contents.events, vec![first]);
    assert_eq!(contents.ending, Ending::Corrupt);
    assert_eq!(contents.consumed, good);
}

#[test]
fn length_that_is_no_number_is_reported_as_corrupt() {
    let contents = read_log(&[0x80; 12]);
    assert_eq!(contents.events, vec![]);
    assert_eq!(contents.ending, Ending::Corrupt);
    assert_eq!(contents.consumed, 0);
}

#[test]
fn records_come_out_in_the_order_of_the_appends() {
    let mut log = TraceLog::new();
    let mut expected = Vec::new();
    for i in 0..20 {
        let event = if i % 2 == 0 { started(i, "even") } else { ping(i) };
        log.record(&event).unwrap();
        expected.push(event);
    }
    let contents = log.read();
    assert_eq!(contents.events, expected);
    assert_eq!(contents.ending, Ending::Clean);
    assert_eq!(contents.consumed, log.len());
}

#[test]
fn append_leaves_earlier_bytes_as_they_were() {
    let mut log = TraceLog::new();
    let mut snapshots: Vec<Vec<u8>> = Vec::new();
    for i in 0..10 {
        log.record(&started(i, "n")).unwrap();
        snapshots.push(log.as_bytes().to_vec());
    }
    let end = log.as_bytes().to_vec();
    for earlier in &snapshots {
        assert!(earlier.len() <= end.len());
        assert_eq!(&end[..earlier.len()], &earlier[..]);
    }
}

#[test]
fn append_adds_the_bytes_at_the_end() {
    let mut log = TraceLog::from_bytes(vec![1, 2, 3]);
    log.append(&[4, 5]);
    log.append(&[]);
    log.append(&[6]);
    assert_eq!(log.as_bytes(), &[1, 2, 3, 4, 5, 6]);
    assert_eq!(log.len(), 6);
}

#[test]
fn reset_empties_a_log_with_or_without_content() {
    let mut fresh = TraceLog::new();
    fresh.reset();
    assert_eq!(fresh.len(), 0);
    fresh.record(&started(1, "A")).unwrap();
    assert_eq!(fresh.read().events, vec![started(1, "A")]);

    let mut used = TraceLog::new();
    used.record(&started(1, "old")).unwrap();
    used.record(&ping(2)).unwrap();
    used.reset();
    assert_eq!(used.len(), 0);
    used.reset();
    assert_eq!(used.len(), 0);
    used.record(&started(3, "new")).unwrap();
    let contents = used.read();
    assert_eq!(contents.events, vec![started(3, "new")]);
    assert_eq!(contents.ending, Ending::Clean);
    assert_eq!(used.as_bytes(), &encode(&started(3, "new")).unwrap()[..]);
}

#[test]
fn rejected_event_leaves_the_log_as_it_was() {
    let mut log = TraceLog::new();
    log.record(&started(1, "A")).unwrap();
    let before = log.as_bytes().to_vec();
    let bad = Event {
        timestamp: Timestamp { seconds: 1, nanos: 2_000_000_000 },
        kind: EventKind::Shutdown { node_id: "A".to_string() },
    };
    assert_eq!(log.record(&bad), Err(EncodingError::NanosOutOfRange));
    assert_eq!(log.as_bytes(), &before[..]);
    assert_eq!(log.read().events, vec![started(1, "A")]);
}

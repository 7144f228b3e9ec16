use node_trace::encode::{encode_payload, encode_timestamp};
use node_trace::event::{EncodingError, Event, EventKind, Message, Timestamp};
use node_trace::record::{decode, encode, frame, read_frame, record_len, Frame};
use node_trace::varint::{read_varint, MAX_VARINT_LEN};

fn at(seconds: i64, nanos: u32) -> Timestamp {
    Timestamp { seconds, nanos }
}

fn text(s: &str) -> String {
    s.to_string()
}

fn samples() -> Vec<Event> {
    let ping = Message::Ping { request_id: text("1"), enr_seq: 5 };
    let find = Message::FindNode { request_id: text("req-9"), distances: vec![0, 255, 256, u64::MAX] };
    vec![
        Event { timestamp: at(0, 0), kind: EventKind::NodeStarted { node_id: text("A") } },
        Event { timestamp: at(-5, 999_999_999), kind: EventKind::Shutdown { node_id: text("") } },
        Event {
            timestamp: at(1_700_000_000, 123_456_789),
            kind: EventKind::SendOrdinaryMessage {
                sender: text("A"),
                recipient: text("B"),
                payload: ping.clone(),
            },
        },
        Event {
            timestamp: at(i64::MAX, 1),
            kind: EventKind::SendOrdinaryMessage {
                sender: text("0x0102..0304"),
                recipient: text("nœud-ü"),
                payload: Message::Pong {
                    request_id: text("2"),
                    enr_seq: u64::MAX,
                    recipient_ip: text("192.168.0.1"),
                    recipient_port: 9000,
                },
            },
        },
        Event {
            timestamp: at(i64::MIN, 0),
            kind: EventKind::SendOrdinaryMessage {
                sender: text("s"),
                recipient: text("r"),
                payload: find.clone(),
            },
        },
        Event {
            timestamp: at(7, 7),
            kind: EventKind::SendOrdinaryMessage {
                sender: text("s"),
                recipient: text("r"),
                payload: Message::Nodes {
                    request_id: text("3"),
                    total: 2,
                    node_ids: vec![text("n1"), text(""), text("n3")],
                },
            },
        },
        Event {
            timestamp: at(7, 8),
            kind: EventKind::SendOrdinaryMessage {
                sender: text("s"),
                recipient: text("r"),
                payload: Message::Nodes { request_id: text("4"), total: 0, node_ids: vec![] },
            },
        },
        Event {
            timestamp: at(8, 0),
            kind: EventKind::SendOrdinaryMessage {
                sender: text("s"),
                recipient: text("r"),
                payload: Message::Random,
            },
        },
        Event {
            timestamp: at(9, 0),
            kind: EventKind::SendWhoAreYou {
                sender: text("s"),
                recipient: text("r"),
                id_nonce: vec![0, 1, 2, 3, 4, 5, 6, 7, 8, 9, 10, 127, 128, 200, 254, 255],
                enr_seq: 42,
            },
        },
        Event {
            timestamp: at(10, 0),
            kind: EventKind::SendHandshakeMessage {
                sender: text("s"),
                recipient: text("r"),
                updated_record: Some(77),
                payload: ping,
            },
        },
        Event {
            timestamp: at(11, 0),
            kind: EventKind::SendHandshakeMessage {
                sender: text("s"),
                recipient: text("r"),
                updated_record: None,
                payload: find,
            },
        },
    ]
}

#[test]
fn frame_puts_the_length_in_front() {
    assert_eq!(frame(&[]), vec![0x00]);
    assert_eq!(frame(b"abc"), vec![0x03, b'a', b'b', b'c']);
    let long = vec![0x5au8; 300];
    let record = frame(&long);
    assert_eq!(&record[..2], &[0xac, 0x02]);
    assert_eq!(&record[2..], &long[..]);
}

#[test]
fn frame_prefix_has_the_size_that_protobuf_computes() {
    for len in [0usize, 1, 127, 128, 16_383, 16_384, 70_000] {
        let payload = vec![1u8; len];
        let record = frame(&payload);
        let prefix = protobuf::rt::compute_raw_varint64_size(len as u64) as usize;
        assert_eq!(record.len(), prefix + len);
        assert!(record.capacity() >= prefix + len);
    }
}

#[test]
fn record_len_counts_prefix_and_payload() {
    assert_eq!(record_len(0), Some(1));
    assert_eq!(record_len(1), Some(2));
    assert_eq!(record_len(127), Some(128));
    assert_eq!(record_len(128), Some(130));
    assert_eq!(record_len(16_383), Some(16_385));
    assert_eq!(record_len(16_384), Some(16_387));
    assert_eq!(record_len(usize::MAX), None);
    assert_eq!(record_len(usize::MAX - 5), None);
    for len in [0usize, 5, 127, 128, 300, 20_000] {
        assert_eq!(record_len(len), Some(frame(&vec![0u8; len]).len()));
    }
}

#[test]
fn record_of_a_started_node_byte_for_byte() {
    let event = Event { timestamp: at(1, 2), kind: EventKind::NodeStarted { node_id: text("A") } };
    assert_eq!(encode_timestamp(&event.timestamp), vec![0x08, 0x01, 0x10, 0x02]);
    assert_eq!(
        encode_payload(&event).unwrap(),
        vec![0x0a, 0x04, 0x08, 0x01, 0x10, 0x02, 0x12, 0x03, 0x0a, 0x01, 0x41]
    );
    assert_eq!(
        encode(&event).unwrap(),
        vec![0x0b, 0x0a, 0x04, 0x08, 0x01, 0x10, 0x02, 0x12, 0x03, 0x0a, 0x01, 0x41]
    );
}

#[test]
fn timestamp_leaves_out_what_is_zero() {
    assert_eq!(encode_timestamp(&at(0, 0)), Vec::<u8>::new());
    assert_eq!(encode_timestamp(&at(5, 0)), vec![0x08, 0x05]);
    assert_eq!(encode_timestamp(&at(0, 7)), vec![0x10, 0x07]);
    assert_eq!(encode_timestamp(&at(5, 7)), vec![0x08, 0x05, 0x10, 0x07]);
    assert_eq!(
        encode_timestamp(&at(-1, 0)),
        vec![0x08, 0xff, 0xff, 0xff, 0xff, 0xff, 0xff, 0xff, 0xff, 0xff, 0x01]
    );
}

#[test]
fn timestamp_is_read_with_missing_fields_as_zero() {
    fn started_at(stamp: &[u8]) -> Vec<u8> {
        let mut payload = vec![0x0a, stamp.len() as u8];
        payload.extend_from_slice(stamp);
        payload.extend_from_slice(&[0x12, 0x03, 0x0a, 0x01, 0x41]);
        frame(&payload)
    }
    let stamp_of = |stamp: &[u8]| decode(&started_at(stamp)).map(|event| event.timestamp);
    assert_eq!(stamp_of(&[]), Some(at(0, 0)));
    assert_eq!(stamp_of(&[0x08, 0x05]), Some(at(5, 0)));
    assert_eq!(stamp_of(&[0x10, 0x07]), Some(at(0, 7)));
    assert_eq!(stamp_of(&[0x08, 0x05, 0x10, 0x07]), Some(at(5, 7)));
    assert_eq!(stamp_of(&[0x08, 0x00, 0x10, 0x00]), Some(at(0, 0)));
    assert_eq!(stamp_of(&[0x08, 0x00]), Some(at(0, 0)));
    // nanoseconds before seconds, a third field, a field of another number
    assert_eq!(stamp_of(&[0x10, 0x07, 0x08, 0x05]), None);
    assert_eq!(stamp_of(&[0x08, 0x05, 0x10, 0x07, 0x10, 0x07]), None);
    assert_eq!(stamp_of(&[0x18, 0x05]), None);
    // nanoseconds of a whole second
    assert_eq!(stamp_of(&[0x10, 0x80, 0x94, 0xeb, 0xdc, 0x03]), None);
}

#[test]
fn record_of_a_ping_byte_for_byte() {
    let event = Event {
        timestamp: at(0, 0),
        kind: EventKind::SendOrdinaryMessage {
            sender: text("A"),
            recipient: text("B"),
            payload: Message::Ping { request_id: text("1"), enr_seq: 5 },
        },
    };
    let ping = vec![0x0a, 0x01, b'1', 0x10, 0x05];
    let mut body = vec![0x0a, 0x01, b'A', 0x12, 0x01, b'B', 0x1a, 0x05];
    body.extend_from_slice(&ping);
    let mut payload = vec![0x0a, 0x00, 0x22, body.len() as u8];
    payload.extend_from_slice(&body);
    let mut record = vec![payload.len() as u8];
    record.extend_from_slice(&payload);
    assert_eq!(encode(&event).unwrap(), record);
}

#[test]
fn decode_gives_back_every_kind_of_event() {
    for event in samples() {
        let record = encode(&event).unwrap();
        assert_eq!(decode(&record), Some(event));
    }
}

#[test]
fn length_prefix_is_the_size_of_the_payload() {
    for event in samples() {
        let record = encode(&event).unwrap();
        let payload = encode_payload(&event).unwrap();
        let (declared, start) = read_varint(&record, 0, MAX_VARINT_LEN).unwrap();
        assert_eq!(declared as usize, payload.len());
        assert_eq!(record.len() - start, declared as usize);
        assert_eq!(&record[start..], &payload[..]);
        assert_eq!(read_frame(&record, 0), Frame::Whole { start, end: record.len() });
    }
}

#[test]
fn encode_is_deterministic() {
    for event in samples() {
        assert_eq!(encode(&event).unwrap(), encode(&event.clone()).unwrap());
    }
}

#[test]
fn encode_rejects_nanoseconds_of_a_second_or_more() {
    let event = Event {
        timestamp: at(1, 1_000_000_000),
        kind: EventKind::NodeStarted { node_id: text("A") },
    };
    assert_eq!(encode(&event), Err(EncodingError::NanosOutOfRange));
    let last_valid = Event {
        timestamp: at(1, 999_999_999),
        kind: EventKind::NodeStarted { node_id: text("A") },
    };
    assert!(encode(&last_valid).is_ok());
}

#[test]
fn encode_rejects_a_nonce_of_the_wrong_length() {
    for len in [0usize, 15, 17, 32] {
        let event = Event {
            timestamp: at(1, 0),
            kind: EventKind::SendWhoAreYou {
                sender: text("s"),
                recipient: text("r"),
                id_nonce: vec![1u8; len],
                enr_seq: 1,
            },
        };
        assert_eq!(encode(&event), Err(EncodingError::NonceLength));
    }
}

#[test]
fn encode_rejects_a_handshake_that_carries_no_request() {
    let payloads = vec![
        Message::Random,
        Message::Pong {
            request_id: text("1"),
            enr_seq: 1,
            recipient_ip: text("::1"),
            recipient_port: 1,
        },
        Message::Nodes { request_id: text("1"), total: 0, node_ids: vec![] },
    ];
    for payload in payloads {
        let event = Event {
            timestamp: at(1, 0),
            kind: EventKind::SendHandshakeMessage {
                sender: text("s"),
                recipient: text("r"),
                updated_record: None,
                payload,
            },
        };
        assert_eq!(encode(&event), Err(EncodingError::NotARequest));
    }
}

#[test]
fn encode_looks_at_the_timestamp_first() {
    let event = Event {
        timestamp: at(1, u32::MAX),
        kind: EventKind::SendWhoAreYou {
            sender: text("s"),
            recipient: text("r"),
            id_nonce: vec![],
            enr_seq: 1,
        },
    };
    assert_eq!(encode(&event), Err(EncodingError::NanosOutOfRange));
}

#[test]
fn decode_wants_exactly_one_whole_record() {
    let event = Event { timestamp: at(1, 2), kind: EventKind::NodeStarted { node_id: text("A") } };
    let record = encode(&event).unwrap();
    assert_eq!(decode(&[]), None);
    for cut in 0..record.len() {
        assert_eq!(decode(&record[..cut]), None);
    }
    let mut longer = record.clone();
    longer.push(0);
    assert_eq!(decode(&longer), None);
}

#[test]
fn decode_rejects_text_that_is_not_utf8() {
    let event = Event { timestamp: at(1, 2), kind: EventKind::NodeStarted { node_id: text("A") } };
    let mut record = encode(&event).unwrap();
    let last = record.len() - 1;
    assert_eq!(record[last], b'A');
    record[last] = 0xff;
    assert_eq!(decode(&record), None);
    record[last] = b'Z';
    assert_eq!(
        decode(&record),
        Some(Event { timestamp: at(1, 2), kind: EventKind::NodeStarted { node_id: text("Z") } })
    );
}

#[test]
fn decode_rejects_what_the_wire_form_forbids() {
    // nanoseconds of a whole second
    let mut stamp = vec![0x08, 0x01, 0x10];
    stamp.extend_from_slice(&[0x80, 0x94, 0xeb, 0xdc, 0x03]);
    let mut payload = vec![0x0a, stamp.len() as u8];
    payload.extend_from_slice(&stamp);
    payload.extend_from_slice(&[0x12, 0x03, 0x0a, 0x01, 0x41]);
    assert_eq!(decode(&frame(&payload)), None);
    // an event of an unknown kind
    let unknown = vec![0x0a, 0x04, 0x08, 0x01, 0x10, 0x02, 0x3a, 0x03, 0x0a, 0x01, 0x41];
    assert_eq!(decode(&frame(&unknown)), None);
    // the same bytes under the kind of a started node are an event
    let known = vec![0x0a, 0x04, 0x08, 0x01, 0x10, 0x02, 0x12, 0x03, 0x0a, 0x01, 0x41];
    assert!(decode(&frame(&known)).is_some());
}

#[test]
fn read_frame_tells_whole_cut_and_bad_apart() {
    assert_eq!(read_frame(&[0x02, 7, 8], 0), Frame::Whole { start: 1, end: 3 });
    assert_eq!(read_frame(&[0x02, 7, 8, 9], 0), Frame::Whole { start: 1, end: 3 });
    assert_eq!(read_frame(&[0xee, 0x00], 1), Frame::Whole { start: 2, end: 2 });
    assert_eq!(read_frame(&[0x02, 7], 0), Frame::Cut);
    assert_eq!(read_frame(&[0x80], 0), Frame::Cut);
    assert_eq!(read_frame(&[0x80; 9], 0), Frame::Cut);
    assert_eq!(read_frame(&[0x80; 10], 0), Frame::Bad);
    assert_eq!(
        read_frame(&[0xff, 0xff, 0xff, 0xff, 0xff, 0xff, 0xff, 0xff, 0xff, 0x02], 0),
        Frame::Bad
    );
}

#[test]
fn decode_yields_no_event_that_encode_would_reject() {
    fn started_with(kind_slot: u8, body: &[u8]) -> Vec<u8> {
        let mut payload = vec![0x0a, 0x04, 0x08, 0x01, 0x10, 0x02, kind_slot, body.len() as u8];
        payload.extend_from_slice(body);
        frame(&payload)
    }
    // a challenge with a nonce of fifteen entries
    let mut challenge = vec![0x0a, 0x01, b's', 0x12, 0x01, b'r', 0x1a, 15];
    challenge.extend_from_slice(&[7u8; 15]);
    challenge.extend_from_slice(&[0x20, 0x01]);
    assert_eq!(decode(&started_with(0x2a, &challenge)), None);
    // the same with sixteen entries is an event
    let mut challenge = vec![0x0a, 0x01, b's', 0x12, 0x01, b'r', 0x1a, 16];
    challenge.extend_from_slice(&[7u8; 16]);
    challenge.extend_from_slice(&[0x20, 0x01]);
    assert_eq!(
        decode(&started_with(0x2a, &challenge)),
        Some(Event {
            timestamp: at(1, 2),
            kind: EventKind::SendWhoAreYou {
                sender: text("s"),
                recipient: text("r"),
                id_nonce: vec![7u8; 16],
                enr_seq: 1,
            },
        })
    );
    // sixteen entries, one of them too large for a byte
    let mut challenge = vec![0x0a, 0x01, b's', 0x12, 0x01, b'r', 0x1a, 17];
    challenge.extend_from_slice(&[7u8; 15]);
    challenge.extend_from_slice(&[0x80, 0x02]);
    challenge.extend_from_slice(&[0x20, 0x01]);
    assert_eq!(decode(&started_with(0x2a, &challenge)), None);
    // a handshake that carries a random packet
    let handshake = vec![0x0a, 0x01, b's', 0x12, 0x01, b'r', 0x3a, 0x00];
    assert_eq!(decode(&started_with(0x32, &handshake)), None);
    // as an ordinary message the same body is an event
    assert_eq!(
        decode(&started_with(0x22, &handshake)),
        Some(Event {
            timestamp: at(1, 2),
            kind: EventKind::SendOrdinaryMessage {
                sender: text("s"),
                recipient: text("r"),
                payload: Message::Random,
            },
        })
    );
    // a port that is no 32-bit number
    let pong = vec![0x0a, 0x01, b'1', 0x10, 0x01, 0x1a, 0x01, b'i', 0x20, 0x80, 0x80, 0x80, 0x80, 0x10];
    let mut ordinary = vec![0x0a, 0x01, b's', 0x12, 0x01, b'r', 0x22, pong.len() as u8];
    ordinary.extend_from_slice(&pong);
    assert_eq!(decode(&started_with(0x22, &ordinary)), None);
}

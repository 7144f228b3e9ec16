use node_trace::encode::{encode_message, encode_payload, encode_timestamp};
use node_trace::event::{Event, EventKind, Message, Timestamp};
use node_trace::record::encode;
use protobuf::Message as _;

fn protobuf_timestamp(seconds: i64, nanos: i32) -> Vec<u8> {
    let mut timestamp = protobuf::well_known_types::Timestamp::new();
    timestamp.set_seconds(seconds);
    timestamp.set_nanos(nanos);
    timestamp.write_to_bytes().unwrap()
}

#[test]
fn timestamp_body_is_what_protobuf_writes() {
    for (seconds, nanos) in [
        (1i64, 2u32),
        (1_700_000_000, 999_999_999),
        (-1, 1),
        (i64::MIN, 7),
        (i64::MAX, 500),
        (0, 0),
        (5, 0),
        (0, 7),
        (-1, 0),
        (i64::MIN, 0),
    ] {
        assert_eq!(
            encode_timestamp(&Timestamp { seconds, nanos }),
            protobuf_timestamp(seconds, nanos as i32)
        );
    }
}

#[test]
fn timestamp_body_is_parsed_by_protobuf() {
    for (seconds, nanos) in [(0i64, 0u32), (0, 5), (-9, 0), (12, 999_999_999)] {
        let body = encode_timestamp(&Timestamp { seconds, nanos });
        let parsed = protobuf::well_known_types::Timestamp::parse_from_bytes(&body).unwrap();
        assert_eq!(parsed.get_seconds(), seconds);
        assert_eq!(parsed.get_nanos(), nanos as i32);
    }
}

#[test]
fn ping_body_is_what_the_protobuf_stream_writes() {
    let mut expected = Vec::new();
    {
        let mut stream = protobuf::CodedOutputStream::vec(&mut expected);
        stream.write_string(1, "request-1").unwrap();
        stream.write_uint64(2, 1 << 40).unwrap();
        stream.flush().unwrap();
    }
    let ping = Message::Ping { request_id: "request-1".to_string(), enr_seq: 1 << 40 };
    assert_eq!(encode_message(&ping), expected);
}

#[test]
fn find_node_body_is_what_the_protobuf_stream_writes() {
    let distances = vec![256u64, 255, 0, u64::MAX];
    let mut run = Vec::new();
    let mut expected = Vec::new();
    {
        let mut stream = protobuf::CodedOutputStream::vec(&mut run);
        for distance in &distances {
            stream.write_uint64_no_tag(*distance).unwrap();
        }
        stream.flush().unwrap();
    }
    {
        let mut stream = protobuf::CodedOutputStream::vec(&mut expected);
        stream.write_string(1, "7").unwrap();
        stream.write_bytes(2, &run).unwrap();
        stream.flush().unwrap();
    }
    let find = Message::FindNode { request_id: "7".to_string(), distances };
    assert_eq!(encode_message(&find), expected);
}

#[test]
fn record_is_read_by_the_protobuf_stream_reader() {
    let event = Event {
        timestamp: Timestamp { seconds: 1_700_000_000, nanos: 42 },
        kind: EventKind::SendOrdinaryMessage {
            sender: "A".to_string(),
            recipient: "B".to_string(),
            payload: Message::Ping { request_id: "1".to_string(), enr_seq: 5 },
        },
    };
    let record = encode(&event).unwrap();
    let payload = encode_payload(&event).unwrap();

    let mut outer = protobuf::CodedInputStream::from_bytes(&record);
    let declared = outer.read_raw_varint64().unwrap();
    assert_eq!(declared as usize, payload.len());
    let body = outer.read_raw_bytes(declared as u32).unwrap();
    assert!(outer.eof().unwrap());
    assert_eq!(body, payload);

    let mut fields = protobuf::CodedInputStream::from_bytes(&body);
    let (number, kind) = fields.read_tag_unpack().unwrap();
    assert_eq!(number, 1);
    assert_eq!(kind, protobuf::wire_format::WireType::WireTypeLengthDelimited);
    let stamp = fields.read_bytes().unwrap();
    let parsed = protobuf::well_known_types::Timestamp::parse_from_bytes(&stamp).unwrap();
    assert_eq!(parsed.get_seconds(), 1_700_000_000);
    assert_eq!(parsed.get_nanos(), 42);

    let (number, kind) = fields.read_tag_unpack().unwrap();
    assert_eq!(number, 4);
    assert_eq!(kind, protobuf::wire_format::WireType::WireTypeLengthDelimited);
    let sent = fields.read_bytes().unwrap();
    assert!(fields.eof().unwrap());

    let mut inner = protobuf::CodedInputStream::from_bytes(&sent);
    assert_eq!(inner.read_tag_unpack().unwrap().0, 1);
    assert_eq!(inner.read_string().unwrap(), "A");
    assert_eq!(inner.read_tag_unpack().unwrap().0, 2);
    assert_eq!(inner.read_string().unwrap(), "B");
    assert_eq!(inner.read_tag_unpack().unwrap().0, 3);
    let ping = inner.read_bytes().unwrap();
    assert!(inner.eof().unwrap());

    let mut last = protobuf::CodedInputStream::from_bytes(&ping);
    assert_eq!(last.read_tag_unpack().unwrap().0, 1);
    assert_eq!(last.read_string().unwrap(), "1");
    let (number, kind) = last.read_tag_unpack().unwrap();
    assert_eq!(number, 2);
    assert_eq!(kind, protobuf::wire_format::WireType::WireTypeVarint);
    assert_eq!(last.read_uint64().unwrap(), 5);
    assert!(last.eof().unwrap());
}

#[test]
fn short_form_is_what_the_node_identifier_displays() {
    let mut raw = [0x5au8; 32];
    raw[0] = 0x00;
    raw[1] = 0x0f;
    raw[30] = 0xf0;
    raw[31] = 0xff;
    let shown = format!("{}", enr::NodeId::new(&raw));
    assert_eq!(shown, "0x000f..f0ff");
    assert_eq!(node_trace::rpc::label_nodes(&vec![raw]), vec![shown]);
}

#[test]
fn timestamp_that_protobuf_wrote_is_read_back() {
    for (seconds, nanos) in [(0i64, 0u32), (5, 0), (0, 7), (-3, 0), (1_700_000_000, 1), (i64::MIN, 0)] {
        let stamp = protobuf_timestamp(seconds, nanos as i32);
        let mut payload = Vec::new();
        {
            let mut stream = protobuf::CodedOutputStream::vec(&mut payload);
            stream.write_bytes(1, &stamp).unwrap();
            stream.write_bytes(2, &[0x0a, 0x01, 0x41]).unwrap();
            stream.flush().unwrap();
        }
        let record = node_trace::record::frame(&payload);
        assert_eq!(
            node_trace::record::decode(&record),
            Some(Event {
                timestamp: Timestamp { seconds, nanos },
                kind: EventKind::NodeStarted { node_id: "A".to_string() },
            })
        );
        assert_eq!(encode(&node_trace::record::decode(&record).unwrap()).unwrap(), record);
    }
}

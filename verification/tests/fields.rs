use node_trace::encode::put_text_field;
use node_trace::text::{body_in, read_text, text_in, word_in};
use node_trace::wire::{
    copy_range, put_bytes, put_bytes_field, put_varint_field, read_field, read_fields, Field, Value,
};

#[test]
fn varint_field_is_key_then_value() {
    let mut out = Vec::new();
    put_varint_field(&mut out, 1, 150);
    assert_eq!(out, vec![0x08, 0x96, 0x01]);
    let mut out = Vec::new();
    put_varint_field(&mut out, 16, 0);
    assert_eq!(out, vec![0x80, 0x01, 0x00]);
}

#[test]
fn bytes_field_is_key_length_and_bytes() {
    let mut out = vec![0xaa];
    put_bytes_field(&mut out, 2, b"testing");
    assert_eq!(out, vec![0xaa, 0x12, 0x07, b't', b'e', b's', b't', b'i', b'n', b'g']);
    let mut out = Vec::new();
    put_bytes_field(&mut out, 3, &[]);
    assert_eq!(out, vec![0x1a, 0x00]);
}

#[test]
fn text_field_carries_utf8() {
    let mut out = Vec::new();
    put_text_field(&mut out, 1, "é");
    assert_eq!(out, vec![0x0a, 0x02, 0xc3, 0xa9]);
}

#[test]
fn largest_field_number_is_written_and_read() {
    let mut out = Vec::new();
    put_varint_field(&mut out, 0x1fff_ffff, 7);
    assert_eq!(out, vec![0xf8, 0xff, 0xff, 0xff, 0x0f, 0x07]);
    assert_eq!(
        read_fields(&out),
        Some(vec![Field { number: 0x1fff_ffff, value: Value::Varint(7) }])
    );
}

#[test]
fn read_fields_gives_back_what_was_written() {
    let mut out = Vec::new();
    put_varint_field(&mut out, 1, u64::MAX);
    put_bytes_field(&mut out, 2, &[1, 2, 3]);
    put_bytes_field(&mut out, 2, &[]);
    put_varint_field(&mut out, 300, 0);
    assert_eq!(
        read_fields(&out),
        Some(vec![
            Field { number: 1, value: Value::Varint(u64::MAX) },
            Field { number: 2, value: Value::Bytes(vec![1, 2, 3]) },
            Field { number: 2, value: Value::Bytes(vec![]) },
            Field { number: 300, value: Value::Varint(0) },
        ])
    );
    assert_eq!(read_fields(&[]), Some(vec![]));
}

#[test]
fn read_field_stops_behind_the_field() {
    let bytes = [0xee, 0x12, 0x02, 9, 8, 0x08, 0x01];
    assert_eq!(
        read_field(&bytes, 1),
        Some((Field { number: 2, value: Value::Bytes(vec![9, 8]) }, 5))
    );
    assert_eq!(read_field(&bytes, 5), Some((Field { number: 1, value: Value::Varint(1) }, 7)));
    assert_eq!(read_field(&bytes, 7), None);
}

#[test]
fn read_fields_rejects_what_is_no_run_of_fields() {
    // field number zero
    assert_eq!(read_fields(&[0x00, 0x01]), None);
    // kinds of value that the wire form does not use
    assert_eq!(read_fields(&[0x09, 1, 2, 3, 4, 5, 6, 7, 8]), None);
    assert_eq!(read_fields(&[0x0d, 1, 2, 3, 4]), None);
    // a field number beyond the range
    assert_eq!(read_fields(&[0x80, 0x80, 0x80, 0x80, 0x10, 0x01]), None);
    // a length that runs past the end
    assert_eq!(read_fields(&[0x0a, 0x03, 1, 2]), None);
    // a key without a value
    assert_eq!(read_fields(&[0x08]), None);
    // a whole field, then half of one
    assert_eq!(read_fields(&[0x08, 0x01, 0x0a]), None);
}

#[test]
fn field_accessors_check_number_and_kind() {
    let text = Field { number: 1, value: Value::Bytes(b"abc".to_vec()) };
    let word = Field { number: 2, value: Value::Varint(9) };
    let broken = Field { number: 1, value: Value::Bytes(vec![0xc3]) };
    assert_eq!(text_in(&text, 1), Some("abc".to_string()));
    assert_eq!(text_in(&text, 2), None);
    assert_eq!(text_in(&word, 2), None);
    assert_eq!(text_in(&broken, 1), None);
    assert_eq!(word_in(&word, 2), Some(9));
    assert_eq!(word_in(&word, 1), None);
    assert_eq!(word_in(&text, 1), None);
    assert_eq!(body_in(&broken, 1), Some(&[0xc3u8][..]));
    assert_eq!(body_in(&broken, 3), None);
    assert_eq!(body_in(&word, 2), None);
}

#[test]
fn read_text_accepts_utf8_only() {
    assert_eq!(read_text(b""), Some(String::new()));
    assert_eq!(read_text("grüße, 世界".as_bytes()), Some("grüße, 世界".to_string()));
    assert_eq!(read_text(&[0xff]), None);
    assert_eq!(read_text(&[0xe4, 0xb8]), None);
    assert_eq!(read_text(&[0xed, 0xa0, 0x80]), None);
}

#[test]
fn put_bytes_and_copy_range_move_bytes_unchanged() {
    let mut out = vec![1u8];
    put_bytes(&mut out, &[2, 3]);
    put_bytes(&mut out, &[]);
    assert_eq!(out, vec![1, 2, 3]);
    assert_eq!(copy_range(&out, 1, 3), vec![2, 3]);
    assert_eq!(copy_range(&out, 2, 2), Vec::<u8>::new());
    assert_eq!(copy_range(&out, 0, 3), out);
}

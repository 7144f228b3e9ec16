//! Texts on the wire: a text travels as its UTF-8 bytes in a length-prefixed field.

use vstd::prelude::*;
use vstd::utf8::{
    decode_utf8, encode_utf8, encode_utf8_decode_utf8, encode_utf8_valid_utf8, valid_utf8,
};
use crate::wire::{bytes_field, copy_range, Field, Value, WireField, WireValue};

verus! {

/// The field that carries `text` under `number`.
pub open spec fn text_field(number: u32, text: Seq<char>) -> WireField {
    bytes_field(number, encode_utf8(text))
}

/// The text that `bytes` spell, or nothing where they are not UTF-8.
pub open spec fn text_of(bytes: Seq<u8>) -> Option<Seq<char>> {
    if valid_utf8(bytes) {
        Some(decode_utf8(bytes))
    } else {
        None
    }
}

/// The text of a field that has the number `number`.
pub open spec fn field_text(field: WireField, number: u32) -> Option<Seq<char>> {
    match field.value {
        WireValue::Bytes(b) => if field.number == number {
            text_of(b)
        } else {
            None
        },
        WireValue::Varint(_) => None,
    }
}

/// The varint of a field that has the number `number`.
pub open spec fn field_word(field: WireField, number: u32) -> Option<u64> {
    match field.value {
        WireValue::Varint(v) => if field.number == number {
            Some(v)
        } else {
            None
        },
        WireValue::Bytes(_) => None,
    }
}

/// The bytes of a field that has the number `number`.
pub open spec fn field_body(field: WireField, number: u32) -> Option<Seq<u8>> {
    match field.value {
        WireValue::Bytes(b) => if field.number == number {
            Some(b)
        } else {
            None
        },
        WireValue::Varint(_) => None,
    }
}

/// A text is read back from the field that carries it.
pub proof fn lemma_field_text_written(number: u32, text: Seq<char>)
    ensures
        field_text(text_field(number, text), number) == Some(text),
{
    encode_utf8_valid_utf8(text);
    encode_utf8_decode_utf8(text);
}

/// `String::from_utf8` of std: the text whose UTF-8 bytes are `bytes`, or
/// nothing where `bytes` are not UTF-8.
#[verifier::external_body]
fn string_from_utf8(bytes: Vec<u8>) -> (r: Option<String>)
    ensures
        match r {
            Some(text) => encode_utf8(text@) == bytes@,
            None => !valid_utf8(bytes@),
        },
{
    String::from_utf8(bytes).ok()
}

/// The text that `bytes` spell.
pub fn read_text(bytes: &[u8]) -> (r: Option<String>)
    ensures
        match r {
            Some(text) => text_of(bytes@) == Some(text@),
            None => text_of(bytes@) is None,
        },
{
    let owned = copy_range(bytes, 0, bytes.len());
    proof {
        assert(owned@ =~= bytes@);
    }
    match string_from_utf8(owned) {
        Some(text) => {
            proof {
                encode_utf8_valid_utf8(text@);
                encode_utf8_decode_utf8(text@);
            }
            Some(text)
        },
        None => None,
    }
}

/// The text of `field`, where it has the number `number`.
pub fn text_in(field: &Field, number: u32) -> (r: Option<String>)
    ensures
        match r {
            Some(text) => field_text(field@, number) == Some(text@),
            None => field_text(field@, number) is None,
        },
{
    match &field.value {
        Value::Bytes(b) => {
            if field.number == number {
                read_text(b.as_slice())
            } else {
                None
            }
        },
        Value::Varint(_) => None,
    }
}

/// The varint of `field`, where it has the number `number`.
pub fn word_in(field: &Field, number: u32) -> (r: Option<u64>)
    ensures
        r == field_word(field@, number),
{
    match &field.value {
        Value::Varint(v) => {
            if field.number == number {
                Some(*v)
            } else {
                None
            }
        },
        Value::Bytes(_) => None,
    }
}

/// The bytes of `field`, where it has the number `number`.
pub fn body_in(field: &Field, number: u32) -> (r: Option<&[u8]>)
    ensures
        match r {
            Some(body) => field_body(field@, number) == Some(body@),
            None => field_body(field@, number) is None,
        },
{
    match &field.value {
        Value::Bytes(b) => {
            if field.number == number {
                Some(b.as_slice())
            } else {
                None
            }
        },
        Value::Varint(_) => None,
    }
}

} // verus!

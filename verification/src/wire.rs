//! Tagged fields, the building block of every message body: a field number, then
//! either a variable-length integer or a length-prefixed run of bytes.

use vstd::prelude::*;
use crate::varint::{
    lemma_take_varint_written, lemma_varint_len_u64, put_varint, read_varint, take_varint, varint,
    MAX_VARINT_LEN,
};

verus! {

/// Field numbers run from 1 up to, and not including, this bound.
pub const FIELD_NUMBER_END: u32 = 0x2000_0000;

/// The value of a field, as contracts see it.
pub enum WireValue {
    Varint(u64),
    Bytes(Seq<u8>),
}

/// One field, as contracts see it.
pub struct WireField {
    pub number: u32,
    pub value: WireValue,
}

/// The value of a field.
#[derive(Clone, Debug, PartialEq, Eq)]
pub enum Value {
    /// A number, written as a varint.
    Varint(u64),
    /// A run of bytes, written behind its length.
    Bytes(Vec<u8>),
}

/// One field of a message body.
#[derive(Clone, Debug, PartialEq, Eq)]
pub struct Field {
    pub number: u32,
    pub value: Value,
}

impl View for Value {
    type V = WireValue;

    open spec fn view(&self) -> WireValue {
        match self {
            Value::Varint(v) => WireValue::Varint(*v),
            Value::Bytes(b) => WireValue::Bytes(b@),
        }
    }
}

impl View for Field {
    type V = WireField;

    open spec fn view(&self) -> WireField {
        WireField { number: self.number, value: self.value@ }
    }
}

/// The fields of a list, each by its view.
pub open spec fn fields_view(fields: Seq<Field>) -> Seq<WireField> {
    Seq::new(fields.len(), |i: int| fields[i]@)
}

/// A field with a varint value.
pub open spec fn varint_field(number: u32, value: u64) -> WireField {
    WireField { number, value: WireValue::Varint(value) }
}

/// A field with a length-prefixed value.
pub open spec fn bytes_field(number: u32, bytes: Seq<u8>) -> WireField {
    WireField { number, value: WireValue::Bytes(bytes) }
}

/// A field that can be written: its number is in range and its length fits the prefix.
pub open spec fn field_ok(field: WireField) -> bool {
    &&& 1 <= field.number < FIELD_NUMBER_END
    &&& match field.value {
        WireValue::Varint(_) => true,
        WireValue::Bytes(b) => b.len() <= u64::MAX,
    }
}

/// Every field of the list can be written.
pub open spec fn fields_ok(fields: Seq<WireField>) -> bool {
    forall|i: int| 0 <= i < fields.len() ==> field_ok(#[trigger] fields[i])
}

/// The key in front of a field: its number and, in the low three bits, the kind
/// of its value.
pub open spec fn field_key(field: WireField) -> nat {
    match field.value {
        WireValue::Varint(_) => (field.number * 8) as nat,
        WireValue::Bytes(_) => (field.number * 8 + 2) as nat,
    }
}

/// The bytes of one field.
pub open spec fn field_bytes(field: WireField) -> Seq<u8> {
    match field.value {
        WireValue::Varint(v) => varint(field_key(field)) + varint(v as nat),
        WireValue::Bytes(b) => varint(field_key(field)) + varint(b.len()) + b,
    }
}

/// The bytes of a message body: its fields one after another.
pub open spec fn fields_bytes(fields: Seq<WireField>) -> Seq<u8>
    decreases fields.len(),
{
    if fields.len() == 0 {
        Seq::empty()
    } else {
        fields_bytes(fields.drop_last()) + field_bytes(fields.last())
    }
}

/// The field at the front of `bytes` and the number of bytes it takes, or
/// nothing where the bytes do not begin with a whole field.
pub open spec fn take_field(bytes: Seq<u8>) -> Option<(WireField, nat)> {
    match take_varint(bytes, MAX_VARINT_LEN as nat) {
        None => None,
        Some((key, key_len)) => {
            let number = key / 8;
            let kind = key % 8;
            if number == 0 || number >= FIELD_NUMBER_END || (kind != 0 && kind != 2) {
                None
            } else {
                match take_varint(bytes.skip(key_len as int), MAX_VARINT_LEN as nat) {
                    None => None,
                    Some((word, word_len)) => {
                        let start = key_len + word_len;
                        if kind == 0 {
                            Some((varint_field(number as u32, word), start))
                        } else if word <= bytes.len() - start {
                            Some(
                                (
                                    bytes_field(
                                        number as u32,
                                        bytes.subrange(start as int, start + word),
                                    ),
                                    (start + word) as nat,
                                ),
                            )
                        } else {
                            None
                        }
                    },
                }
            }
        },
    }
}

/// The fields that `bytes` is made of, or nothing where they are not a run of
/// whole fields.
pub open spec fn parse_fields(bytes: Seq<u8>) -> Option<Seq<WireField>>
    decreases bytes.len(),
{
    if bytes.len() == 0 {
        Some(Seq::empty())
    } else {
        match take_field(bytes) {
            Some((field, used)) => {
                if 0 < used <= bytes.len() {
                    match parse_fields(bytes.skip(used as int)) {
                        Some(rest) => Some(seq![field] + rest),
                        None => None,
                    }
                } else {
                    None
                }
            },
            None => None,
        }
    }
}

/// Adding a field at the end adds its bytes at the end.
pub proof fn lemma_fields_bytes_push(fields: Seq<WireField>, field: WireField)
    ensures
        fields_bytes(fields.push(field)) == fields_bytes(fields) + field_bytes(field),
{
    assert(fields.push(field).drop_last() =~= fields);
}

/// The bytes of two lists joined are the bytes of each, joined.
pub proof fn lemma_fields_bytes_concat(front: Seq<WireField>, back: Seq<WireField>)
    ensures
        fields_bytes(front + back) == fields_bytes(front) + fields_bytes(back),
    decreases back.len(),
{
    if back.len() == 0 {
        assert(front + back =~= front);
        assert(fields_bytes(front) + fields_bytes(back) =~= fields_bytes(front));
    } else {
        lemma_fields_bytes_concat(front, back.drop_last());
        assert((front + back).drop_last() =~= front + back.drop_last());
        assert((front + back).last() == back.last());
        assert(fields_bytes(front + back) =~= fields_bytes(front) + fields_bytes(back));
    }
}

/// The bytes of a list of one field.
pub proof fn lemma_fields_bytes_one(first: WireField)
    ensures
        fields_bytes(seq![first]) == field_bytes(first),
{
    lemma_fields_bytes_push(Seq::empty(), first);
    assert(Seq::<WireField>::empty().push(first) =~= seq![first]);
    assert(fields_bytes(seq![first]) =~= field_bytes(first));
}

/// The bytes of a list of two fields.
pub proof fn lemma_fields_bytes_two(first: WireField, second: WireField)
    ensures
        fields_bytes(seq![first, second]) == field_bytes(first) + field_bytes(second),
{
    lemma_fields_bytes_one(first);
    lemma_fields_bytes_push(seq![first], second);
    assert(seq![first].push(second) =~= seq![first, second]);
}

/// The bytes of a list of three fields.
pub proof fn lemma_fields_bytes_three(first: WireField, second: WireField, third: WireField)
    ensures
        fields_bytes(seq![first, second, third]) == field_bytes(first) + field_bytes(second)
            + field_bytes(third),
{
    lemma_fields_bytes_two(first, second);
    lemma_fields_bytes_push(seq![first, second], third);
    assert(seq![first, second].push(third) =~= seq![first, second, third]);
}

/// The bytes of a list of four fields.
pub proof fn lemma_fields_bytes_four(
    first: WireField,
    second: WireField,
    third: WireField,
    fourth: WireField,
)
    ensures
        fields_bytes(seq![first, second, third, fourth]) == field_bytes(first) + field_bytes(second)
            + field_bytes(third) + field_bytes(fourth),
{
    lemma_fields_bytes_three(first, second, third);
    lemma_fields_bytes_push(seq![first, second, third], fourth);
    assert(seq![first, second, third].push(fourth) =~= seq![first, second, third, fourth]);
}

/// A written field with a varint value is read back whole.
proof fn lemma_take_varint_field_written(number: u32, value: u64, rest: Seq<u8>)
    requires
        1 <= number < FIELD_NUMBER_END,
    ensures
        take_field(field_bytes(varint_field(number, value)) + rest) == Some(
            (varint_field(number, value), field_bytes(varint_field(number, value)).len()),
        ),
        field_bytes(varint_field(number, value)).len() > 0,
{
    let key = (number * 8) as u64;
    let key_bytes = varint(key as nat);
    let word_bytes = varint(value as nat);
    let bytes = field_bytes(varint_field(number, value)) + rest;
    lemma_varint_len_u64(key);
    lemma_varint_len_u64(value);
    assert(bytes =~= key_bytes + (word_bytes + rest));
    lemma_take_varint_written(key, word_bytes + rest, MAX_VARINT_LEN as nat);
    assert(bytes.skip(key_bytes.len() as int) =~= word_bytes + rest);
    lemma_take_varint_written(value, rest, MAX_VARINT_LEN as nat);
}

/// A written field with a length-prefixed value is read back whole.
proof fn lemma_take_bytes_field_written(number: u32, body: Seq<u8>, rest: Seq<u8>)
    requires
        1 <= number < FIELD_NUMBER_END,
        body.len() <= u64::MAX,
    ensures
        take_field(field_bytes(bytes_field(number, body)) + rest) == Some(
            (bytes_field(number, body), field_bytes(bytes_field(number, body)).len()),
        ),
        field_bytes(bytes_field(number, body)).len() > 0,
{
    let key = (number * 8 + 2) as u64;
    let len = body.len() as u64;
    let key_bytes = varint(key as nat);
    let word_bytes = varint(len as nat);
    let bytes = field_bytes(bytes_field(number, body)) + rest;
    lemma_varint_len_u64(key);
    lemma_varint_len_u64(len);
    assert(bytes =~= key_bytes + (word_bytes + (body + rest)));
    lemma_take_varint_written(key, word_bytes + (body + rest), MAX_VARINT_LEN as nat);
    assert(bytes.skip(key_bytes.len() as int) =~= word_bytes + (body + rest));
    lemma_take_varint_written(len, body + rest, MAX_VARINT_LEN as nat);
    let start = key_bytes.len() + word_bytes.len();
    assert(bytes.subrange(start as int, start + len) =~= body);
}

/// A written field is read back whole, whatever follows it.
pub proof fn lemma_take_field_written(field: WireField, rest: Seq<u8>)
    requires
        field_ok(field),
    ensures
        take_field(field_bytes(field) + rest) == Some((field, field_bytes(field).len())),
        field_bytes(field).len() > 0,
{
    match field.value {
        WireValue::Varint(value) => {
            lemma_take_varint_field_written(field.number, value, rest);
        },
        WireValue::Bytes(body) => {
            lemma_take_bytes_field_written(field.number, body, rest);
        },
    }
}

/// A written body is read back field by field.
pub proof fn lemma_parse_fields_written(fields: Seq<WireField>)
    requires
        fields_ok(fields),
    ensures
        parse_fields(fields_bytes(fields)) == Some(fields),
    decreases fields.len(),
{
    if fields.len() > 0 {
        let first = fields[0];
        let tail = fields.skip(1);
        assert(fields =~= seq![first] + tail);
        lemma_fields_bytes_concat(seq![first], tail);
        lemma_fields_bytes_push(Seq::empty(), first);
        assert(Seq::<WireField>::empty().push(first) =~= seq![first]);
        assert(fields_bytes(seq![first]) =~= field_bytes(first));
        let bytes = fields_bytes(fields);
        assert(bytes == field_bytes(first) + fields_bytes(tail));
        lemma_take_field_written(first, fields_bytes(tail));
        assert(bytes.skip(field_bytes(first).len() as int) =~= fields_bytes(tail));
        assert(fields_ok(tail)) by {
            assert forall|i: int| 0 <= i < tail.len() implies field_ok(#[trigger] tail[i]) by {
                assert(tail[i] == fields[i + 1]);
            }
        }
        lemma_parse_fields_written(tail);
    }
}

/// Appends `bytes` to `out`.
pub fn put_bytes(out: &mut Vec<u8>, bytes: &[u8])
    ensures
        final(out)@ == old(out)@ + bytes@,
{
    let ghost start = out@;
    let mut i: usize = 0;
    while i < bytes.len()
        invariant
            i <= bytes@.len(),
            out@ == start + bytes@.take(i as int),
        decreases bytes@.len() - i,
    {
        out.push(bytes[i]);
        proof {
            assert(bytes@.take(i + 1) =~= bytes@.take(i as int).push(bytes@[i as int]));
            assert(out@ =~= start + bytes@.take(i + 1));
        }
        i += 1;
    }
    proof {
        assert(bytes@.take(i as int) =~= bytes@);
    }
}

/// Appends a field with a varint value to `out`.
pub fn put_varint_field(out: &mut Vec<u8>, number: u32, value: u64)
    requires
        1 <= number < FIELD_NUMBER_END,
    ensures
        final(out)@ == old(out)@ + field_bytes(varint_field(number, value)),
        field_ok(varint_field(number, value)),
{
    let ghost start = out@;
    let key: u64 = number as u64 * 8;
    put_varint(out, key);
    put_varint(out, value);
    proof {
        assert(out@ =~= start + field_bytes(varint_field(number, value)));
    }
}

/// Appends a field with a length-prefixed value to `out`.
pub fn put_bytes_field(out: &mut Vec<u8>, number: u32, bytes: &[u8])
    requires
        1 <= number < FIELD_NUMBER_END,
    ensures
        final(out)@ == old(out)@ + field_bytes(bytes_field(number, bytes@)),
        field_ok(bytes_field(number, bytes@)),
{
    let ghost start = out@;
    let key: u64 = number as u64 * 8 + 2;
    put_varint(out, key);
    put_varint(out, bytes.len() as u64);
    put_bytes(out, bytes);
    proof {
        assert(out@ =~= start + field_bytes(bytes_field(number, bytes@)));
    }
}

/// A copy of `bytes[from..to]`.
pub fn copy_range(bytes: &[u8], from: usize, to: usize) -> (r: Vec<u8>)
    requires
        from <= to <= bytes@.len(),
    ensures
        r@ == bytes@.subrange(from as int, to as int),
{
    let mut r: Vec<u8> = Vec::new();
    let mut i: usize = from;
    while i < to
        invariant
            from <= i <= to <= bytes@.len(),
            r@ == bytes@.subrange(from as int, i as int),
        decreases to - i,
    {
        r.push(bytes[i]);
        proof {
            assert(r@ =~= bytes@.subrange(from as int, i + 1));
        }
        i += 1;
    }
    r
}

/// Reads the field at `bytes[pos..]` and returns it with the position just
/// behind it.
pub fn read_field(bytes: &[u8], pos: usize) -> (r: Option<(Field, usize)>)
    requires
        pos <= bytes@.len(),
    ensures
        match r {
            Some((field, next)) => take_field(bytes@.skip(pos as int)) == Some(
                (field@, (next - pos) as nat),
            ) && pos < next <= bytes@.len(),
            None => take_field(bytes@.skip(pos as int)) is None,
        },
{
    let ghost input = bytes@.skip(pos as int);
    let (key, after_key) = match read_varint(bytes, pos, MAX_VARINT_LEN) {
        Some(found) => found,
        None => { return None; },
    };
    let number: u64 = key / 8;
    let kind: u64 = key % 8;
    if number == 0 || number >= FIELD_NUMBER_END as u64 || (kind != 0 && kind != 2) {
        return None;
    }
    proof {
        assert(input.skip(after_key - pos) =~= bytes@.skip(after_key as int));
    }
    let (word, start) = match read_varint(bytes, after_key, MAX_VARINT_LEN) {
        Some(found) => found,
        None => { return None; },
    };
    if kind == 0 {
        return Some((Field { number: number as u32, value: Value::Varint(word) }, start));
    }
    if word > (bytes.len() - start) as u64 {
        return None;
    }
    let end: usize = start + word as usize;
    let body = copy_range(bytes, start, end);
    proof {
        assert(input.subrange(start - pos, start - pos + word) =~= body@);
    }
    Some((Field { number: number as u32, value: Value::Bytes(body) }, end))
}

/// Reads a whole message body into its fields.
pub fn read_fields(bytes: &[u8]) -> (r: Option<Vec<Field>>)
    ensures
        match r {
            Some(fields) => parse_fields(bytes@) == Some(fields_view(fields@)),
            None => parse_fields(bytes@) is None,
        },
{
    let mut fields: Vec<Field> = Vec::new();
    let mut pos: usize = 0;
    proof {
        assert(bytes@.skip(0) =~= bytes@);
        match parse_fields(bytes@) {
            Some(rest) => {
                assert(fields_view(fields@) + rest =~= rest);
            },
            None => {},
        }
    }
    while pos < bytes.len()
        invariant
            pos <= bytes@.len(),
            parse_fields(bytes@) == match parse_fields(bytes@.skip(pos as int)) {
                Some(rest) => Some(fields_view(fields@) + rest),
                None => None,
            },
        decreases bytes@.len() - pos,
    {
        let ghost before = fields_view(fields@);
        let ghost input = bytes@.skip(pos as int);
        match read_field(bytes, pos) {
            Some((field, next)) => {
                proof {
                    assert(input.skip(next - pos) =~= bytes@.skip(next as int));
                }
                let ghost shown = field@;
                fields.push(field);
                proof {
                    assert(fields_view(fields@) =~= before.push(shown));
                    match parse_fields(bytes@.skip(next as int)) {
                        Some(rest) => {
                            assert(before + (seq![shown] + rest) =~= before.push(shown) + rest);
                        },
                        None => {},
                    }
                }
                pos = next;
            },
            None => {
                return None;
            },
        }
    }
    proof {
        assert(bytes@.skip(pos as int) =~= Seq::<u8>::empty());
        assert(fields_view(fields@) + Seq::<WireField>::empty() =~= fields_view(fields@));
    }
    Some(fields)
}

} // verus!

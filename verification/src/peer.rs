//! Node identifiers: 32 bytes, written into the log in their short text form.

use vstd::prelude::*;

verus! {

/// The number of bytes of a node identifier.
pub const NODE_ID_LEN: usize = 32;

/// The hexadecimal digit for a value below sixteen, in lower case.
pub open spec fn hex_digit(value: int) -> char {
    if value == 0 {
        '0'
    } else if value == 1 {
        '1'
    } else if value == 2 {
        '2'
    } else if value == 3 {
        '3'
    } else if value == 4 {
        '4'
    } else if value == 5 {
        '5'
    } else if value == 6 {
        '6'
    } else if value == 7 {
        '7'
    } else if value == 8 {
        '8'
    } else if value == 9 {
        '9'
    } else if value == 10 {
        'a'
    } else if value == 11 {
        'b'
    } else if value == 12 {
        'c'
    } else if value == 13 {
        'd'
    } else if value == 14 {
        'e'
    } else {
        'f'
    }
}

/// The two hexadecimal digits of a byte.
pub open spec fn hex_byte(byte: u8) -> Seq<char> {
    seq![hex_digit(byte as int / 16), hex_digit(byte as int % 16)]
}

/// The short text form of a node identifier: `0x`, its first two bytes in
/// hexadecimal, two dots, and its last two bytes.
pub open spec fn node_id_label(raw: Seq<u8>) -> Seq<char>
    recommends
        raw.len() == NODE_ID_LEN,
{
    seq!['0', 'x'] + hex_byte(raw[0]) + hex_byte(raw[1]) + seq!['.', '.'] + hex_byte(raw[30])
        + hex_byte(raw[31])
}

/// The text that `enr::NodeId` displays for the identifier made of `raw` by
/// `NodeId::new`: the short form, in lower-case hexadecimal.
#[verifier::external_body]
pub(crate) fn node_id_text(raw: &[u8; 32]) -> (text: String)
    ensures
        text@ == node_id_label(raw@),
{
    format!("{}", enr::NodeId::new(raw))
}

/// The short text forms of a list of node identifiers, in the order of the list.
pub open spec fn node_id_labels(ids: Seq<[u8; 32]>) -> Seq<Seq<char>> {
    Seq::new(ids.len(), |i: int| node_id_label(ids[i]@))
}

} // verus!

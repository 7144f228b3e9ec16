//! Base-128 variable-length integers, the number format of the record wire form.

use vstd::prelude::*;

verus! {

/// The longest encoding of a 64-bit value, in bytes.
pub const MAX_VARINT_LEN: usize = 10;

/// The encoding of `value`: seven bits per byte, least significant group first,
/// the high bit set on every byte but the last.
pub open spec fn varint(value: nat) -> Seq<u8>
    decreases value,
{
    if value < 128 {
        seq![value as u8]
    } else {
        seq![(value % 128 + 128) as u8] + varint(value / 128)
    }
}

/// What a reader finds at the front of `bytes` when it may look at no more than
/// `limit` bytes: the value and the number of bytes it took, or nothing where
/// the bytes end too early, run past `limit`, or spell more than 64 bits.
pub open spec fn take_varint(bytes: Seq<u8>, limit: nat) -> Option<(u64, nat)>
    decreases limit,
{
    if limit == 0 || bytes.len() == 0 {
        None
    } else if bytes[0] < 128 {
        Some((bytes[0] as u64, 1nat))
    } else {
        match take_varint(bytes.skip(1), (limit - 1) as nat) {
            Some((high, used)) => {
                if high <= (u64::MAX - (bytes[0] - 128)) / 128 {
                    Some((((bytes[0] - 128) + 128 * high) as u64, used + 1))
                } else {
                    None
                }
            },
            None => None,
        }
    }
}

/// An encoding is never empty.
pub proof fn lemma_varint_nonempty(value: nat)
    ensures
        varint(value).len() >= 1,
    decreases value,
{
    if value >= 128 {
        lemma_varint_nonempty(value / 128);
    }
}

/// The first value that no longer fits in `groups` bytes: 128 to that power.
pub open spec fn varint_capacity(groups: nat) -> nat
    decreases groups,
{
    if groups == 0 {
        1
    } else {
        128 * varint_capacity((groups - 1) as nat)
    }
}

/// A value below `varint_capacity(groups)` takes at most `groups` bytes.
pub proof fn lemma_varint_len_bound(value: nat, groups: nat)
    requires
        groups >= 1,
        value < varint_capacity(groups),
    ensures
        varint(value).len() <= groups,
    decreases groups,
{
    if value >= 128 {
        assert(varint_capacity(1) == 128) by {
            reveal_with_fuel(varint_capacity, 2);
        }
        if groups > 1 {
            lemma_varint_len_bound(value / 128, (groups - 1) as nat);
        }
    }
}

/// A 64-bit value takes at most ten bytes.
pub proof fn lemma_varint_len_u64(value: u64)
    ensures
        1 <= varint(value as nat).len() <= MAX_VARINT_LEN,
{
    lemma_varint_nonempty(value as nat);
    assert(varint_capacity(10) > u64::MAX) by {
        reveal_with_fuel(varint_capacity, 11);
    }
    lemma_varint_len_bound(value as nat, 10);
}

/// Reading gives back what was written, whatever follows it.
pub proof fn lemma_take_varint_written(value: u64, rest: Seq<u8>, limit: nat)
    requires
        limit >= varint(value as nat).len(),
    ensures
        take_varint(varint(value as nat) + rest, limit) == Some(
            (value, varint(value as nat).len()),
        ),
    decreases value,
{
    let bytes = varint(value as nat) + rest;
    lemma_varint_nonempty(value as nat);
    if value >= 128 {
        let high = value / 128;
        lemma_varint_nonempty(high as nat);
        assert(bytes.skip(1) =~= varint(high as nat) + rest);
        lemma_take_varint_written(high, rest, (limit - 1) as nat);
        assert(bytes[0] == (value % 128 + 128) as u8);
    }
}

/// An encoding that is cut short is no value: every byte that is left asks
/// for another, and a reader finds nothing.
pub proof fn lemma_varint_cut(value: nat, kept: nat, limit: nat)
    requires
        0 < kept < varint(value).len(),
    ensures
        take_varint(varint(value).take(kept as int), limit) is None,
        forall|i: int| 0 <= i < kept ==> #[trigger] varint(value)[i] >= 128,
    decreases value,
{
    let whole = varint(value);
    let front = whole.take(kept as int);
    if value >= 128 {
        let high = value / 128;
        assert(whole.skip(1) =~= varint(high));
        assert(front[0] == whole[0]);
        assert(front.skip(1) =~= varint(high).take(kept - 1));
        if kept > 1 && limit > 0 {
            lemma_varint_cut(high, (kept - 1) as nat, (limit - 1) as nat);
        } else if kept > 1 {
            lemma_varint_cut(high, (kept - 1) as nat, 0);
        }
        assert forall|i: int| 0 <= i < kept implies #[trigger] whole[i] >= 128 by {
            if i > 0 {
                assert(whole[i] == varint(high)[i - 1]);
            }
        }
    }
}

/// Appends the encoding of `value` to `out`.
pub fn put_varint(out: &mut Vec<u8>, value: u64)
    ensures
        final(out)@ == old(out)@ + varint(value as nat),
{
    let ghost start = out@;
    let mut rest: u64 = value;
    while rest >= 128
        invariant
            out@ + varint(rest as nat) == start + varint(value as nat),
        decreases rest,
    {
        let ghost before = out@;
        let low: u8 = (rest % 128) as u8 + 128;
        out.push(low);
        proof {
            assert(out@ + varint((rest / 128) as nat) =~= before + varint(rest as nat));
        }
        rest = rest / 128;
    }
    let ghost before = out@;
    out.push(rest as u8);
    proof {
        assert(out@ =~= before + varint(rest as nat));
    }
}

/// Reads the value at `bytes[pos..]`, looking at no more than `limit` bytes,
/// and returns it with the position just behind it.
pub fn read_varint(bytes: &[u8], pos: usize, limit: usize) -> (r: Option<(u64, usize)>)
    requires
        pos <= bytes@.len(),
    ensures
        match r {
            Some((value, next)) => take_varint(bytes@.skip(pos as int), limit as nat) == Some(
                (value, (next - pos) as nat),
            ) && pos < next <= bytes@.len(),
            None => take_varint(bytes@.skip(pos as int), limit as nat) is None,
        },
    decreases limit,
{
    if limit == 0 || pos >= bytes.len() {
        return None;
    }
    let first: u8 = bytes[pos];
    if first < 128 {
        return Some((first as u64, pos + 1));
    }
    proof {
        assert(bytes@.skip(pos as int).skip(1) =~= bytes@.skip(pos + 1));
    }
    match read_varint(bytes, pos + 1, limit - 1) {
        Some((high, next)) => {
            let low: u64 = (first - 128) as u64;
            if high <= (u64::MAX - low) / 128 {
                Some((low + 128 * high, next))
            } else {
                None
            }
        },
        None => None,
    }
}

/// A run of values, each in its encoding, one after another.
pub open spec fn packed(values: Seq<u64>) -> Seq<u8>
    decreases values.len(),
{
    if values.len() == 0 {
        Seq::empty()
    } else {
        packed(values.drop_last()) + varint(values.last() as nat)
    }
}

/// The values that `bytes` is a run of, or nothing where it is no such run.
pub open spec fn unpacked(bytes: Seq<u8>) -> Option<Seq<u64>>
    decreases bytes.len(),
{
    if bytes.len() == 0 {
        Some(Seq::empty())
    } else {
        match take_varint(bytes, MAX_VARINT_LEN as nat) {
            Some((value, used)) => {
                if 0 < used <= bytes.len() {
                    match unpacked(bytes.skip(used as int)) {
                        Some(rest) => Some(seq![value] + rest),
                        None => None,
                    }
                } else {
                    None
                }
            },
            None => None,
        }
    }
}

/// A run begins with its first value.
pub proof fn lemma_packed_front(values: Seq<u64>)
    requires
        values.len() > 0,
    ensures
        packed(values) == varint(values[0] as nat) + packed(values.skip(1)),
    decreases values.len(),
{
    if values.len() == 1 {
        assert(values.drop_last() =~= Seq::<u64>::empty());
        assert(values.skip(1) =~= Seq::<u64>::empty());
        assert(packed(values) =~= varint(values[0] as nat) + packed(values.skip(1)));
    } else {
        lemma_packed_front(values.drop_last());
        assert(values.drop_last().skip(1) =~= values.skip(1).drop_last());
        assert(values.skip(1).last() == values.last());
        assert(packed(values) =~= varint(values[0] as nat) + packed(values.skip(1)));
    }
}

/// A written run is read back value by value.
pub proof fn lemma_unpacked_written(values: Seq<u64>)
    ensures
        unpacked(packed(values)) == Some(values),
    decreases values.len(),
{
    if values.len() > 0 {
        let tail = values.skip(1);
        lemma_packed_front(values);
        lemma_varint_len_u64(values[0]);
        lemma_take_varint_written(values[0], packed(tail), MAX_VARINT_LEN as nat);
        assert(packed(values).skip(varint(values[0] as nat).len() as int) =~= packed(tail));
        lemma_unpacked_written(tail);
        assert(seq![values[0]] + tail =~= values);
    } else {
        assert(values =~= Seq::<u64>::empty());
    }
}

/// The encodings of `values`, one after another.
pub fn pack(values: &[u64]) -> (r: Vec<u8>)
    ensures
        r@ == packed(values@),
{
    let mut out: Vec<u8> = Vec::new();
    let mut i: usize = 0;
    while i < values.len()
        invariant
            i <= values@.len(),
            out@ == packed(values@.take(i as int)),
        decreases values@.len() - i,
    {
        put_varint(&mut out, values[i]);
        proof {
            assert(values@.take(i + 1).drop_last() =~= values@.take(i as int));
        }
        i += 1;
    }
    proof {
        assert(values@.take(i as int) =~= values@);
    }
    out
}

/// Reads a run of values that fills `bytes` exactly.
pub fn unpack(bytes: &[u8]) -> (r: Option<Vec<u64>>)
    ensures
        match r {
            Some(values) => unpacked(bytes@) == Some(values@),
            None => unpacked(bytes@) is None,
        },
{
    let mut values: Vec<u64> = Vec::new();
    let mut pos: usize = 0;
    proof {
        assert(bytes@.skip(0) =~= bytes@);
        match unpacked(bytes@) {
            Some(rest) => {
                assert(values@ + rest =~= rest);
            },
            None => {},
        }
    }
    while pos < bytes.len()
        invariant
            pos <= bytes@.len(),
            unpacked(bytes@) == match unpacked(bytes@.skip(pos as int)) {
                Some(rest) => Some(values@ + rest),
                None => None,
            },
        decreases bytes@.len() - pos,
    {
        let ghost before = values@;
        let ghost input = bytes@.skip(pos as int);
        match read_varint(bytes, pos, MAX_VARINT_LEN) {
            Some((value, next)) => {
                proof {
                    assert(input.skip(next - pos) =~= bytes@.skip(next as int));
                }
                values.push(value);
                proof {
                    match unpacked(bytes@.skip(next as int)) {
                        Some(rest) => {
                            assert(before + (seq![value] + rest) =~= before.push(value) + rest);
                        },
                        None => {},
                    }
                }
                pos = next;
            },
            None => {
                return None;
            },
        }
    }
    proof {
        assert(bytes@.skip(pos as int) =~= Seq::<u8>::empty());
        assert(values@ + Seq::<u64>::empty() =~= values@);
    }
    Some(values)
}

} // verus!

//! Little-endian numbers in byte sequences.

use vstd::arithmetic::div_mod;
use vstd::prelude::*;

verus! {

/// The number of values of `count` bytes.
pub open spec fn byte_span(count: nat) -> nat
    decreases count,
{
    if count == 0 {
        1
    } else {
        256 * byte_span((count - 1) as nat)
    }
}

/// The number that a byte sequence spells, least significant byte first.
pub open spec fn le_value(bytes: Seq<u8>) -> nat
    decreases bytes.len(),
{
    if bytes.len() == 0 {
        0
    } else {
        bytes[0] as nat + 256 * le_value(bytes.skip(1))
    }
}

/// Byte `index` of `value`, counted from the least significant one.
pub open spec fn byte_of(value: nat, index: nat) -> u8 {
    (value / byte_span(index) % 256) as u8
}

/// The `count` low bytes of `value`, least significant byte first.
pub open spec fn le_bytes(value: nat, count: nat) -> Seq<u8> {
    Seq::new(count, |index: int| byte_of(value, index as nat))
}

/// The bytes `old` with those under `mask` replaced by the bytes of `value`,
/// over `size` bytes from `offset`.
pub open spec fn merged_bytes(
    old_bytes: Seq<u8>,
    offset: int,
    size: int,
    value: nat,
    mask: Seq<u8>,
) -> Seq<u8> {
    Seq::new(
        old_bytes.len(),
        |i: int|
            if offset <= i < offset + size {
                (old_bytes[i] & !mask[i]) | (byte_of(value, (i - offset) as nat) & mask[i])
            } else {
                old_bytes[i]
            },
    )
}

/// The bytes `old` with `size` bytes from `offset` replaced by those of
/// `value`.
pub open spec fn replaced_bytes(old_bytes: Seq<u8>, offset: int, size: int, value: nat) -> Seq<u8> {
    Seq::new(
        old_bytes.len(),
        |i: int|
            if offset <= i < offset + size {
                byte_of(value, (i - offset) as nat)
            } else {
                old_bytes[i]
            },
    )
}

/// A byte sequence spells less than the span of its length.
pub proof fn lemma_value_bound(bytes: Seq<u8>)
    ensures
        le_value(bytes) < byte_span(bytes.len()),
    decreases bytes.len(),
{
    if bytes.len() > 0 {
        lemma_value_bound(bytes.skip(1));
    }
}

/// Spans up to eight bytes.
pub proof fn lemma_spans()
    ensures
        byte_span(0) == 1,
        byte_span(1) == 0x100,
        byte_span(2) == 0x1_0000,
        byte_span(3) == 0x100_0000,
        byte_span(4) == 0x1_0000_0000,
        byte_span(5) == 0x100_0000_0000,
        byte_span(6) == 0x1_0000_0000_0000,
        byte_span(7) == 0x100_0000_0000_0000,
        byte_span(8) == 0x1_0000_0000_0000_0000,
{
    reveal_with_fuel(byte_span, 9);
}

/// Spans are positive.
pub proof fn lemma_span_positive(count: nat)
    ensures
        byte_span(count) >= 1,
    decreases count,
{
    if count > 0 {
        lemma_span_positive((count - 1) as nat);
    }
}

/// Dropping one more byte divides by 256 once more.
pub proof fn lemma_next_byte(value: nat, index: nat)
    ensures
        value / byte_span(index) / 256 == value / byte_span(index + 1),
{
    lemma_span_positive(index);
    div_mod::lemma_div_denominator(value as int, byte_span(index) as int, 256);
}

/// Byte `index + 1` of a value is byte `index` of the value without its low
/// byte.
pub proof fn lemma_byte_shift(value: nat, index: nat)
    ensures
        byte_of(value, index + 1) == byte_of(value / 256, index),
{
    lemma_span_positive(index);
    div_mod::lemma_div_denominator(value as int, 256, byte_span(index) as int);
}

/// Byte 0 of a value is its remainder.
proof fn lemma_lowest_byte(value: nat)
    ensures
        byte_of(value, 0) == value % 256,
{
    assert(byte_span(0) == 1);
    assert(value / 1 == value);
}

/// Reading back the low bytes of a value gives the value modulo their span.
pub proof fn law_bytes_round_trip(value: nat, count: nat)
    ensures
        le_value(le_bytes(value, count)) == value % byte_span(count),
    decreases count,
{
    if count > 0 {
        let less = (count - 1) as nat;
        law_bytes_round_trip(value / 256, less);
        assert(le_bytes(value, count).skip(1) =~= le_bytes(value / 256, less)) by {
            assert forall|i: int| 0 <= i < less implies le_bytes(value, count).skip(1)[i]
                == le_bytes(value / 256, less)[i] by {
                lemma_byte_shift(value, i as nat);
            }
        }
        lemma_span_positive(less);
        lemma_lowest_byte(value);
        div_mod::lemma_mod_breakdown(value as int, 256, byte_span(less) as int);
        assert(value % byte_span(count) == 256 * (value / 256 % byte_span(less)) + value % 256);
    }
}

/// Splitting the number that a byte sequence spells gives its bytes back.
pub proof fn law_value_round_trip(bytes: Seq<u8>)
    ensures
        le_bytes(le_value(bytes), bytes.len()) == bytes,
    decreases bytes.len(),
{
    let value = le_value(bytes);
    if bytes.len() == 0 {
        assert(le_bytes(value, 0) =~= bytes);
    } else {
        let tail = bytes.skip(1);
        law_value_round_trip(tail);
        assert(value / 256 == le_value(tail));
        assert(value % 256 == bytes[0] as nat);
        assert forall|i: int| 0 <= i < bytes.len() implies le_bytes(value, bytes.len())[i]
            == bytes[i] by {
            if i == 0 {
                lemma_lowest_byte(value);
            } else {
                lemma_byte_shift(value, (i - 1) as nat);
                assert(le_bytes(le_value(tail), tail.len())[i - 1] == tail[i - 1]);
            }
        }
        assert(le_bytes(value, bytes.len()) =~= bytes);
    }
}

/// Reads `size` bytes from `offset` as a little-endian number.
pub fn read_bytes(bytes: &Vec<u8>, offset: usize, size: usize) -> (value: u64)
    requires
        offset + size <= bytes.len(),
        size <= 8,
    ensures
        value == le_value(bytes@.subrange(offset as int, offset + size)),
        value < byte_span(size as nat),
{
    let mut value: u64 = 0;
    let mut index: usize = size;
    proof {
        lemma_spans();
    }
    while index > 0
        invariant
            index <= size <= 8,
            offset + size <= bytes.len(),
            value == le_value(bytes@.subrange(offset + index, offset + size)),
        decreases index,
    {
        index = index - 1;
        proof {
            lemma_spans();
            let rest = bytes@.subrange(offset + index, offset + size);
            assert(rest.skip(1) =~= bytes@.subrange(offset + index + 1, offset + size));
            assert(rest[0] == bytes@[offset + index]);
            lemma_value_bound(rest);
            lemma_span_monotone(rest.len(), 8);
        }
        value = value * 256 + bytes[offset + index] as u64;
    }
    proof {
        lemma_value_bound(bytes@.subrange(offset as int, offset + size));
    }
    value
}

/// More bytes span at least as many values.
pub proof fn lemma_span_monotone(fewer: nat, more: nat)
    requires
        fewer <= more,
    ensures
        byte_span(fewer) <= byte_span(more),
    decreases more,
{
    if fewer < more {
        lemma_span_monotone(fewer, (more - 1) as nat);
        lemma_span_positive((more - 1) as nat);
    }
}

/// Replaces the bits of `size` bytes from `offset` that `mask` opens by those
/// of `value`.
pub fn merge_bytes(bytes: &mut Vec<u8>, offset: usize, size: usize, value: u64, mask: &Vec<u8>)
    requires
        offset + size <= old(bytes).len(),
        offset + size <= mask.len(),
    ensures
        final(bytes)@ == merged_bytes(
            old(bytes)@,
            offset as int,
            size as int,
            value as nat,
            mask@,
        ),
{
    let mut rest: u64 = value;
    let mut index: usize = 0;
    assert(bytes@ =~= merged_bytes(old(bytes)@, offset as int, 0, value as nat, mask@));
    proof {
        lemma_spans();
    }
    while index < size
        invariant
            index <= size,
            offset + size <= bytes.len(),
            offset + size <= mask.len(),
            bytes@.len() == old(bytes)@.len(),
            rest == value as nat / byte_span(index as nat),
            bytes@ == merged_bytes(old(bytes)@, offset as int, index as int, value as nat, mask@),
        decreases size - index,
    {
        let position: usize = offset + index;
        let update: u8 = (rest % 256) as u8;
        let opened: u8 = mask[position];
        let merged: u8 = (bytes[position] & !opened) | (update & opened);
        bytes.set(position, merged);
        proof {
            lemma_next_byte(value as nat, index as nat);
        }
        rest = rest / 256;
        index = index + 1;
        assert(bytes@ =~= merged_bytes(
            old(bytes)@,
            offset as int,
            index as int,
            value as nat,
            mask@,
        ));
    }
}

/// Replaces `size` bytes from `offset` by those of `value`.
pub fn write_bytes(bytes: &mut Vec<u8>, offset: usize, size: usize, value: u64)
    requires
        offset + size <= old(bytes).len(),
    ensures
        final(bytes)@ == replaced_bytes(old(bytes)@, offset as int, size as int, value as nat),
{
    let mut rest: u64 = value;
    let mut index: usize = 0;
    assert(bytes@ =~= replaced_bytes(old(bytes)@, offset as int, 0, value as nat));
    proof {
        lemma_spans();
    }
    while index < size
        invariant
            index <= size,
            offset + size <= bytes.len(),
            bytes@.len() == old(bytes)@.len(),
            rest == value as nat / byte_span(index as nat),
            bytes@ == replaced_bytes(old(bytes)@, offset as int, index as int, value as nat),
        decreases size - index,
    {
        bytes.set(offset + index, (rest % 256) as u8);
        proof {
            lemma_next_byte(value as nat, index as nat);
        }
        rest = rest / 256;
        index = index + 1;
        assert(bytes@ =~= replaced_bytes(old(bytes)@, offset as int, index as int, value as nat));
    }
}

/// Splits a dword into its bytes.
pub fn dword_bytes(value: u32) -> (bytes: Vec<u8>)
    ensures
        bytes@ == le_bytes(value as nat, 4),
{
    let mut bytes: Vec<u8> = vec![0u8; 4];
    write_bytes(&mut bytes, 0, 4, value as u64);
    assert(bytes@ =~= le_bytes(value as nat, 4));
    bytes
}

/// A read gives back what a write of the same place wrote.
pub proof fn law_read_after_write(bytes: Seq<u8>, offset: int, size: nat, value: nat)
    requires
        0 <= offset,
        offset + size <= bytes.len(),
    ensures
        le_value(replaced_bytes(bytes, offset, size as int, value).subrange(offset, offset + size))
            == value % byte_span(size),
{
    assert(replaced_bytes(bytes, offset, size as int, value).subrange(offset, offset + size)
        =~= le_bytes(value, size));
    law_bytes_round_trip(value, size);
}

/// A write leaves every place alone that it does not touch.
pub proof fn law_write_leaves_the_rest(
    bytes: Seq<u8>,
    offset: int,
    size: nat,
    value: nat,
    other: int,
    other_size: nat,
)
    requires
        0 <= offset,
        offset + size <= bytes.len(),
        0 <= other,
        other + other_size <= bytes.len(),
        other + other_size <= offset || offset + size <= other,
    ensures
        replaced_bytes(bytes, offset, size as int, value).subrange(other, other + other_size)
            == bytes.subrange(other, other + other_size),
{
    assert(replaced_bytes(bytes, offset, size as int, value).subrange(other, other + other_size)
        =~= bytes.subrange(other, other + other_size));
}

} // verus!

//! Integers in byte layouts. Every supported machine is little-endian, so
//! native order is little-endian order.

use vstd::prelude::*;

verus! {

/// The 32-bit number at a position.
pub open spec fn u32_at(bytes: Seq<u8>, at: int) -> int {
    bytes[at] + bytes[at + 1] * 0x100 + bytes[at + 2] * 0x1_0000 + bytes[at + 3] * 0x100_0000
}

/// The 64-bit number at a position.
pub open spec fn u64_at(bytes: Seq<u8>, at: int) -> int {
    u32_at(bytes, at) + u32_at(bytes, at + 4) * 0x1_0000_0000
}

/// A 32-bit number as a signed one.
pub open spec fn as_signed(value: int) -> int {
    if value < 0x8000_0000 {
        value
    } else {
        value - 0x1_0000_0000
    }
}

/// One byte of a number, the lowest first.
pub open spec fn byte_of(value: int, index: int) -> u8 {
    if index == 0 {
        (value % 0x100) as u8
    } else if index == 1 {
        (value / 0x100 % 0x100) as u8
    } else if index == 2 {
        (value / 0x1_0000 % 0x100) as u8
    } else {
        (value / 0x100_0000 % 0x100) as u8
    }
}

/// The bytes with a 32-bit number written at a position.
pub open spec fn with_u32(bytes: Seq<u8>, at: int, value: int) -> Seq<u8> {
    bytes.update(at, byte_of(value, 0)).update(at + 1, byte_of(value, 1)).update(
        at + 2,
        byte_of(value, 2),
    ).update(at + 3, byte_of(value, 3))
}

/// The bytes with a 64-bit number written at a position.
pub open spec fn with_u64(bytes: Seq<u8>, at: int, value: int) -> Seq<u8> {
    with_u32(
        with_u32(bytes, at, value % 0x1_0000_0000),
        at + 4,
        value / 0x1_0000_0000,
    )
}

/// So many zero bytes.
pub open spec fn zeros(count: nat) -> Seq<u8> {
    Seq::new(count, |i: int| 0u8)
}

/// Reads a 32-bit number.
pub fn read_u32(bytes: &[u8], offset: usize) -> (result: u32)
    requires
        offset + 4 <= bytes@.len(),
    ensures
        result == u32_at(bytes@, offset as int),
{
    assert(bytes.len() == bytes@.len());
    bytes[offset] as u32 + bytes[offset + 1] as u32 * 0x100 + bytes[offset + 2] as u32 * 0x1_0000
        + bytes[offset + 3] as u32 * 0x100_0000
}

/// Reads a 64-bit number.
pub fn read_u64(bytes: &[u8], offset: usize) -> (result: u64)
    requires
        offset + 8 <= bytes@.len(),
    ensures
        result == u64_at(bytes@, offset as int),
{
    assert(bytes.len() == bytes@.len());
    read_u32(bytes, offset) as u64 + read_u32(bytes, offset + 4) as u64 * 0x1_0000_0000
}

/// Reads a signed 32-bit number.
pub fn read_i32(bytes: &[u8], offset: usize) -> (result: i32)
    requires
        offset + 4 <= bytes@.len(),
    ensures
        result == as_signed(u32_at(bytes@, offset as int)),
{
    let value: u32 = read_u32(bytes, offset);
    if value < 0x8000_0000 {
        value as i32
    } else {
        (value as i64 - 0x1_0000_0000) as i32
    }
}

/// Writes a 32-bit number.
pub fn write_u32(bytes: &mut [u8], offset: usize, value: u32)
    requires
        offset + 4 <= old(bytes)@.len(),
    ensures
        final(bytes)@ == with_u32(old(bytes)@, offset as int, value as int),
{
    assert(bytes.len() == bytes@.len());
    bytes[offset] = (value % 0x100) as u8;
    bytes[offset + 1] = (value / 0x100 % 0x100) as u8;
    bytes[offset + 2] = (value / 0x1_0000 % 0x100) as u8;
    bytes[offset + 3] = (value / 0x100_0000 % 0x100) as u8;
    assert(bytes@ =~= with_u32(old(bytes)@, offset as int, value as int));
}

/// Writes a 64-bit number.
pub fn write_u64(bytes: &mut [u8], offset: usize, value: u64)
    requires
        offset + 8 <= old(bytes)@.len(),
    ensures
        final(bytes)@ == with_u64(old(bytes)@, offset as int, value as int),
{
    assert(bytes.len() == bytes@.len());
    write_u32(bytes, offset, (value % 0x1_0000_0000) as u32);
    write_u32(bytes, offset + 4, (value / 0x1_0000_0000) as u32);
}

/// A number written at a position is read back from it, and every byte outside
/// stays as it was.
pub proof fn written_u32_is_read_back(bytes: Seq<u8>, at: int, value: int, other: int)
    requires
        0 <= at,
        at + 4 <= bytes.len(),
        0 <= value < 0x1_0000_0000,
    ensures
        u32_at(with_u32(bytes, at, value), at) == value,
        with_u32(bytes, at, value).len() == bytes.len(),
        0 <= other < bytes.len() && !(at <= other < at + 4) ==> with_u32(bytes, at, value)[other]
            == bytes[other],
{
}

/// The same for 64-bit numbers.
pub proof fn written_u64_is_read_back(bytes: Seq<u8>, at: int, value: int, other: int)
    requires
        0 <= at,
        at + 8 <= bytes.len(),
        0 <= value <= u64::MAX,
    ensures
        u64_at(with_u64(bytes, at, value), at) == value,
        with_u64(bytes, at, value).len() == bytes.len(),
        0 <= other < bytes.len() && !(at <= other < at + 8) ==> with_u64(bytes, at, value)[other]
            == bytes[other],
{
    let low = value % 0x1_0000_0000;
    let high = value / 0x1_0000_0000;
    let first = with_u32(bytes, at, low);
    written_u32_is_read_back(bytes, at, low, other);
    written_u32_is_read_back(first, at + 4, high, other);
    let all = with_u32(first, at + 4, high);
    assert(all[at] == first[at]);
    assert(all[at + 1] == first[at + 1]);
    assert(all[at + 2] == first[at + 2]);
    assert(all[at + 3] == first[at + 3]);
}

/// The little-endian 16-bit number at a position.
pub open spec fn u16_at(bytes: Seq<u8>, at: int) -> int {
    bytes[at] + bytes[at + 1] * 0x100
}

/// Reads the 16-bit number at an offset.
pub fn read_u16(bytes: &[u8], offset: usize) -> (result: u16)
    requires
        offset + 2 <= bytes@.len(),
    ensures
        result == u16_at(bytes@, offset as int),
{
    assert(bytes.len() == bytes@.len());
    bytes[offset] as u16 + bytes[offset + 1] as u16 * 0x100
}

/// The bytes of a list of 32-bit words, one after the other.
pub open spec fn packed(words: Seq<u32>) -> Seq<u8>
    decreases words.len(),
{
    if words.len() == 0 {
        Seq::empty()
    } else {
        let last = words.last() as int;
        packed(words.drop_last()) + seq![
            byte_of(last, 0),
            byte_of(last, 1),
            byte_of(last, 2),
            byte_of(last, 3),
        ]
    }
}

/// Lays out a list of 32-bit words.
pub fn pack_words(words: &[u32]) -> (result: Vec<u8>)
    ensures
        result@ == packed(words@),
{
    let mut bytes: Vec<u8> = Vec::new();
    let mut i: usize = 0;
    while i < words.len()
        invariant
            i <= words@.len(),
            bytes@ == packed(words@.take(i as int)),
        decreases words@.len() - i,
    {
        let word: u32 = words[i];
        proof {
            assert(words@.take(i + 1).drop_last() =~= words@.take(i as int));
        }
        let ghost before = bytes@;
        bytes.push((word % 0x100) as u8);
        bytes.push((word / 0x100 % 0x100) as u8);
        bytes.push((word / 0x1_0000 % 0x100) as u8);
        bytes.push((word / 0x100_0000 % 0x100) as u8);
        assert(bytes@ =~= packed(words@.take(i + 1)));
        i = i + 1;
    }
    assert(words@.take(i as int) =~= words@);
    bytes
}

/// Every word of a layout is found at four times its position.
pub proof fn packed_word_is_read_back(words: Seq<u32>, index: int)
    requires
        0 <= index < words.len(),
    ensures
        packed(words).len() == 4 * words.len(),
        u32_at(packed(words), 4 * index) == words[index],
    decreases words.len(),
{
    packed_length(words.drop_last());
    let before = packed(words.drop_last());
    if index < words.len() - 1 {
        packed_word_is_read_back(words.drop_last(), index);
        assert(packed(words)[4 * index] == before[4 * index]);
        assert(packed(words)[4 * index + 1] == before[4 * index + 1]);
        assert(packed(words)[4 * index + 2] == before[4 * index + 2]);
        assert(packed(words)[4 * index + 3] == before[4 * index + 3]);
    }
}

proof fn packed_length(words: Seq<u32>)
    ensures
        packed(words).len() == 4 * words.len(),
    decreases words.len(),
{
    if words.len() > 0 {
        packed_length(words.drop_last());
    }
}

} // verus!

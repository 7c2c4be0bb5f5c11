//! Little-endian integers in byte buffers.

use crate::error::InvalidParameterCount;
use vstd::prelude::*;

verus! {

/// The value of the two leading bytes of `bytes`, least significant first.
pub open spec fn u16_from_le(bytes: Seq<u8>) -> u16
    recommends
        bytes.len() >= 2,
{
    (bytes[0] as int + 256 * (bytes[1] as int)) as u16
}

/// The value of the four leading bytes of `bytes`, least significant first.
pub open spec fn u32_from_le(bytes: Seq<u8>) -> u32
    recommends
        bytes.len() >= 4,
{
    (bytes[0] as int + 256 * (bytes[1] as int) + 65536 * (bytes[2] as int) + 16777216 * (
    bytes[3] as int)) as u32
}

/// The two bytes that stand for `value`, least significant first.
pub open spec fn u16_to_le(value: u16) -> Seq<u8> {
    seq![(value % 256) as u8, (value / 256) as u8]
}

/// The four bytes that stand for `value`, least significant first.
pub open spec fn u32_to_le(value: u32) -> Seq<u8> {
    seq![
        (value % 256) as u8,
        ((value / 256) % 256) as u8,
        ((value / 65536) % 256) as u8,
        (value / 16777216) as u8,
    ]
}

/// Decodes the 16-bit integer at the start of `buffer`.
///
/// A buffer of fewer than two bytes is refused.
pub fn read_u16_le(buffer: &[u8]) -> (r: Result<u16, InvalidParameterCount>)
    ensures
        buffer@.len() >= 2 ==> r == Ok::<u16, InvalidParameterCount>(u16_from_le(buffer@)),
        buffer@.len() < 2 ==> r == Err::<u16, InvalidParameterCount>(
            InvalidParameterCount { actual: buffer@.len() as usize, expected: 2 },
        ),
{
    if buffer.len() < 2 {
        return Err(InvalidParameterCount { actual: buffer.len(), expected: 2 });
    }
    let low: u16 = buffer[0] as u16;
    let high: u16 = buffer[1] as u16;
    Ok(low + 256 * high)
}

/// Decodes the 32-bit integer at the start of `buffer`.
///
/// A buffer of fewer than four bytes is refused.
pub fn read_u32_le(buffer: &[u8]) -> (r: Result<u32, InvalidParameterCount>)
    ensures
        buffer@.len() >= 4 ==> r == Ok::<u32, InvalidParameterCount>(u32_from_le(buffer@)),
        buffer@.len() < 4 ==> r == Err::<u32, InvalidParameterCount>(
            InvalidParameterCount { actual: buffer@.len() as usize, expected: 4 },
        ),
{
    if buffer.len() < 4 {
        return Err(InvalidParameterCount { actual: buffer.len(), expected: 4 });
    }
    let b0: u32 = buffer[0] as u32;
    let b1: u32 = buffer[1] as u32;
    let b2: u32 = buffer[2] as u32;
    let b3: u32 = buffer[3] as u32;
    Ok(b0 + 256 * b1 + 65536 * b2 + 16777216 * b3)
}

/// Writes `value` into `buffer[offset..offset + 2]`, least significant byte first.
pub fn write_u16_le(buffer: &mut [u8], offset: usize, value: u16)
    requires
        offset + 2 <= old(buffer)@.len(),
    ensures
        final(buffer)@.len() == old(buffer)@.len(),
        final(buffer)@.subrange(offset as int, offset + 2) == u16_to_le(value),
        forall|i: int|
            0 <= i < old(buffer)@.len() && !(offset <= i < offset + 2) ==> final(buffer)@[i] == old(
                buffer,
            )@[i],
{
    buffer[offset] = (value % 256) as u8;
    buffer[offset + 1] = (value / 256) as u8;
    assert(buffer@.subrange(offset as int, offset + 2) =~= u16_to_le(value));
}

/// Writes `value` into `buffer[offset..offset + 4]`, least significant byte first.
pub fn write_u32_le(buffer: &mut [u8], offset: usize, value: u32)
    requires
        offset + 4 <= old(buffer)@.len(),
    ensures
        final(buffer)@.len() == old(buffer)@.len(),
        final(buffer)@.subrange(offset as int, offset + 4) == u32_to_le(value),
        forall|i: int|
            0 <= i < old(buffer)@.len() && !(offset <= i < offset + 4) ==> final(buffer)@[i] == old(
                buffer,
            )@[i],
{
    buffer[offset] = (value % 256) as u8;
    buffer[offset + 1] = ((value / 256) % 256) as u8;
    buffer[offset + 2] = ((value / 65536) % 256) as u8;
    buffer[offset + 3] = (value / 16777216) as u8;
    assert(buffer@.subrange(offset as int, offset + 4) =~= u32_to_le(value));
}

/// Reading back what was written gives the value again, for both widths.
pub proof fn lemma_le_round_trip(half: u16, word: u32)
    ensures
        u16_from_le(u16_to_le(half)) == half,
        u32_from_le(u32_to_le(word)) == word,
{
}

/// Two bytes are the encoding of the value they decode to.
pub proof fn lemma_u16_le_bytes(bytes: Seq<u8>)
    requires
        bytes.len() == 2,
    ensures
        u16_to_le(u16_from_le(bytes)) == bytes,
{
    assert(u16_to_le(u16_from_le(bytes)) =~= bytes);
}

} // verus!

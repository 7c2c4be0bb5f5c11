//! The 16-bit cyclic redundancy check that closes every frame.
//!
//! The check is the remainder of the message, taken as a polynomial over the
//! field of two elements with the first bit of the first byte as the highest
//! term, after division by `x^16 + x^15 + x^2 + 1`.  The register starts at
//! zero, bits are neither reflected nor inverted.

use vstd::prelude::*;

verus! {

/// The generator polynomial without its leading term.
pub const POLYNOMIAL: u16 = 0x8005;

/// One step of the division: the register moves up by one bit, and the
/// polynomial is subtracted where a bit fell out at the top.
pub open spec fn shift(register: u16) -> u16 {
    if register & 0x8000 != 0 {
        (register << 1) ^ 0x8005
    } else {
        register << 1
    }
}

/// `count` steps of the division.
pub open spec fn shifts(register: u16, count: nat) -> u16
    decreases count,
{
    if count == 0 {
        register
    } else {
        shift(shifts(register, (count - 1) as nat))
    }
}

/// The register after `byte` has gone through it.
pub open spec fn update(register: u16, byte: u8) -> u16 {
    shifts(register ^ ((byte as u16) << 8), 8)
}

/// The register after all of `data` has gone through it, starting from `initial`.
pub open spec fn checksum(initial: u16, data: Seq<u8>) -> u16
    decreases data.len(),
{
    if data.len() == 0 {
        initial
    } else {
        update(checksum(initial, data.drop_last()), data.last())
    }
}

/// `data` with the bits of `mask` flipped in the byte at `index`.
pub open spec fn flip(data: Seq<u8>, index: int, mask: u8) -> Seq<u8>
    recommends
        0 <= index < data.len(),
{
    data.update(index, data[index] ^ mask)
}

fn update_register(register: u16, byte: u8) -> (r: u16)
    ensures
        r == update(register, byte),
{
    let start: u16 = register ^ ((byte as u16) << 8);
    let mut acc: u16 = start;
    let mut round: u8 = 0;
    while round < 8
        invariant
            round <= 8,
            acc == shifts(start, round as nat),
        decreases 8 - round,
    {
        if acc & 0x8000 != 0 {
            acc = (acc << 1) ^ POLYNOMIAL;
        } else {
            acc = acc << 1;
        }
        round = round + 1;
    }
    acc
}

/// Runs `data` through a register that holds `initial`.
///
/// A message can be checked piece by piece: the result for one piece is the
/// initial value for the next.
pub fn calculate_checksum(initial: u16, data: &[u8]) -> (crc: u16)
    ensures
        crc == checksum(initial, data@),
{
    let mut crc: u16 = initial;
    let mut i: usize = 0;
    while i < data.len()
        invariant
            i <= data@.len(),
            crc == checksum(initial, data@.take(i as int)),
        decreases data@.len() - i,
    {
        proof {
            assert(data@.take(i + 1).drop_last() =~= data@.take(i as int));
        }
        crc = update_register(crc, data[i]);
        i = i + 1;
    }
    proof {
        assert(data@.take(i as int) =~= data@);
    }
    crc
}

/// A step of the division loses nothing: two registers that differ still
/// differ after it.
proof fn lemma_shift_injective(a: u16, b: u16)
    requires
        a != b,
    ensures
        shift(a) != shift(b),
{
    assert(a != b ==> (if a & 0x8000 != 0 {
        (a << 1) ^ 0x8005
    } else {
        a << 1
    }) != (if b & 0x8000 != 0 {
        (b << 1) ^ 0x8005
    } else {
        b << 1
    })) by (bit_vector);
}

proof fn lemma_shifts_injective(a: u16, b: u16, count: nat)
    requires
        a != b,
    ensures
        shifts(a, count) != shifts(b, count),
    decreases count,
{
    if count > 0 {
        lemma_shifts_injective(a, b, (count - 1) as nat);
        lemma_shift_injective(shifts(a, (count - 1) as nat), shifts(b, (count - 1) as nat));
    }
}

/// The register after a byte tells apart both the registers before it and
/// the bytes that went through.
pub proof fn lemma_update_injective(a: u16, x: u8, b: u16, y: u8)
    requires
        a != b && x == y || a == b && x != y,
    ensures
        update(a, x) != update(b, y),
{
    assert((a != b && x == y || a == b && x != y) ==> a ^ ((x as u16) << 8) != b ^ ((y as u16)
        << 8)) by (bit_vector);
    lemma_shifts_injective(a ^ ((x as u16) << 8), b ^ ((y as u16) << 8), 8);
}

/// Messages of one length that agree everywhere but in one byte have
/// different checksums.
pub proof fn lemma_checksum_one_byte(initial: u16, data: Seq<u8>, other: Seq<u8>, index: int)
    requires
        data.len() == other.len(),
        0 <= index < data.len(),
        data[index] != other[index],
        forall|i: int| 0 <= i < data.len() && i != index ==> data[i] == other[i],
    ensures
        checksum(initial, data) != checksum(initial, other),
    decreases data.len(),
{
    let front = data.drop_last();
    let other_front = other.drop_last();
    if index == data.len() - 1 {
        assert(front =~= other_front);
        lemma_update_injective(
            checksum(initial, front),
            data.last(),
            checksum(initial, other_front),
            other.last(),
        );
    } else {
        lemma_checksum_one_byte(initial, front, other_front, index);
        lemma_update_injective(
            checksum(initial, front),
            data.last(),
            checksum(initial, other_front),
            other.last(),
        );
    }
}

/// Flipping any bits of one byte, at least one of them, changes the checksum.
pub proof fn lemma_checksum_detects_flip(initial: u16, data: Seq<u8>, index: int, mask: u8)
    requires
        0 <= index < data.len(),
        mask != 0,
    ensures
        checksum(initial, flip(data, index, mask)) != checksum(initial, data),
{
    let byte = data[index];
    assert(mask != 0 ==> byte ^ mask != byte) by (bit_vector);
    lemma_checksum_one_byte(initial, flip(data, index, mask), data, index);
}

/// The checksum of a message in two pieces is that of the second piece,
/// started from the checksum of the first.
pub proof fn lemma_checksum_concat(initial: u16, first: Seq<u8>, second: Seq<u8>)
    ensures
        checksum(initial, first + second) == checksum(checksum(initial, first), second),
    decreases second.len(),
{
    if second.len() == 0 {
        assert(first + second =~= first);
    } else {
        assert((first + second).drop_last() =~= first + second.drop_last());
        lemma_checksum_concat(initial, first, second.drop_last());
    }
}

} // verus!

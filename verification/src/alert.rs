//! The health flags that a device sends with every answer.
//!
//! The flags are advice about the device.  An answer that carries them is a
//! good answer: no operation fails because a flag is set.

use vstd::prelude::*;

verus! {

/// The supply voltage is out of range.
pub const INPUT_VOLTAGE: u8 = 0x01;

/// The device is too hot.
pub const OVERHEATING: u8 = 0x04;

/// The position encoder reports values out of range.
pub const ENCODER: u8 = 0x08;

/// An electrical shock was detected on the circuit.
pub const ELECTRICAL_SHOCK: u8 = 0x10;

/// The load has been above what the device can hold for too long.
pub const OVERLOAD: u8 = 0x20;

/// Whether the bit `flag` is set in `bits`.
pub open spec fn has_flag(bits: u8, flag: u8) -> bool {
    bits & flag != 0
}

/// The alert byte of a status packet, as a set of flags.
#[derive(Clone, Copy, Debug, PartialEq, Eq, Structural)]
pub struct AlertFlags {
    /// The byte as the device sent it.
    pub bits: u8,
}

impl AlertFlags {
    /// The flags that the byte `bits` holds.
    pub fn from_bits(bits: u8) -> (flags: AlertFlags)
        ensures
            flags == (AlertFlags { bits }),
    {
        AlertFlags { bits }
    }

    /// Whether no flag is set.
    pub fn is_clear(&self) -> (clear: bool)
        ensures
            clear == (self.bits == 0),
    {
        self.bits == 0
    }

    /// Whether the given flags are all set.
    pub fn contains(&self, flags: u8) -> (all: bool)
        ensures
            all == (self.bits & flags == flags),
    {
        self.bits & flags == flags
    }

    /// Whether the supply voltage is out of range.
    pub fn input_voltage(&self) -> (set: bool)
        ensures
            set == has_flag(self.bits, INPUT_VOLTAGE),
    {
        self.bits & INPUT_VOLTAGE != 0
    }

    /// Whether the device is too hot.
    pub fn overheating(&self) -> (set: bool)
        ensures
            set == has_flag(self.bits, OVERHEATING),
    {
        self.bits & OVERHEATING != 0
    }

    /// Whether the encoder reports values out of range.
    pub fn encoder(&self) -> (set: bool)
        ensures
            set == has_flag(self.bits, ENCODER),
    {
        self.bits & ENCODER != 0
    }

    /// Whether an electrical shock was detected.
    pub fn electrical_shock(&self) -> (set: bool)
        ensures
            set == has_flag(self.bits, ELECTRICAL_SHOCK),
    {
        self.bits & ELECTRICAL_SHOCK != 0
    }

    /// Whether the device is overloaded.
    pub fn overload(&self) -> (set: bool)
        ensures
            set == has_flag(self.bits, OVERLOAD),
    {
        self.bits & OVERLOAD != 0
    }
}

/// No two of the five flags share a bit.
pub proof fn lemma_flags_disjoint()
    ensures
        INPUT_VOLTAGE & OVERHEATING == 0,
        INPUT_VOLTAGE & ENCODER == 0,
        INPUT_VOLTAGE & ELECTRICAL_SHOCK == 0,
        INPUT_VOLTAGE & OVERLOAD == 0,
        OVERHEATING & ENCODER == 0,
        OVERHEATING & ELECTRICAL_SHOCK == 0,
        OVERHEATING & OVERLOAD == 0,
        ENCODER & ELECTRICAL_SHOCK == 0,
        ENCODER & OVERLOAD == 0,
        ELECTRICAL_SHOCK & OVERLOAD == 0,
{
    assert(0x01u8 & 0x04u8 == 0 && 0x01u8 & 0x08u8 == 0 && 0x01u8 & 0x10u8 == 0 && 0x01u8 & 0x20u8
        == 0 && 0x04u8 & 0x08u8 == 0 && 0x04u8 & 0x10u8 == 0 && 0x04u8 & 0x20u8 == 0 && 0x08u8
        & 0x10u8 == 0 && 0x08u8 & 0x20u8 == 0 && 0x10u8 & 0x20u8 == 0) by (bit_vector);
}

/// Flags that share no bit are independent: setting or clearing the one
/// leaves the other as it was.
pub proof fn lemma_flags_independent(bits: u8, flag: u8, other: u8)
    requires
        flag & other == 0,
    ensures
        has_flag(bits | other, flag) == has_flag(bits, flag),
        has_flag(bits & !other, flag) == has_flag(bits, flag),
        has_flag(other, other) == (other != 0),
        !has_flag(0, flag),
{
    assert(flag & other == 0 ==> (bits | other) & flag == bits & flag) by (bit_vector);
    assert(flag & other == 0 ==> (bits & !other) & flag == bits & flag) by (bit_vector);
    assert(other & other == other) by (bit_vector);
    assert(0u8 & flag == 0) by (bit_vector);
}

} // verus!

//! Memory-mapped registers as values: what an access asks for, and what a
//! register holds after it.

use vstd::prelude::*;

verus! {

/// One access to a 32-bit register at an address.
#[derive(Copy, Clone, Debug, PartialEq, Eq, Structural)]
pub enum RegOp {
    /// Set or clear bit `bit`, leaving the others.
    SetBit { addr: u32, bit: u32, on: bool },
    /// Replace the `width` bits from bit `position` up by `value`.
    SetBits { addr: u32, value: u32, position: u32, width: u32 },
    /// Write `value` to the register.
    SetVal { addr: u32, value: u32 },
    /// Read the register and test bit `bit`.
    ReadBit { addr: u32, bit: u32 },
    /// Read the register.
    GetVal { addr: u32 },
}

impl RegOp {
    /// The address of the register that the access goes to.
    pub fn addr(&self) -> (a: u32)
        ensures
            a == match *self {
                RegOp::SetBit { addr, .. } => addr,
                RegOp::SetBits { addr, .. } => addr,
                RegOp::SetVal { addr, .. } => addr,
                RegOp::ReadBit { addr, .. } => addr,
                RegOp::GetVal { addr } => addr,
            },
    {
        match self {
            RegOp::SetBit { addr, .. } => *addr,
            RegOp::SetBits { addr, .. } => *addr,
            RegOp::SetVal { addr, .. } => *addr,
            RegOp::ReadBit { addr, .. } => *addr,
            RegOp::GetVal { addr } => *addr,
        }
    }

    /// Whether the access is one that this library can carry out: its bits
    /// lie within the register.
    pub open spec fn in_range(self) -> bool {
        match self {
            RegOp::SetBit { bit, .. } => bit < 32,
            RegOp::SetBits { position, width, .. } => position < 32 && width <= 32,
            RegOp::SetVal { .. } => true,
            RegOp::ReadBit { bit, .. } => bit < 32,
            RegOp::GetVal { .. } => true,
        }
    }

    /// What the register holds after the access, given what it held.
    pub open spec fn applied(self, current: u32) -> u32 {
        match self {
            RegOp::SetBit { bit, on, .. } => with_bit(current, bit, on),
            RegOp::SetBits { value, position, width, .. } => with_bits(current, value, position, width),
            RegOp::SetVal { value, .. } => value,
            RegOp::ReadBit { .. } => current,
            RegOp::GetVal { .. } => current,
        }
    }

    /// Checks that the access lies within the register.
    pub fn is_in_range(&self) -> (ok: bool)
        ensures
            ok == self.in_range(),
    {
        match self {
            RegOp::SetBit { bit, .. } => *bit < 32,
            RegOp::SetBits { position, width, .. } => *position < 32 && *width <= 32,
            RegOp::SetVal { .. } => true,
            RegOp::ReadBit { bit, .. } => *bit < 32,
            RegOp::GetVal { .. } => true,
        }
    }

    /// The value to write back for this access, given the value read.
    pub fn apply(&self, current: u32) -> (next: u32)
        requires
            self.in_range(),
        ensures
            next == self.applied(current),
    {
        match self {
            RegOp::SetBit { bit, on, .. } => reg_set_bit(current, *bit, *on),
            RegOp::SetBits { value, position, width, .. } => reg_set_bits(
                current,
                *value,
                *position,
                *width,
            ),
            RegOp::SetVal { value, .. } => *value,
            RegOp::ReadBit { .. } => current,
            RegOp::GetVal { .. } => current,
        }
    }
}

/// `current` with bit `bit` set or cleared.
pub open spec fn with_bit(current: u32, bit: u32, on: bool) -> u32 {
    if on {
        current | (1u32 << bit)
    } else {
        current & !(1u32 << bit)
    }
}

/// The low `width` bits set, the others clear.
pub open spec fn low_mask(width: u32) -> u32 {
    if width >= 32 {
        0xFFFF_FFFFu32
    } else {
        ((1u32 << width) - 1) as u32
    }
}

/// `current` with the `width` bits from `position` up replaced by the low
/// `width` bits of `value`.
pub open spec fn with_bits(current: u32, value: u32, position: u32, width: u32) -> u32 {
    (current & !(low_mask(width) << position)) | ((value & low_mask(width)) << position)
}

/// Whether bit `bit` of `value` is set.
pub open spec fn bit_of(value: u32, bit: u32) -> bool {
    (value >> bit) & 1 == 1
}

/// `current` with one bit set or cleared.
pub fn reg_set_bit(current: u32, bit: u32, on: bool) -> (next: u32)
    requires
        bit < 32,
    ensures
        next == with_bit(current, bit, on),
{
    if on {
        current | (1u32 << bit)
    } else {
        current & !(1u32 << bit)
    }
}

/// `current` with a field of `width` bits at `position` replaced by `value`.
pub fn reg_set_bits(current: u32, value: u32, position: u32, width: u32) -> (next: u32)
    requires
        position < 32,
        width <= 32,
    ensures
        next == with_bits(current, value, position, width),
{
    let mask: u32 = if width >= 32 {
        0xFFFF_FFFFu32
    } else {
        assert((1u32 << width) >= 1) by (bit_vector)
            requires
                width < 32,
        ;
        (1u32 << width) - 1
    };
    (current & !(mask << position)) | ((value & mask) << position)
}

/// Whether one bit of a value read from a register is set.
pub fn reg_read_bit(value: u32, bit: u32) -> (set: bool)
    requires
        bit < 32,
    ensures
        set == bit_of(value, bit),
{
    (value >> bit) & 1 == 1
}

/// A bit that was set or cleared reads back as it was written, and every
/// other bit reads as before.
pub proof fn lemma_set_bit_reads_back(current: u32, bit: u32, on: bool, other: u32)
    requires
        bit < 32,
        other < 32,
    ensures
        bit_of(with_bit(current, bit, on), bit) == on,
        other != bit ==> bit_of(with_bit(current, bit, on), other) == bit_of(current, other),
{
    assert(((current | (1u32 << bit)) >> bit) & 1 == 1) by (bit_vector)
        requires
            bit < 32,
    ;
    assert(((current & !(1u32 << bit)) >> bit) & 1 == 0) by (bit_vector)
        requires
            bit < 32,
    ;
    assert(other != bit ==> ((current | (1u32 << bit)) >> other) & 1 == (current >> other) & 1)
        by (bit_vector)
        requires
            bit < 32,
            other < 32,
    ;
    assert(other != bit ==> ((current & !(1u32 << bit)) >> other) & 1 == (current >> other) & 1)
        by (bit_vector)
        requires
            bit < 32,
            other < 32,
    ;
}

/// A two-bit field that was written reads back as the low two bits of what
/// was written, whatever the register held.
pub proof fn lemma_two_bit_field_reads_back(current: u32, value: u32, position: u32)
    requires
        position <= 30,
    ensures
        (with_bits(current, value, position, 2) >> position) & 3 == value & 3,
{
    assert((((current & !((((1u32 << 2u32) - 1) as u32) << position)) | ((value & (((1u32 << 2u32)
        - 1) as u32)) << position)) >> position) & 3 == value & 3) by (bit_vector)
        requires
            position <= 30,
    ;
}

} // verus!

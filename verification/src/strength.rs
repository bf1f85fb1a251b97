//! Action strength, carried as the bit pattern of an IEEE-754 single.

use vstd::prelude::*;

verus! {

/// Bit pattern of the single-precision value `1.0`.
pub const FULL_BITS: u32 = 0x3F80_0000u32;

/// Mask that keeps everything but the sign bit of a single-precision value.
pub const MAGNITUDE_MASK: u32 = 0x7FFF_FFFFu32;

/// The intensity of an action: the bits of a single-precision number.
#[derive(Clone, Copy, Debug, PartialEq, Eq, Structural)]
pub struct Strength {
    pub bits: u32,
}

/// The bits of `bits` with the sign cleared: the absolute value of the
/// number they encode.
pub open spec fn magnitude_bits(bits: u32) -> u32 {
    bits & MAGNITUDE_MASK
}

impl Strength {
    /// The strength a held button contributes.
    pub open spec fn spec_full() -> Strength {
        Strength { bits: FULL_BITS }
    }

    /// The strength of an analog reading with these bits.
    pub open spec fn spec_of_reading(bits: u32) -> Strength {
        Strength { bits: magnitude_bits(bits) }
    }

    /// Whether the encoded number is positive or negative zero.
    pub open spec fn spec_is_zero(self) -> bool {
        magnitude_bits(self.bits) == 0
    }

    pub fn from_bits(bits: u32) -> (s: Strength)
        ensures
            s.bits == bits,
    {
        Strength { bits }
    }

    pub fn full() -> (s: Strength)
        ensures
            s == Self::spec_full(),
    {
        Strength { bits: FULL_BITS }
    }

    /// Discards the sign of an analog reading.
    pub fn of_reading(bits: u32) -> (s: Strength)
        ensures
            s == Self::spec_of_reading(bits),
    {
        Strength { bits: bits & MAGNITUDE_MASK }
    }

    pub fn is_zero(self) -> (z: bool)
        ensures
            z == self.spec_is_zero(),
    {
        self.bits & MAGNITUDE_MASK == 0
    }
}

/// Taking the magnitude twice is the same as taking it once, and a
/// magnitude never has its sign bit set.
pub proof fn lemma_magnitude_idempotent(bits: u32)
    ensures
        magnitude_bits(magnitude_bits(bits)) == magnitude_bits(bits),
        magnitude_bits(bits) <= MAGNITUDE_MASK,
{
    assert((bits & 0x7FFF_FFFFu32) & 0x7FFF_FFFFu32 == bits & 0x7FFF_FFFFu32) by (bit_vector);
    assert(bits & 0x7FFF_FFFFu32 <= 0x7FFF_FFFFu32) by (bit_vector);
}

} // verus!

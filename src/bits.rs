use vstd::prelude::*;

verus! {

/// Biased exponent field (bits 23..31) of a single-precision bit pattern.
pub open spec fn exponent_field(b: u32) -> nat {
    ((b as nat) / 0x80_0000) % 0x100
}

/// The pattern encodes +0.0 or -0.0: every bit but the sign is clear.
pub open spec fn spec_is_zero(b: u32) -> bool {
    (b as nat) % 0x8000_0000 == 0
}

/// The pattern encodes a finite value: its exponent field is not all ones
/// (all ones is an infinity or a NaN).
pub open spec fn spec_is_finite(b: u32) -> bool {
    exponent_field(b) != 0xff
}

/// Whether the single-precision value with bit pattern `b` is zero.
pub fn is_zero_bits(b: u32) -> (r: bool)
    ensures
        r == spec_is_zero(b),
{
    b % 0x8000_0000 == 0
}

/// Whether the single-precision value with bit pattern `b` is finite.
pub fn is_finite_bits(b: u32) -> (r: bool)
    ensures
        r == spec_is_finite(b),
{
    (b / 0x80_0000) % 0x100 != 0xff
}

} // verus!

//! Compile-time descriptions of packed bit fields.

use vstd::prelude::*;
use vstd::arithmetic::power2::pow2;

verus! {

/// A contiguous bit field of a `u32`: `OFFSET` is its least-significant bit
/// and `WIDTH` the number of bits it occupies.
#[derive(Clone, Copy, Debug, Default, PartialEq, Eq)]
pub struct Field<const OFFSET: u8, const WIDTH: u8>;

/// A field description fits inside a 32-bit integer.
pub open spec fn field_fits(offset: u8, width: u8) -> bool {
    &&& 0 < width <= 32
    &&& offset < 32
    &&& offset + width <= 32
}

/// The value of the `width`-bit field starting at bit `offset` of `value`.
pub open spec fn field_value(value: u32, offset: u8, width: u8) -> nat {
    (value as nat / pow2(offset as nat)) % pow2(width as nat)
}

impl<const OFFSET: u8, const WIDTH: u8> Field<OFFSET, WIDTH> {
    /// Creates a field descriptor; the description must fit in 32 bits.
    pub fn new() -> (r: Self)
        requires
            field_fits(OFFSET, WIDTH),
    {
        Self
    }

    /// Extracts this field from a `u32`.
    pub fn extract(self, value: u32) -> (r: u32)
        requires
            field_fits(OFFSET, WIDTH),
        ensures
            r == field_value(value, OFFSET, WIDTH),
            r < pow2(WIDTH as nat),
    {
        let shifted = value >> OFFSET;
        proof {
            vstd::bits::lemma_u32_shr_is_div(value, OFFSET as u32);
        }
        let r = shifted & Self::value_mask();
        proof {
            vstd::arithmetic::power2::lemma_pow2_pos(WIDTH as nat);
            if WIDTH < 32 {
                vstd::bits::lemma_u32_low_bits_mask_is_mod(shifted, WIDTH as nat);
                vstd::bits::lemma_low_bits_mask_values();
            } else {
                vstd::arithmetic::power2::lemma2_to64();
                assert(shifted & 0xffff_ffffu32 == shifted) by (bit_vector);
                assert(shifted < pow2(32));
                vstd::arithmetic::div_mod::lemma_small_mod(shifted as nat, pow2(32));
            }
        }
        r
    }

    /// The mask covering this field before shifting.
    fn value_mask() -> (r: u32)
        requires
            field_fits(OFFSET, WIDTH),
        ensures
            WIDTH < 32 ==> r == vstd::bits::low_bits_mask(WIDTH as nat),
            WIDTH == 32 ==> r == u32::MAX,
    {
        if WIDTH == 32 {
            u32::MAX
        } else {
            proof {
                vstd::bits::lemma_u32_pow2_no_overflow(WIDTH as nat);
                vstd::bits::lemma_u32_shl_is_mul(1, WIDTH as u32);
                vstd::bits::lemma_low_bits_mask_unfold(WIDTH as nat);
            }
            (1u32 << WIDTH) - 1
        }
    }
}

} // verus!

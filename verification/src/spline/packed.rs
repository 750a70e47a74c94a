//! Packed quaternion representations stored in spline blocks.

use vstd::prelude::*;
use vstd::arithmetic::power2::pow2;

use super::bits::{Field, field_value};

verus! {

/// A packed 32-bit (polar) quaternion: bits 0..18 hold angular information,
/// bits 18..28 radial information and bits 28..32 the component signs.
#[derive(Clone, Copy, Debug, PartialEq, Eq)]
pub struct Quat32(pub u32);

impl Quat32 {
    /// Creates a packed quaternion.
    pub fn new(value: u32) -> (r: Self)
        ensures
            r.0 == value,
    {
        Quat32(value)
    }

    /// Returns the raw packed value.
    pub fn raw(self) -> (r: u32)
        ensures
            r == self.0,
    {
        self.0
    }

    /// Returns the packed angular value (bits 0..18).
    pub fn angle(self) -> (r: u32)
        ensures
            r == field_value(self.0, 0, 18),
            r == self.0 % 0x40000,
    {
        let r = Field::<0, 18>::new().extract(self.0);
        proof {
            vstd::arithmetic::power2::lemma2_to64();
            vstd::arithmetic::power2::lemma2_to64_rest();
        }
        r
    }

    /// Returns the packed radial value (bits 18..28).
    pub fn radial(self) -> (r: u32)
        ensures
            r == field_value(self.0, 18, 10),
            r == (self.0 / 0x40000) % 0x400,
    {
        let r = Field::<18, 10>::new().extract(self.0);
        proof {
            vstd::arithmetic::power2::lemma2_to64();
            vstd::arithmetic::power2::lemma2_to64_rest();
        }
        r
    }

    /// Which components of the decoded quaternion are negated: component
    /// `i` when bit `28 + i` is set.
    pub fn negated_components(self) -> (r: [bool; 4])
        ensures
            r@[0] == ((self.0 / 0x10000000) % 2 == 1),
            r@[1] == ((self.0 / 0x20000000) % 2 == 1),
            r@[2] == ((self.0 / 0x40000000) % 2 == 1),
            r@[3] == (self.0 >= 0x80000000),
    {
        let v = self.0;
        assert(((v & (1u32 << 28u32)) != 0) == ((v / 0x10000000) % 2 == 1)
            && ((v & (1u32 << 29u32)) != 0) == ((v / 0x20000000) % 2 == 1)
            && ((v & (1u32 << 30u32)) != 0) == ((v / 0x40000000) % 2 == 1)
            && ((v & (1u32 << 31u32)) != 0) == (v >= 0x80000000)) by (bit_vector);
        [v & (1 << 28) != 0, v & (1 << 29) != 0, v & (1 << 30) != 0, v & (1 << 31) != 0]
    }
}

/// A packed 40-bit quaternion: three 12-bit components, a two-bit index of
/// the reconstructed component and its sign bit, in five bytes.
#[derive(Clone, Copy, Debug, PartialEq, Eq)]
pub struct Quat40 {
    pub bytes: [u8; 5],
}

/// The 40-bit little-endian integer held by five bytes.
pub open spec fn quat40_word(b: Seq<u8>) -> nat {
    b[0] as nat + b[1] as nat * 0x100 + b[2] as nat * 0x10000 + b[3] as nat * 0x1000000
        + b[4] as nat * 0x100000000
}

impl Quat40 {
    /// Creates a packed 40-bit quaternion.
    pub fn new(bytes: [u8; 5]) -> (r: Self)
        ensures
            r.bytes == bytes,
    {
        Quat40 { bytes }
    }

    /// Returns the first 12-bit component (bits 0..12).
    pub fn x(self) -> (r: u16)
        ensures
            r == quat40_x(self.bytes@),
            r == quat40_word(self.bytes@) % 0x1000,
    {
        let b0 = self.bytes[0];
        let b1 = self.bytes[1];
        assert((b0 as u16) | (((b1 & 0x0f) as u16) << 8u16) == b0 + (b1 % 16) * 256) by (bit_vector);
        b0 as u16 | (((b1 & 0x0f) as u16) << 8)
    }

    /// Returns the second 12-bit component (bits 12..24).
    pub fn y(self) -> (r: u16)
        ensures
            r == quat40_y(self.bytes@),
            r == (quat40_word(self.bytes@) / 0x1000) % 0x1000,
    {
        let b1 = self.bytes[1];
        let b2 = self.bytes[2];
        assert(((b1 >> 4u8) as u16) | ((b2 as u16) << 4u16) == b1 / 16 + b2 * 16) by (bit_vector);
        proof {
            let w = quat40_word(self.bytes@);
            let lo = self.bytes@[0] as int + self.bytes@[1] as int * 256;
            let hi = self.bytes@[2] as int * 16 + (self.bytes@[3] as int + self.bytes@[4] as int * 256) * 4096;
            assert(w == lo + hi * 4096);
            assert(0 <= lo < 4096 * 16);
            vstd::arithmetic::div_mod::lemma_fundamental_div_mod_converse(w as int, 4096, lo / 4096 + hi, lo % 4096);
            assert(lo / 4096 == b1 / 16);
            let q = lo / 4096 + hi;
            assert(q == (b1 / 16 + b2 * 16) + (self.bytes@[3] as int + self.bytes@[4] as int * 256) * 4096);
            vstd::arithmetic::div_mod::lemma_mod_multiples_vanish(
                self.bytes@[3] as int + self.bytes@[4] as int * 256, b1 / 16 + b2 * 16, 4096);
        }
        ((b1 >> 4) as u16) | ((b2 as u16) << 4)
    }

    /// Returns the third 12-bit component (bits 24..36).
    pub fn z(self) -> (r: u16)
        ensures
            r == quat40_z(self.bytes@),
            r == (quat40_word(self.bytes@) / 0x1000000) % 0x1000,
    {
        let b3 = self.bytes[3];
        let b4 = self.bytes[4];
        assert((b3 as u16) | (((b4 & 0x0f) as u16) << 8u16) == b3 + (b4 % 16) * 256) by (bit_vector);
        b3 as u16 | (((b4 & 0x0f) as u16) << 8)
    }

    /// Returns the index of the reconstructed quaternion component (bits 36..38).
    pub fn result_shift(self) -> (r: usize)
        ensures
            r == quat40_shift(self.bytes@),
            r == (quat40_word(self.bytes@) / 0x1000000000) % 4,
    {
        let b4 = self.bytes[4];
        assert((b4 >> 4u8) & 0x03 == (b4 / 16) % 4) by (bit_vector);
        ((b4 >> 4) & 0x03) as usize
    }

    /// Returns the sign bit of the reconstructed component (bit 38).
    pub fn sign(self) -> (r: bool)
        ensures
            r == quat40_sign(self.bytes@),
            r == ((quat40_word(self.bytes@) / 0x4000000000) % 2 == 1),
    {
        let b4 = self.bytes[4];
        assert((b4 & 0x40 != 0) == ((b4 / 64) % 2 == 1)) by (bit_vector);
        (b4 & 0x40) != 0
    }

    /// Puts the three stored components in order around the reconstructed
    /// one, which goes to the index given by [`Quat40::result_shift`].
    pub fn place<T: Copy>(self, components: [T; 3], reconstructed: T) -> (r: [T; 4])
        ensures
            forall|i: int| 0 <= i < 4 ==> #[trigger] r@[i] == (if i == quat40_shift(self.bytes@) {
                reconstructed
            } else if i < quat40_shift(self.bytes@) {
                components@[i]
            } else {
                components@[i - 1]
            }),
    {
        let shift = self.result_shift();
        let mut result = [reconstructed; 4];
        let mut source: usize = 0;
        let mut index: usize = 0;
        while index < 4
            invariant
                shift == quat40_shift(self.bytes@),
                shift < 4,
                index <= 4,
                source == (if index <= shift { index as int } else { index - 1 }),
                forall|i: int| 0 <= i < index ==> #[trigger] result@[i] == (if i == shift {
                    reconstructed
                } else if i < shift {
                    components@[i]
                } else {
                    components@[i - 1]
                }),
            decreases 4 - index,
        {
            if index == shift {
                result[index] = reconstructed;
            } else {
                result[index] = components[source];
                source = source + 1;
            }
            index = index + 1;
        }
        result
    }
}

/// The first 12-bit component of a packed 40-bit quaternion.
pub open spec fn quat40_x(b: Seq<u8>) -> nat {
    b[0] as nat + (b[1] % 16) as nat * 256
}

/// The second 12-bit component of a packed 40-bit quaternion.
pub open spec fn quat40_y(b: Seq<u8>) -> nat {
    (b[1] / 16) as nat + b[2] as nat * 16
}

/// The third 12-bit component of a packed 40-bit quaternion.
pub open spec fn quat40_z(b: Seq<u8>) -> nat {
    b[3] as nat + (b[4] % 16) as nat * 256
}

/// The index of the reconstructed component of a packed 40-bit quaternion.
pub open spec fn quat40_shift(b: Seq<u8>) -> nat {
    ((b[4] / 16) % 4) as nat
}

/// The sign of the reconstructed component of a packed 40-bit quaternion.
pub open spec fn quat40_sign(b: Seq<u8>) -> bool {
    (b[4] / 64) % 2 == 1
}

impl Quat40 {
    /// Packs three 12-bit components (each taken modulo 4096), the index of
    /// the omitted component and its sign into a 40-bit quaternion, as the
    /// little-endian low five bytes of
    /// `c0 | c1 << 12 | c2 << 24 | index << 36 | negative << 38`.
    pub fn pack(components: [u64; 3], implicit_dimension: usize, implicit_negative: bool) -> (r: Self)
        requires
            implicit_dimension < 4,
        ensures
            quat40_x(r.bytes@) == components@[0] % 4096,
            quat40_y(r.bytes@) == components@[1] % 4096,
            quat40_z(r.bytes@) == components@[2] % 4096,
            quat40_shift(r.bytes@) == implicit_dimension,
            quat40_sign(r.bytes@) == implicit_negative,
            quat40_word(r.bytes@) == components@[0] % 4096 + (components@[1] % 4096) * 0x1000
                + (components@[2] % 4096) * 0x1000000 + implicit_dimension * 0x1000000000
                + (if implicit_negative { 0x4000000000nat } else { 0nat }),
    {
        let e0 = components[0] & 0xFFF;
        let e1 = components[1] & 0xFFF;
        let e2 = components[2] & 0xFFF;
        let d = implicit_dimension as u64;
        let n: u64 = if implicit_negative { 1 } else { 0 };
        let packed: u64 = e0 | (e1 << 12) | (e2 << 24) | (d << 36) | (n << 38);
        let b0 = #[verifier::truncate] (packed as u8);
        let b1 = #[verifier::truncate] ((packed >> 8) as u8);
        let b2 = #[verifier::truncate] ((packed >> 16) as u8);
        let b3 = #[verifier::truncate] ((packed >> 24) as u8);
        let b4 = #[verifier::truncate] ((packed >> 32) as u8);
        let c0 = components[0];
        let c1 = components[1];
        let c2 = components[2];
        assert(e0 == c0 % 4096 && e1 == c1 % 4096 && e2 == c2 % 4096) by (bit_vector)
            requires
                e0 == c0 & 0xFFF,
                e1 == c1 & 0xFFF,
                e2 == c2 & 0xFFF,
        ;
        assert(b0 + (b1 % 16) * 256 == e0 && b1 / 16 + b2 * 16 == e1 && b3 + (b4 % 16) * 256 == e2
            && (b4 / 16) % 4 == d && ((b4 / 64) % 2 == 1) == (n == 1) && b4 < 128) by (bit_vector)
            requires
                e0 < 4096,
                e1 < 4096,
                e2 < 4096,
                d < 4,
                n < 2,
                packed == e0 | (e1 << 12) | (e2 << 24) | (d << 36) | (n << 38),
                b0 == packed as u8,
                b1 == (packed >> 8) as u8,
                b2 == (packed >> 16) as u8,
                b3 == (packed >> 24) as u8,
                b4 == (packed >> 32) as u8,
        ;
        let r = Quat40 { bytes: [b0, b1, b2, b3, b4] };
        proof {
            let w = quat40_word(r.bytes@);
            assert(w == b0 + b1 * 0x100 + b2 * 0x10000 + b3 * 0x1000000 + b4 * 0x100000000);
            assert(b0 as int + b1 as int * 0x100 + b2 as int * 0x10000 + b3 as int * 0x1000000
                + b4 as int * 0x100000000 == e0 + e1 * 0x1000 + e2 * 0x1000000 + d * 0x1000000000
                + n * 0x4000000000) by (nonlinear_arith)
                requires
                    b0 + (b1 % 16) * 256 == e0,
                    b1 / 16 + b2 * 16 == e1,
                    b3 + (b4 % 16) * 256 == e2,
                    (b4 / 16) % 4 == d,
                    ((b4 / 64) % 2 == 1) == (n == 1),
                    n < 2,
                    b4 < 128,
            ;
        }
        r
    }
}

/// A packed 48-bit quaternion: three 16-bit words whose top bits hold the
/// index of the reconstructed component and its sign.
#[derive(Clone, Copy, Debug, PartialEq, Eq)]
pub struct Quat48 {
    pub x: u16,
    pub y: u16,
    pub z: u16,
}

impl Quat48 {
    /// Returns the index of the reconstructed component: bit 15 of `y` is
    /// its high bit and bit 15 of `x` its low bit.
    pub fn result_shift(self) -> (r: u32)
        ensures
            r == (self.y / 0x8000) * 2 + self.x / 0x8000,
    {
        let x = self.x;
        let y = self.y;
        assert((((y >> 14u16) & 2) as u32) | (((x >> 15u16) & 1) as u32) == (y / 0x8000) * 2 + x / 0x8000)
            by (bit_vector);
        (((y >> 14) & 2) as u32) | (((x >> 15) & 1) as u32)
    }

    /// Returns whether the reconstructed component is negated (bit 15 of `z`).
    pub fn sign(self) -> (r: bool)
        ensures
            r == (self.z >= 0x8000),
    {
        let z = self.z;
        assert((z & 0x8000 != 0) == (z >= 0x8000)) by (bit_vector);
        (z & 0x8000) != 0
    }

    /// The three stored components as signed steps around the middle of
    /// their 15-bit range: the low 15 bits minus `0x3fff`.
    pub fn centered_components(self) -> (r: [i32; 3])
        ensures
            r@[0] == self.x % 0x8000 - 0x3fff,
            r@[1] == self.y % 0x8000 - 0x3fff,
            r@[2] == self.z % 0x8000 - 0x3fff,
    {
        let (x, y, z) = (self.x, self.y, self.z);
        assert((x & 0x7fff) == x % 0x8000 && (y & 0x7fff) == y % 0x8000 && (z & 0x7fff) == z % 0x8000) by (bit_vector);
        [(x & 0x7fff) as i32 - 0x3fff, (y & 0x7fff) as i32 - 0x3fff, (z & 0x7fff) as i32 - 0x3fff]
    }

    /// Orders the lanes `(x, y, z, w)` of a decoded quaternion by
    /// [`Quat48::result_shift`]: `(z, y, x, w)` for 0, `(z, y, w, x)` for 1,
    /// `(z, w, y, x)` for 2 and unchanged for 3.
    pub fn arrange<T: Copy>(self, lanes: [T; 4]) -> (r: [T; 4])
        ensures
            r@ == (if (self.y / 0x8000) * 2 + self.x / 0x8000 == 0 {
                seq![lanes@[2], lanes@[1], lanes@[0], lanes@[3]]
            } else if (self.y / 0x8000) * 2 + self.x / 0x8000 == 1 {
                seq![lanes@[2], lanes@[1], lanes@[3], lanes@[0]]
            } else if (self.y / 0x8000) * 2 + self.x / 0x8000 == 2 {
                seq![lanes@[2], lanes@[3], lanes@[1], lanes@[0]]
            } else {
                lanes@
            }),
    {
        let (x, y, z, w) = (lanes[0], lanes[1], lanes[2], lanes[3]);
        let r = match self.result_shift() {
            0 => [z, y, x, w],
            1 => [z, y, w, x],
            2 => [z, w, y, x],
            _ => lanes,
        };
        assert(r@ =~= (if (self.y / 0x8000) * 2 + self.x / 0x8000 == 0 {
            seq![lanes@[2], lanes@[1], lanes@[0], lanes@[3]]
        } else if (self.y / 0x8000) * 2 + self.x / 0x8000 == 1 {
            seq![lanes@[2], lanes@[1], lanes@[3], lanes@[0]]
        } else if (self.y / 0x8000) * 2 + self.x / 0x8000 == 2 {
            seq![lanes@[2], lanes@[3], lanes@[1], lanes@[0]]
        } else {
            lanes@
        }));
        r
    }

    /// Packs three 15-bit components, the index of the omitted component and
    /// its sign: bit 15 of `x` and `y` hold the index, bit 15 of `z` the sign.
    pub fn pack(components: [u16; 3], implicit_dimension: usize, implicit_negative: bool) -> (r: Self)
        requires
            implicit_dimension < 4,
            components@[0] <= 0x7fff,
            components@[1] <= 0x7fff,
            components@[2] <= 0x7fff,
        ensures
            r.x % 0x8000 == components@[0],
            r.y % 0x8000 == components@[1],
            r.z % 0x8000 == components@[2],
            (r.y / 0x8000) * 2 + r.x / 0x8000 == implicit_dimension,
            (r.z >= 0x8000) == implicit_negative,
    {
        let d = implicit_dimension as u32;
        let mut x = components[0] as u32;
        let mut y = components[1] as u32;
        let mut z = components[2] as u32;
        let c0 = x;
        let c1 = y;
        let c2 = z;
        x = x | ((d & 1) << 15);
        y = y | (((d >> 1) & 1) << 15);
        if implicit_negative {
            z = z | (1 << 15);
        }
        assert((x as u16) % 0x8000 == c0 && (y as u16) % 0x8000 == c1
            && ((y as u16) / 0x8000) * 2 + (x as u16) / 0x8000 == d) by (bit_vector)
            requires
                c0 <= 0x7fff,
                c1 <= 0x7fff,
                d < 4,
                x == c0 | ((d & 1) << 15),
                y == c1 | (((d >> 1) & 1) << 15),
        ;
        assert(((c2 | (1u32 << 15u32)) as u16) % 0x8000 == c2 && ((c2 | (1u32 << 15u32)) as u16) >= 0x8000
            && (c2 as u16) % 0x8000 == c2 && (c2 as u16) < 0x8000) by (bit_vector)
            requires
                c2 <= 0x7fff,
        ;
        Quat48 {
            x: #[verifier::truncate] (x as u16),
            y: #[verifier::truncate] (y as u16),
            z: #[verifier::truncate] (z as u16),
        }
    }
}

} // verus!

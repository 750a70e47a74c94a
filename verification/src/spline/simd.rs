//! Four-lane values. Floating-point lanes are held as their IEEE-754 bit
//! patterns, so that reinterpreting casts, sign flips and masks are exact.

use vstd::prelude::*;

verus! {

/// Four `f32` lanes, held as bit patterns.
#[derive(Clone, Copy, Debug)]
pub struct Vec4A16 {
    lanes: [u32; 4],
}

/// Four signed integer lanes.
#[derive(Clone, Copy, Debug)]
pub struct IVec4A16 {
    lanes: [i32; 4],
}

/// Four unsigned integer lanes.
#[derive(Clone, Copy, Debug)]
pub struct UVec4A16 {
    lanes: [u32; 4],
}

/// A quaternion: four `f32` lanes x, y, z, w.
#[derive(Clone, Copy, Debug)]
pub struct QuatA16 {
    value: Vec4A16,
}

impl View for Vec4A16 {
    type V = Seq<u32>;

    closed spec fn view(&self) -> Seq<u32> {
        self.lanes@
    }
}

impl View for IVec4A16 {
    type V = Seq<i32>;

    closed spec fn view(&self) -> Seq<i32> {
        self.lanes@
    }
}

impl View for UVec4A16 {
    type V = Seq<u32>;

    closed spec fn view(&self) -> Seq<u32> {
        self.lanes@
    }
}

impl View for QuatA16 {
    type V = Seq<u32>;

    closed spec fn view(&self) -> Seq<u32> {
        self.value@
    }
}

/// The bit pattern of an `f32` with its sign flipped.
pub open spec fn negate_bits(bits: u32) -> u32 {
    bits ^ 0x8000_0000
}

impl Vec4A16 {
    /// Creates a value from its raw lanes (`f32` bit patterns).
    pub fn from_raw(value: [u32; 4]) -> (r: Self)
        ensures
            r@ == value@,
    {
        Vec4A16 { lanes: value }
    }

    /// Returns the raw lanes (`f32` bit patterns).
    pub fn raw(self) -> (r: [u32; 4])
        ensures
            r@ == self@,
    {
        self.lanes
    }

    /// Reinterprets the bits as signed integer lanes.
    pub fn cast_i32(self) -> (r: IVec4A16)
        ensures
            r@ == self@.map_values(|x: u32| x as i32),
    {
        let r = IVec4A16 { lanes: [self.lanes[0] as i32, self.lanes[1] as i32, self.lanes[2] as i32, self.lanes[3] as i32] };
        assert(r@ =~= self@.map_values(|x: u32| x as i32));
        r
    }

    /// Reinterprets the bits as unsigned integer lanes.
    pub fn cast_u32(self) -> (r: UVec4A16)
        ensures
            r@ == self@,
    {
        UVec4A16 { lanes: self.lanes }
    }

    /// The absolute value of every lane: its sign bit cleared.
    pub fn abs(self) -> (r: Self)
        ensures
            r@ == self@.map_values(|x: u32| x & 0x7fff_ffff),
    {
        let r = Vec4A16 { lanes: [self.lanes[0] & 0x7fff_ffff, self.lanes[1] & 0x7fff_ffff, self.lanes[2] & 0x7fff_ffff, self.lanes[3] & 0x7fff_ffff] };
        assert(r@ =~= self@.map_values(|x: u32| x & 0x7fff_ffff));
        r
    }

    /// Selects the bits of `rhs` where the mask is set and of `self`
    /// elsewhere, lane by lane.
    pub fn select(self, rhs: Self, mask: IVec4A16) -> (r: Self)
        ensures
            r@.len() == 4,
            forall|i: int| 0 <= i < 4 ==> #[trigger] r@[i] == (self@[i] & !(mask@[i] as u32)) | (rhs@[i] & (mask@[i] as u32)),
    {
        let m0 = mask.lanes[0] as u32;
        let m1 = mask.lanes[1] as u32;
        let m2 = mask.lanes[2] as u32;
        let m3 = mask.lanes[3] as u32;
        Vec4A16 {
            lanes: [
                (self.lanes[0] & !m0) | (rhs.lanes[0] & m0),
                (self.lanes[1] & !m1) | (rhs.lanes[1] & m1),
                (self.lanes[2] & !m2) | (rhs.lanes[2] & m2),
                (self.lanes[3] & !m3) | (rhs.lanes[3] & m3),
            ],
        }
    }

    /// Every lane with its sign flipped.
    pub fn negated(self) -> (r: Self)
        ensures
            r@ == self@.map_values(|x: u32| negate_bits(x)),
    {
        let r = Vec4A16 {
            lanes: [self.lanes[0] ^ 0x8000_0000, self.lanes[1] ^ 0x8000_0000, self.lanes[2] ^ 0x8000_0000, self.lanes[3] ^ 0x8000_0000],
        };
        assert(r@ =~= self@.map_values(|x: u32| negate_bits(x)));
        r
    }
}

impl IVec4A16 {
    /// Creates a value from four lanes.
    pub fn new(x: i32, y: i32, z: i32, w: i32) -> (r: Self)
        ensures
            r@ == seq![x, y, z, w],
    {
        let r = IVec4A16 { lanes: [x, y, z, w] };
        assert(r@ =~= seq![x, y, z, w]);
        r
    }

    /// Creates a value with all lanes equal.
    pub fn splat(value: i32) -> (r: Self)
        ensures
            r@ == seq![value, value, value, value],
    {
        IVec4A16::new(value, value, value, value)
    }

    /// Creates a value from its raw lanes.
    pub fn from_raw(value: [i32; 4]) -> (r: Self)
        ensures
            r@ == value@,
    {
        IVec4A16 { lanes: value }
    }

    /// Returns the raw lanes.
    pub fn raw(self) -> (r: [i32; 4])
        ensures
            r@ == self@,
    {
        self.lanes
    }

    /// Returns the four lanes.
    pub fn to_array(self) -> (r: [i32; 4])
        ensures
            r@ == self@,
    {
        self.lanes
    }

    /// Reinterprets the bits as `f32` lanes.
    pub fn cast_f32(self) -> (r: Vec4A16)
        ensures
            r@ == self@.map_values(|x: i32| x as u32),
    {
        let r = Vec4A16 { lanes: [self.lanes[0] as u32, self.lanes[1] as u32, self.lanes[2] as u32, self.lanes[3] as u32] };
        assert(r@ =~= self@.map_values(|x: i32| x as u32));
        r
    }

    /// Compares lanes for equality: all bits set where equal, none elsewhere.
    pub fn cmp_eq(self, rhs: Self) -> (r: Self)
        ensures
            r@.len() == 4,
            forall|i: int| 0 <= i < 4 ==> #[trigger] r@[i] == (if self@[i] == rhs@[i] { -1i32 } else { 0i32 }),
    {
        IVec4A16::new(
            if self.lanes[0] == rhs.lanes[0] { -1 } else { 0 },
            if self.lanes[1] == rhs.lanes[1] { -1 } else { 0 },
            if self.lanes[2] == rhs.lanes[2] { -1 } else { 0 },
            if self.lanes[3] == rhs.lanes[3] { -1 } else { 0 },
        )
    }
}

impl UVec4A16 {
    /// Creates a value from four lanes.
    pub fn new(x: u32, y: u32, z: u32, w: u32) -> (r: Self)
        ensures
            r@ == seq![x, y, z, w],
    {
        let r = UVec4A16 { lanes: [x, y, z, w] };
        assert(r@ =~= seq![x, y, z, w]);
        r
    }

    /// Creates a value with all lanes equal.
    pub fn splat(value: u32) -> (r: Self)
        ensures
            r@ == seq![value, value, value, value],
    {
        UVec4A16::new(value, value, value, value)
    }

    /// Creates a value from its raw lanes.
    pub fn from_raw(value: [u32; 4]) -> (r: Self)
        ensures
            r@ == value@,
    {
        UVec4A16 { lanes: value }
    }

    /// Returns the raw lanes.
    pub fn raw(self) -> (r: [u32; 4])
        ensures
            r@ == self@,
    {
        self.lanes
    }

    /// Returns the four lanes.
    pub fn to_array(self) -> (r: [u32; 4])
        ensures
            r@ == self@,
    {
        self.lanes
    }

    /// Reinterprets the bits as signed integer lanes.
    pub fn cast_i32(self) -> (r: IVec4A16)
        ensures
            r@ == self@.map_values(|x: u32| x as i32),
    {
        Vec4A16 { lanes: self.lanes }.cast_i32()
    }

    /// Reinterprets the bits as `f32` lanes.
    pub fn cast_f32(self) -> (r: Vec4A16)
        ensures
            r@ == self@,
    {
        Vec4A16 { lanes: self.lanes }
    }

    /// Compares lanes for equality: all bits set where equal, none elsewhere.
    pub fn cmp_eq(self, rhs: Self) -> (r: Self)
        ensures
            r@.len() == 4,
            forall|i: int| 0 <= i < 4 ==> #[trigger] r@[i] == (if self@[i] == rhs@[i] { 0xffff_ffffu32 } else { 0u32 }),
    {
        UVec4A16::new(
            if self.lanes[0] == rhs.lanes[0] { 0xffff_ffff } else { 0 },
            if self.lanes[1] == rhs.lanes[1] { 0xffff_ffff } else { 0 },
            if self.lanes[2] == rhs.lanes[2] { 0xffff_ffff } else { 0 },
            if self.lanes[3] == rhs.lanes[3] { 0xffff_ffff } else { 0 },
        )
    }

    /// The low 32 bits of the product of each pair of lanes.
    pub fn mul_lo(self, rhs: Self) -> (r: Self)
        ensures
            r@.len() == 4,
            forall|i: int| 0 <= i < 4 ==> #[trigger] r@[i] == ((self@[i] as nat * rhs@[i] as nat) % 0x1_0000_0000) as u32,
    {
        let r = UVec4A16::new(
            self.lanes[0].wrapping_mul(rhs.lanes[0]),
            self.lanes[1].wrapping_mul(rhs.lanes[1]),
            self.lanes[2].wrapping_mul(rhs.lanes[2]),
            self.lanes[3].wrapping_mul(rhs.lanes[3]),
        );
        r
    }
}

impl QuatA16 {
    /// The identity quaternion (0, 0, 0, 1).
    pub fn identity() -> (r: Self)
        ensures
            r@ == seq![0u32, 0u32, 0u32, 0x3f80_0000u32],
    {
        let r = QuatA16 { value: Vec4A16 { lanes: [0, 0, 0, 0x3f80_0000] } };
        assert(r@ =~= seq![0u32, 0u32, 0u32, 0x3f80_0000u32]);
        r
    }

    /// Creates a quaternion from four lanes.
    pub fn from_vec4(value: Vec4A16) -> (r: Self)
        ensures
            r@ == value@,
    {
        QuatA16 { value }
    }

    /// Returns the underlying lanes.
    pub fn into_vec4(self) -> (r: Vec4A16)
        ensures
            r@ == self@,
    {
        self.value
    }

    /// The quaternion with every component's sign flipped.
    pub fn negated(self) -> (r: Self)
        ensures
            r@ == self@.map_values(|x: u32| negate_bits(x)),
    {
        QuatA16 { value: self.value.negated() }
    }
}

/// Negating twice gives back the quaternion.
pub proof fn lemma_negated_twice(q: Seq<u32>)
    ensures
        q.map_values(|x: u32| negate_bits(x)).map_values(|x: u32| negate_bits(x)) == q,
{
    assert forall|i: int| 0 <= i < q.len() implies #[trigger] negate_bits(negate_bits(q[i])) == q[i] by {
        let x = q[i];
        assert((x ^ 0x8000_0000u32) ^ 0x8000_0000u32 == x) by (bit_vector);
    }
    assert(q.map_values(|x: u32| negate_bits(x)).map_values(|x: u32| negate_bits(x)) =~= q);
}

} // verus!

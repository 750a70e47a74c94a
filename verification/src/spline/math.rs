//! Transform masks and the quantization vocabulary of spline blocks.

use vstd::prelude::*;

use super::de::SplineError;
use super::packed::{Quat32, Quat40, Quat48};

verus! {

/// The spline sub-track kind.
#[derive(Clone, Copy, Debug, PartialEq, Eq, Structural)]
pub enum SplineTrackType {
    /// The track contains one constant value.
    Static,
    /// The track contains spline control points.
    Dynamic,
    /// The track has no stored value and uses its default.
    Identity,
}

/// The quantization format used by a transform track.
#[derive(Clone, Copy, Debug, PartialEq, Eq, Structural)]
pub enum QuantizationType {
    /// Eight-bit scalar quantization.
    Bit8,
    /// Sixteen-bit scalar quantization.
    Bit16,
    /// Thirty-two-bit quaternion encoding.
    Bit32,
    /// Forty-bit quaternion encoding.
    Bit40,
    /// Forty-eight-bit quaternion encoding.
    Bit48,
    /// Twenty-four-bit encoding.
    Bit24,
    /// Sixteen-bit quaternion encoding.
    Bit16Quat,
    /// Uncompressed quaternion data.
    Uncompressed,
}

/// The numeric code of a quantization type (its position in the list above).
pub open spec fn quantization_code(q: QuantizationType) -> u8 {
    match q {
        QuantizationType::Bit8 => 0,
        QuantizationType::Bit16 => 1,
        QuantizationType::Bit32 => 2,
        QuantizationType::Bit40 => 3,
        QuantizationType::Bit48 => 4,
        QuantizationType::Bit24 => 5,
        QuantizationType::Bit16Quat => 6,
        QuantizationType::Uncompressed => 7,
    }
}

impl QuantizationType {
    /// Returns the numeric code of this quantization type.
    pub fn code(self) -> (r: u8)
        ensures
            r == quantization_code(self),
    {
        match self {
            QuantizationType::Bit8 => 0,
            QuantizationType::Bit16 => 1,
            QuantizationType::Bit32 => 2,
            QuantizationType::Bit40 => 3,
            QuantizationType::Bit48 => 4,
            QuantizationType::Bit24 => 5,
            QuantizationType::Bit16Quat => 6,
            QuantizationType::Uncompressed => 7,
        }
    }
}

/// The transform component represented by a track.
#[derive(Clone, Copy, Debug, PartialEq, Eq, Structural)]
pub enum TransformType {
    /// Position X.
    PosX,
    /// Position Y.
    PosY,
    /// Position Z.
    PosZ,
    /// Rotation quaternion.
    Rotation,
    /// Scale X.
    ScaleX,
    /// Scale Y.
    ScaleY,
    /// Scale Z.
    ScaleZ,
}

/// The packed transform mask preceding each track: four bytes in this order.
#[derive(Clone, Copy, Debug)]
pub struct TransformMask {
    pub quantization_types: u8,
    pub position_types: u8,
    pub rotation_types: u8,
    pub scale_types: u8,
}

impl Default for TransformMask {
    fn default() -> (r: Self)
        ensures
            r.quantization_types == 0,
            r.position_types == 0,
            r.rotation_types == 0,
            r.scale_types == 0,
    {
        TransformMask { quantization_types: 0, position_types: 0, rotation_types: 0, scale_types: 0 }
    }
}

/// Scalar (position/scale) quantization stored in a two-bit field.
pub open spec fn scalar_quantization_of(bits: u8) -> Result<QuantizationType, SplineError> {
    if bits == 0 {
        Ok(QuantizationType::Bit8)
    } else if bits == 1 {
        Ok(QuantizationType::Bit16)
    } else {
        Err(SplineError::InvalidQuantizationType(bits))
    }
}

/// Rotation quantization stored as `value - 2` in a four-bit field.
pub open spec fn rotation_quantization_of(value: u8) -> Result<QuantizationType, SplineError> {
    if value == 2 {
        Ok(QuantizationType::Bit32)
    } else if value == 3 {
        Ok(QuantizationType::Bit40)
    } else if value == 4 {
        Ok(QuantizationType::Bit48)
    } else if value == 5 {
        Ok(QuantizationType::Bit24)
    } else if value == 6 {
        Ok(QuantizationType::Bit16Quat)
    } else if value == 7 {
        Ok(QuantizationType::Uncompressed)
    } else {
        Err(SplineError::InvalidQuantizationType(value))
    }
}

/// The static and spline bit indices used for a position/scale axis.
pub open spec fn axis_bits(transform: TransformType) -> (u8, u8) {
    match transform {
        TransformType::PosX | TransformType::ScaleX => (1, 16),
        TransformType::PosY | TransformType::ScaleY => (2, 32),
        TransformType::PosZ | TransformType::ScaleZ => (4, 64),
        TransformType::Rotation => (0, 0),
    }
}

/// Whether a transform component belongs to the position flags.
pub open spec fn is_position(transform: TransformType) -> bool {
    transform is PosX || transform is PosY || transform is PosZ
}

/// Reads a sub-track kind from a flag byte: static takes precedence over spline.
pub open spec fn axis_kind(flags: u8, static_bit: u8, spline_bit: u8) -> SplineTrackType {
    if flags & static_bit != 0 {
        SplineTrackType::Static
    } else if flags & spline_bit != 0 {
        SplineTrackType::Dynamic
    } else {
        SplineTrackType::Identity
    }
}

/// Reads the rotation kind: any spline bit means dynamic, then any static bit.
pub open spec fn rotation_kind(flags: u8) -> SplineTrackType {
    if flags & 0xf0 != 0 {
        SplineTrackType::Dynamic
    } else if flags & 0x0f != 0 {
        SplineTrackType::Static
    } else {
        SplineTrackType::Identity
    }
}

impl TransformMask {
    /// The position quantization encoded in bits 0..2.
    pub open spec fn spec_position_quantization(self) -> Result<QuantizationType, SplineError> {
        scalar_quantization_of((self.quantization_types % 4) as u8)
    }

    /// The rotation quantization encoded in bits 2..6 (stored offset by 2).
    pub open spec fn spec_rotation_quantization(self) -> Result<QuantizationType, SplineError> {
        rotation_quantization_of(((self.quantization_types / 4) % 16 + 2) as u8)
    }

    /// The scale quantization encoded in bits 6..8.
    pub open spec fn spec_scale_quantization(self) -> Result<QuantizationType, SplineError> {
        scalar_quantization_of((self.quantization_types / 64) as u8)
    }

    /// The sub-track kind of a transform component.
    pub open spec fn spec_sub_track_type(self, transform: TransformType) -> SplineTrackType {
        if transform is Rotation {
            rotation_kind(self.rotation_types)
        } else if is_position(transform) {
            axis_kind(self.position_types, axis_bits(transform).0, axis_bits(transform).1)
        } else {
            axis_kind(self.scale_types, axis_bits(transform).0, axis_bits(transform).1)
        }
    }

    /// Returns the position quantization type.
    pub fn position_quantization_type(self) -> (r: Result<QuantizationType, SplineError>)
        ensures
            r == self.spec_position_quantization(),
    {
        let q = self.quantization_types;
        assert(q & 3 == q % 4) by (bit_vector);
        match q & 0b11 {
            0 => Ok(QuantizationType::Bit8),
            1 => Ok(QuantizationType::Bit16),
            value => Err(SplineError::InvalidQuantizationType(value)),
        }
    }

    /// Returns the rotation quantization type.
    pub fn rotation_quantization_type(self) -> (r: Result<QuantizationType, SplineError>)
        ensures
            r == self.spec_rotation_quantization(),
    {
        let q = self.quantization_types;
        assert((q >> 2) & 0x0f == (q / 4) % 16) by (bit_vector);
        assert((q >> 2) & 0x0f < 16) by (bit_vector);
        match ((q >> 2) & 0x0f) + 2 {
            2 => Ok(QuantizationType::Bit32),
            3 => Ok(QuantizationType::Bit40),
            4 => Ok(QuantizationType::Bit48),
            5 => Ok(QuantizationType::Bit24),
            6 => Ok(QuantizationType::Bit16Quat),
            7 => Ok(QuantizationType::Uncompressed),
            value => Err(SplineError::InvalidQuantizationType(value)),
        }
    }

    /// Returns the scale quantization type.
    pub fn scale_quantization_type(self) -> (r: Result<QuantizationType, SplineError>)
        ensures
            r == self.spec_scale_quantization(),
    {
        let q = self.quantization_types;
        assert((q >> 6) & 3 == q / 64) by (bit_vector);
        match (q >> 6) & 0b11 {
            0 => Ok(QuantizationType::Bit8),
            1 => Ok(QuantizationType::Bit16),
            value => Err(SplineError::InvalidQuantizationType(value)),
        }
    }

    /// Returns the sub-track kind for a transform component.
    pub fn sub_track_type(self, transform: TransformType) -> (r: SplineTrackType)
        ensures
            r == self.spec_sub_track_type(transform),
    {
        let flags = match transform {
            TransformType::PosX | TransformType::PosY | TransformType::PosZ => self.position_types,
            TransformType::ScaleX | TransformType::ScaleY | TransformType::ScaleZ => self.scale_types,
            TransformType::Rotation => {
                return if self.rotation_types & 0xf0 != 0 {
                    SplineTrackType::Dynamic
                } else if self.rotation_types & 0x0f != 0 {
                    SplineTrackType::Static
                } else {
                    SplineTrackType::Identity
                };
            },
        };
        let (static_bit, spline_bit): (u8, u8) = match transform {
            TransformType::PosX | TransformType::ScaleX => (1, 16),
            TransformType::PosY | TransformType::ScaleY => (2, 32),
            TransformType::PosZ | TransformType::ScaleZ => (4, 64),
            TransformType::Rotation => (0, 0),
        };
        if flags & static_bit != 0 {
            SplineTrackType::Static
        } else if flags & spline_bit != 0 {
            SplineTrackType::Dynamic
        } else {
            SplineTrackType::Identity
        }
    }
}

/// The bit code of a sub-track kind written into a position/scale flag byte.
pub open spec fn axis_set_bits(kind: SplineTrackType, static_bit: u8, spline_bit: u8) -> u8 {
    match kind {
        SplineTrackType::Static => static_bit,
        SplineTrackType::Dynamic => spline_bit,
        SplineTrackType::Identity => 0,
    }
}

/// The rotation flag byte that stores a sub-track kind: the spline nibble
/// for `Dynamic`, the static nibble for `Static`, nothing for `Identity`.
pub open spec fn rotation_flags_of(kind: SplineTrackType) -> u8 {
    match kind {
        SplineTrackType::Dynamic => 0xf0,
        SplineTrackType::Static => 0x0f,
        SplineTrackType::Identity => 0,
    }
}

/// A position/scale flag byte after writing the kind of one axis.
pub open spec fn axis_flags_with(flags: u8, static_bit: u8, spline_bit: u8, kind: SplineTrackType) -> u8 {
    (flags & !(static_bit | spline_bit)) | axis_set_bits(kind, static_bit, spline_bit)
}

impl TransformMask {
    /// The mask after setting the position quantization (only `Bit8`/`Bit16` are stored).
    pub open spec fn spec_with_position_quantization(self, kind: QuantizationType) -> Self {
        if kind is Bit8 || kind is Bit16 {
            TransformMask {
                quantization_types: ((self.quantization_types / 4) * 4 + quantization_code(kind)) as u8,
                ..self
            }
        } else {
            self
        }
    }

    /// The mask after setting the rotation quantization (only rotation formats are stored).
    pub open spec fn spec_with_rotation_quantization(self, kind: QuantizationType) -> Self {
        if kind is Bit8 || kind is Bit16 {
            self
        } else {
            TransformMask {
                quantization_types: ((self.quantization_types / 64) * 64
                    + (quantization_code(kind) - 2) * 4 + self.quantization_types % 4) as u8,
                ..self
            }
        }
    }

    /// The mask after setting the scale quantization (only `Bit8`/`Bit16` are stored).
    pub open spec fn spec_with_scale_quantization(self, kind: QuantizationType) -> Self {
        if kind is Bit8 || kind is Bit16 {
            TransformMask {
                quantization_types: (self.quantization_types % 64 + quantization_code(kind) * 64) as u8,
                ..self
            }
        } else {
            self
        }
    }

    /// The mask after setting the sub-track kind of one transform component.
    pub open spec fn spec_with_sub_track_type(self, transform: TransformType, kind: SplineTrackType) -> Self {
        if transform is Rotation {
            TransformMask { rotation_types: rotation_flags_of(kind), ..self }
        } else if is_position(transform) {
            TransformMask {
                position_types: axis_flags_with(
                    self.position_types,
                    axis_bits(transform).0,
                    axis_bits(transform).1,
                    kind,
                ),
                ..self
            }
        } else {
            TransformMask {
                scale_types: axis_flags_with(
                    self.scale_types,
                    axis_bits(transform).0,
                    axis_bits(transform).1,
                    kind,
                ),
                ..self
            }
        }
    }

    /// Sets the position quantization type; only `Bit8` and `Bit16` can be
    /// stored there.
    pub fn set_position_quantization_type(&mut self, kind: QuantizationType)
        requires
            kind is Bit8 || kind is Bit16,
        ensures
            *final(self) == old(self).spec_with_position_quantization(kind),
    {
        let bits: u8 = match kind {
            QuantizationType::Bit8 => 0,
            QuantizationType::Bit16 => 1,
            _ => return,
        };
        let q = self.quantization_types;
        assert((q & !3u8) | bits == (q / 4) * 4 + bits) by (bit_vector)
            requires
                bits < 4,
        ;
        self.quantization_types = (q & !0b11) | bits;
    }

    /// Sets the rotation quantization type (stored offset by 2 in bits 2..6);
    /// `Bit8` and `Bit16` cannot be stored there and leave the mask unchanged.
    pub fn set_rotation_quantization_type(&mut self, kind: QuantizationType)
        ensures
            *final(self) == old(self).spec_with_rotation_quantization(kind),
    {
        let value: u8 = match kind {
            QuantizationType::Bit32 => 2,
            QuantizationType::Bit40 => 3,
            QuantizationType::Bit48 => 4,
            QuantizationType::Bit24 => 5,
            QuantizationType::Bit16Quat => 6,
            QuantizationType::Uncompressed => 7,
            _ => return,
        };
        let offset = value - 2;
        let bits = offset & 0x0f;
        let q = self.quantization_types;
        assert(bits == offset) by (bit_vector)
            requires
                offset <= 5,
                bits == offset & 0x0f,
        ;
        assert((q & !(0x0fu8 << 2u8)) | (bits << 2u8) == (q / 64) * 64 + bits * 4 + q % 4)
            by (bit_vector)
            requires
                bits < 16,
        ;
        self.quantization_types = (q & !(0x0f << 2)) | (bits << 2);
    }

    /// Sets the scale quantization type (bits 6..8); only `Bit8` and `Bit16`
    /// can be stored there.
    pub fn set_scale_quantization_type(&mut self, kind: QuantizationType)
        requires
            kind is Bit8 || kind is Bit16,
        ensures
            *final(self) == old(self).spec_with_scale_quantization(kind),
    {
        let bits: u8 = match kind {
            QuantizationType::Bit8 => 0,
            QuantizationType::Bit16 => 1,
            _ => return,
        };
        let q = self.quantization_types;
        assert((q & !(0b11u8 << 6u8)) | (bits << 6u8) == q % 64 + bits * 64) by (bit_vector)
            requires
                bits < 2,
        ;
        self.quantization_types = (q & !(0b11 << 6)) | (bits << 6);
    }

    /// Sets the sub-track kind for a transform component, clearing the bits
    /// of any previous kind of that component.
    pub fn set_sub_track_type(&mut self, transform: TransformType, kind: SplineTrackType)
        ensures
            *final(self) == old(self).spec_with_sub_track_type(transform, kind),
    {
        if transform == TransformType::Rotation {
            self.rotation_types = match kind {
                SplineTrackType::Dynamic => 0xf0,
                SplineTrackType::Static => 0x0f,
                SplineTrackType::Identity => 0x00,
            };
            return;
        }
        let (static_bit, spline_bit): (u8, u8) = match transform {
            TransformType::PosX | TransformType::ScaleX => (1, 16),
            TransformType::PosY | TransformType::ScaleY => (2, 32),
            TransformType::PosZ | TransformType::ScaleZ => (4, 64),
            TransformType::Rotation => (0, 0),
        };
        let clear_mask: u8 = !(static_bit | spline_bit);
        let set_bits: u8 = match kind {
            SplineTrackType::Static => static_bit,
            SplineTrackType::Dynamic => spline_bit,
            SplineTrackType::Identity => 0,
        };
        match transform {
            TransformType::PosX | TransformType::PosY | TransformType::PosZ => {
                self.position_types = (self.position_types & clear_mask) | set_bits;
            },
            _ => {
                self.scale_types = (self.scale_types & clear_mask) | set_bits;
            },
        }
    }
}

/// Writing a position quantization of `Bit8` or `Bit16` and reading it back
/// gives the written kind, and leaves the rotation and scale quantization,
/// the flag bytes and every sub-track kind as they were.
pub proof fn lemma_position_quantization_roundtrip(mask: TransformMask, kind: QuantizationType)
    requires
        kind is Bit8 || kind is Bit16,
    ensures
        mask.spec_with_position_quantization(kind).spec_position_quantization() == Ok::<QuantizationType, SplineError>(kind),
        mask.spec_with_position_quantization(kind).spec_rotation_quantization() == mask.spec_rotation_quantization(),
        mask.spec_with_position_quantization(kind).spec_scale_quantization() == mask.spec_scale_quantization(),
        forall|t: TransformType| #[trigger] mask.spec_with_position_quantization(kind).spec_sub_track_type(t) == mask.spec_sub_track_type(t),
{
}

/// Writing a rotation quantization (any kind but `Bit8`/`Bit16`) and
/// reading it back gives the written kind; position and scale quantization
/// and every sub-track kind are unchanged.
pub proof fn lemma_rotation_quantization_roundtrip(mask: TransformMask, kind: QuantizationType)
    requires
        !(kind is Bit8 || kind is Bit16),
    ensures
        mask.spec_with_rotation_quantization(kind).spec_rotation_quantization() == Ok::<QuantizationType, SplineError>(kind),
        mask.spec_with_rotation_quantization(kind).spec_position_quantization() == mask.spec_position_quantization(),
        mask.spec_with_rotation_quantization(kind).spec_scale_quantization() == mask.spec_scale_quantization(),
        forall|t: TransformType| #[trigger] mask.spec_with_rotation_quantization(kind).spec_sub_track_type(t) == mask.spec_sub_track_type(t),
{
}

/// Writing a scale quantization of `Bit8` or `Bit16` and reading it back
/// gives the written kind; position and rotation quantization and every
/// sub-track kind are unchanged.
pub proof fn lemma_scale_quantization_roundtrip(mask: TransformMask, kind: QuantizationType)
    requires
        kind is Bit8 || kind is Bit16,
    ensures
        mask.spec_with_scale_quantization(kind).spec_scale_quantization() == Ok::<QuantizationType, SplineError>(kind),
        mask.spec_with_scale_quantization(kind).spec_position_quantization() == mask.spec_position_quantization(),
        mask.spec_with_scale_quantization(kind).spec_rotation_quantization() == mask.spec_rotation_quantization(),
        forall|t: TransformType| #[trigger] mask.spec_with_scale_quantization(kind).spec_sub_track_type(t) == mask.spec_sub_track_type(t),
{
    let q = mask.quantization_types as int;
    let c = quantization_code(kind) as int;
    let n = q % 64 + c * 64;
    assert(n / 64 == c && (n / 4) % 16 == (q / 4) % 16 && n % 4 == q % 4) by (nonlinear_arith)
        requires
            0 <= q < 256,
            c == 0 || c == 1,
            n == q % 64 + c * 64,
    ;
}

/// Setting the sub-track kind of a position or scale axis and reading it
/// back gives the written kind; the kinds of all other components and the
/// quantization byte are unchanged.
pub proof fn lemma_axis_sub_track_roundtrip(mask: TransformMask, transform: TransformType, kind: SplineTrackType)
    requires
        !(transform is Rotation),
    ensures
        mask.spec_with_sub_track_type(transform, kind).spec_sub_track_type(transform) == kind,
        forall|other: TransformType| other != transform ==>
            #[trigger] mask.spec_with_sub_track_type(transform, kind).spec_sub_track_type(other) == mask.spec_sub_track_type(other),
        mask.spec_with_sub_track_type(transform, kind).quantization_types == mask.quantization_types,
{
    let p = mask.position_types;
    let sc = mask.scale_types;
    assert forall|f: u8, s: u8, l: u8, k: SplineTrackType|
        (s == 1u8 && l == 16u8) || (s == 2u8 && l == 32u8) || (s == 4u8 && l == 64u8)
        implies #[trigger] axis_kind(axis_flags_with(f, s, l, k), s, l) == k by {
        let b = axis_set_bits(k, s, l);
        assert(((f & !(s | l)) | b) & s != 0 <==> b & s != 0) by (bit_vector)
            requires (s == 1u8 && l == 16u8) || (s == 2u8 && l == 32u8) || (s == 4u8 && l == 64u8),
                b == 0u8 || b == s || b == l;
        assert(((f & !(s | l)) | b) & l != 0 <==> b & l != 0) by (bit_vector)
            requires (s == 1u8 && l == 16u8) || (s == 2u8 && l == 32u8) || (s == 4u8 && l == 64u8),
                b == 0u8 || b == s || b == l;
        assert(s & s != 0u8 && l & l != 0u8 && s & l == 0u8 && 0u8 & s == 0u8 && 0u8 & l == 0u8
            && l & s == 0u8) by (bit_vector)
            requires (s == 1u8 && l == 16u8) || (s == 2u8 && l == 32u8) || (s == 4u8 && l == 64u8);
    }
    assert forall|f: u8, s: u8, l: u8, s2: u8, l2: u8, k: SplineTrackType|
        ((s == 1u8 && l == 16u8) || (s == 2u8 && l == 32u8) || (s == 4u8 && l == 64u8))
        && ((s2 == 1u8 && l2 == 16u8) || (s2 == 2u8 && l2 == 32u8) || (s2 == 4u8 && l2 == 64u8))
        && s != s2
        implies #[trigger] axis_kind(axis_flags_with(f, s, l, k), s2, l2) == axis_kind(f, s2, l2) by {
        let b = axis_set_bits(k, s, l);
        assert(((f & !(s | l)) | b) & s2 == f & s2 && ((f & !(s | l)) | b) & l2 == f & l2) by (bit_vector)
            requires
                (s == 1u8 && l == 16u8) || (s == 2u8 && l == 32u8) || (s == 4u8 && l == 64u8),
                (s2 == 1u8 && l2 == 16u8) || (s2 == 2u8 && l2 == 32u8) || (s2 == 4u8 && l2 == 64u8),
                s != s2,
                b == 0u8 || b == s || b == l;
    }
}

/// Setting the rotation kind and reading it back gives the written kind;
/// position and scale kinds and the quantization byte are unchanged.
pub proof fn lemma_rotation_sub_track_roundtrip(mask: TransformMask, kind: SplineTrackType)
    ensures
        mask.spec_with_sub_track_type(TransformType::Rotation, kind).spec_sub_track_type(TransformType::Rotation) == kind,
        forall|other: TransformType| other != TransformType::Rotation ==>
            #[trigger] mask.spec_with_sub_track_type(TransformType::Rotation, kind).spec_sub_track_type(other) == mask.spec_sub_track_type(other),
        mask.spec_with_sub_track_type(TransformType::Rotation, kind).quantization_types == mask.quantization_types,
{
    assert(0xf0u8 & 0xf0 != 0 && 0x0fu8 & 0xf0 == 0 && 0x0fu8 & 0x0f != 0 && 0u8 & 0xf0 == 0 && 0u8 & 0x0f == 0)
        by (bit_vector);
}

// ---------------------------------------------------------------------------
// Stored track representation
// ---------------------------------------------------------------------------

/// A static spline track value.
#[derive(Clone, Copy, Debug)]
pub struct SplineStaticTrack<T> {
    pub value: T,
}

/// One axis of a dynamic position/scale spline as stored in the block.
#[derive(Clone, Debug)]
pub enum VectorAxis {
    /// A spline axis: the bit patterns of its `f32` bounds and one quantized
    /// control point per spline item (a byte for `Bit8`; for `Bit16` a 16-bit
    /// value followed by a reserved 16-bit word).
    Dynamic { min: u32, max: u32, values: Vec<u16> },
    /// A constant axis: the bit pattern of its `f32` value.
    Static(u32),
    /// An axis with no stored value; it takes its default.
    Identity,
}

/// A dynamic position or scale spline.
#[derive(Clone, Debug)]
pub struct SplineDynamicTrackVector {
    pub tracks: [VectorAxis; 3],
    pub knots: Vec<u8>,
    pub degree: u8,
}

/// A position or scale track.
#[derive(Clone, Debug)]
pub enum SplineTrackVector {
    /// A constant vector: the `f32` bit patterns of x, y, z and w.
    Static(SplineStaticTrack<[u32; 4]>),
    /// A dynamic spline.
    Dynamic(SplineDynamicTrackVector),
}

/// A quaternion in the packed form selected by the rotation quantization.
#[derive(Clone, Copy, Debug)]
pub enum PackedQuat {
    /// A 32-bit polar quaternion.
    Polar32(Quat32),
    /// A 40-bit three-component quaternion.
    ThreeComp40(Quat40),
    /// A 48-bit three-component quaternion.
    ThreeComp48(Quat48),
    /// Four `f32` components (x, y, z, w) as bit patterns.
    Uncompressed([u32; 4]),
    /// The identity quaternion; stands for formats that store no bytes here.
    Identity,
}

/// A dynamic quaternion spline.
#[derive(Clone, Debug)]
pub struct SplineDynamicTrackQuat {
    pub track: Vec<PackedQuat>,
    pub knots: Vec<u8>,
    pub degree: u8,
}

/// A rotation track.
#[derive(Clone, Debug)]
pub enum SplineTrackQuat {
    /// A static quaternion.
    Static(SplineStaticTrack<PackedQuat>),
    /// A dynamic spline.
    Dynamic(SplineDynamicTrackQuat),
    /// An identity quaternion.
    Identity,
}

/// A position, rotation, and scale track.
#[derive(Clone, Debug)]
pub struct TransformTrack {
    pub position: SplineTrackVector,
    pub rotation: SplineTrackQuat,
    pub scale: SplineTrackVector,
}

/// A decoded spline block: one mask and one track per transform track.
#[derive(Clone, Debug)]
pub struct TransformSplineBlock {
    pub masks: Vec<TransformMask>,
    pub tracks: Vec<TransformTrack>,
}

// ---------------------------------------------------------------------------
// Mathematical model of the stored representation
// ---------------------------------------------------------------------------

/// Model of one stored position/scale axis.
pub enum AxisModel {
    Dynamic { min: u32, max: u32, values: Seq<u16> },
    Static(u32),
    Identity,
}

/// Model of a position/scale track.
pub enum VectorModel {
    Static(Seq<u32>),
    Dynamic { axes: Seq<AxisModel>, knots: Seq<u8>, degree: u8 },
}

/// Model of a packed quaternion.
pub enum QuatModel {
    Polar32(u32),
    ThreeComp40(Seq<u8>),
    ThreeComp48(u16, u16, u16),
    Uncompressed(Seq<u32>),
    Identity,
}

/// Model of a rotation track.
pub enum RotationModel {
    Static(QuatModel),
    Dynamic { track: Seq<QuatModel>, knots: Seq<u8>, degree: u8 },
    Identity,
}

/// Model of a transform track.
pub struct TrackModel {
    pub position: VectorModel,
    pub rotation: RotationModel,
    pub scale: VectorModel,
}

/// Model of a spline block.
pub struct BlockModel {
    pub masks: Seq<TransformMask>,
    pub tracks: Seq<TrackModel>,
}

impl View for VectorAxis {
    type V = AxisModel;

    open spec fn view(&self) -> AxisModel {
        match self {
            VectorAxis::Dynamic { min, max, values } => AxisModel::Dynamic { min: *min, max: *max, values: values@ },
            VectorAxis::Static(v) => AxisModel::Static(*v),
            VectorAxis::Identity => AxisModel::Identity,
        }
    }
}

impl View for SplineTrackVector {
    type V = VectorModel;

    open spec fn view(&self) -> VectorModel {
        match self {
            SplineTrackVector::Static(t) => VectorModel::Static(t.value@),
            SplineTrackVector::Dynamic(t) => VectorModel::Dynamic {
                axes: t.tracks@.map_values(|a: VectorAxis| a@),
                knots: t.knots@,
                degree: t.degree,
            },
        }
    }
}

impl View for PackedQuat {
    type V = QuatModel;

    open spec fn view(&self) -> QuatModel {
        match self {
            PackedQuat::Polar32(q) => QuatModel::Polar32(q.0),
            PackedQuat::ThreeComp40(q) => QuatModel::ThreeComp40(q.bytes@),
            PackedQuat::ThreeComp48(q) => QuatModel::ThreeComp48(q.x, q.y, q.z),
            PackedQuat::Uncompressed(c) => QuatModel::Uncompressed(c@),
            PackedQuat::Identity => QuatModel::Identity,
        }
    }
}

impl View for SplineTrackQuat {
    type V = RotationModel;

    open spec fn view(&self) -> RotationModel {
        match self {
            SplineTrackQuat::Static(t) => RotationModel::Static(t.value@),
            SplineTrackQuat::Dynamic(t) => RotationModel::Dynamic {
                track: t.track@.map_values(|q: PackedQuat| q@),
                knots: t.knots@,
                degree: t.degree,
            },
            SplineTrackQuat::Identity => RotationModel::Identity,
        }
    }
}

impl View for TransformTrack {
    type V = TrackModel;

    open spec fn view(&self) -> TrackModel {
        TrackModel { position: self.position@, rotation: self.rotation@, scale: self.scale@ }
    }
}

impl View for TransformSplineBlock {
    type V = BlockModel;

    open spec fn view(&self) -> BlockModel {
        BlockModel { masks: self.masks@, tracks: self.tracks@.map_values(|t: TransformTrack| t@) }
    }
}

} // verus!

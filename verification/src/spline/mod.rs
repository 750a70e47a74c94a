//! Havok spline-compressed animation data.

pub mod bits;
pub mod context;
pub mod de;
pub mod decompose;
pub mod knots;
pub mod math;
pub mod packed;
pub mod qs_mask;
pub mod reader;
pub mod roundtrip;
pub mod ser;
pub mod simd;
pub mod skeleton;

use vstd::prelude::*;

use self::math::QuantizationType;

verus! {

/// Scalar (position and scale) quantization formats.
#[derive(Clone, Copy, Debug, PartialEq, Eq, Structural)]
pub enum ScalarQuantizationType {
    /// One byte per value.
    Bits8,
    /// Two bytes per value.
    Bits16,
}

/// Rotation quantization formats, in the order of their stored codes.
#[derive(Clone, Copy, Debug, PartialEq, Eq, Structural)]
pub enum RotationQuantizationType {
    /// 4 bytes, align 4.
    Polar32,
    /// 5 bytes, align 1.
    ThreeComp40,
    /// 6 bytes, align 2.
    ThreeComp48,
    /// 3 bytes, align 1; not decoded.
    ThreeComp24,
    /// 2 bytes, align 2; not decoded.
    Straight16,
    /// 16 bytes, align 4.
    Uncompressed,
}

/// The alignment before quantized quaternions of a decoded format.
pub open spec fn rotation_align_spec(q: RotationQuantizationType) -> Option<usize> {
    match q {
        RotationQuantizationType::ThreeComp40 => Some(1),
        RotationQuantizationType::ThreeComp48 => Some(2),
        RotationQuantizationType::Polar32 | RotationQuantizationType::Uncompressed => Some(4),
        _ => None,
    }
}

/// The rotation format that a mask's rotation quantization names; scalar
/// quantizations name none.
pub open spec fn rotation_format(q: QuantizationType) -> Option<RotationQuantizationType> {
    match q {
        QuantizationType::Bit32 => Some(RotationQuantizationType::Polar32),
        QuantizationType::Bit40 => Some(RotationQuantizationType::ThreeComp40),
        QuantizationType::Bit48 => Some(RotationQuantizationType::ThreeComp48),
        QuantizationType::Bit24 => Some(RotationQuantizationType::ThreeComp24),
        QuantizationType::Bit16Quat => Some(RotationQuantizationType::Straight16),
        QuantizationType::Uncompressed => Some(RotationQuantizationType::Uncompressed),
        _ => None,
    }
}

impl RotationQuantizationType {
    /// Returns the byte alignment required before quantized quaternions, or
    /// `None` for the formats without a decoder.
    pub fn rotation_align(self) -> (r: Option<usize>)
        ensures
            r == rotation_align_spec(self),
    {
        match self {
            RotationQuantizationType::ThreeComp40 => Some(1),
            RotationQuantizationType::ThreeComp48 => Some(2),
            RotationQuantizationType::Polar32 | RotationQuantizationType::Uncompressed => Some(4),
            _ => None,
        }
    }
}

} // verus!

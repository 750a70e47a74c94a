//! The lenient reading of a transform mask used by the frame sampler.

use vstd::prelude::*;

use super::de::SplineError;
use super::reader::{parse_u8, Reader};
use super::math::TransformMask;
use super::{rotation_format, RotationQuantizationType, ScalarQuantizationType};

verus! {

/// A transform mask read leniently: any non-zero scalar code is 16-bit,
/// any rotation code from 5 up is uncompressed, and the flag bytes are kept
/// as they are (every bit is a channel flag).
#[derive(Debug, Clone, Copy)]
pub struct QsTransformMask {
    pub pos_q: ScalarQuantizationType,
    pub rot_q: RotationQuantizationType,
    pub scale_q: ScalarQuantizationType,
    pub pos_flags: u8,
    pub rot_flags: u8,
    pub scale_flags: u8,
}

/// The scalar quantization of a two-bit code.
pub open spec fn scalar_of(code: u8) -> ScalarQuantizationType {
    if code == 0 {
        ScalarQuantizationType::Bits8
    } else {
        ScalarQuantizationType::Bits16
    }
}

/// The rotation quantization of a four-bit code.
pub open spec fn rotation_of(code: u8) -> RotationQuantizationType {
    if code == 0 {
        RotationQuantizationType::Polar32
    } else if code == 1 {
        RotationQuantizationType::ThreeComp40
    } else if code == 2 {
        RotationQuantizationType::ThreeComp48
    } else if code == 3 {
        RotationQuantizationType::ThreeComp24
    } else if code == 4 {
        RotationQuantizationType::Straight16
    } else {
        RotationQuantizationType::Uncompressed
    }
}

/// The lenient reading of the four mask bytes.
pub open spec fn qs_mask_of(b0: u8, b1: u8, b2: u8, b3: u8) -> QsTransformMask {
    QsTransformMask {
        pos_q: scalar_of(b0 % 4),
        rot_q: rotation_of((b0 / 4) % 16),
        scale_q: scalar_of(b0 / 64),
        pos_flags: b1,
        rot_flags: b2,
        scale_flags: b3,
    }
}

impl QsTransformMask {
    /// Reads a mask from its four bytes: quantization codes, then the
    /// position, rotation and scale flags.
    pub fn from_bytes(bytes: [u8; 4]) -> (r: Self)
        ensures
            r == qs_mask_of(bytes@[0], bytes@[1], bytes@[2], bytes@[3]),
    {
        let qt = bytes[0];
        let p = qt & 0x3;
        let q = (qt >> 2) & 0xf;
        let s = (qt >> 6) & 0x3;
        assert(p == qt % 4 && q == (qt / 4) % 16 && s == qt / 64) by (bit_vector)
            requires
                p == qt & 0x3,
                q == (qt >> 2) & 0xf,
                s == (qt >> 6) & 0x3,
        ;
        QsTransformMask {
            pos_q: if p == 0 { ScalarQuantizationType::Bits8 } else { ScalarQuantizationType::Bits16 },
            rot_q: match q {
                0 => RotationQuantizationType::Polar32,
                1 => RotationQuantizationType::ThreeComp40,
                2 => RotationQuantizationType::ThreeComp48,
                3 => RotationQuantizationType::ThreeComp24,
                4 => RotationQuantizationType::Straight16,
                _ => RotationQuantizationType::Uncompressed,
            },
            scale_q: if s == 0 { ScalarQuantizationType::Bits8 } else { ScalarQuantizationType::Bits16 },
            pos_flags: bytes[1],
            rot_flags: bytes[2],
            scale_flags: bytes[3],
        }
    }
}

/// Reads a mask leniently at the reader's position.
pub fn parse_qs_transform_mask(reader: &mut Reader<'_>) -> (r: Result<QsTransformMask, SplineError>)
    requires
        old(reader).inv(),
    ensures
        final(reader).inv(),
        final(reader).data@ == old(reader).data@,
        old(reader).position + 4 <= old(reader).data@.len() ==> r == Ok::<QsTransformMask, SplineError>(
            qs_mask_of(
                old(reader).data@[old(reader).position as int],
                old(reader).data@[old(reader).position + 1],
                old(reader).data@[old(reader).position + 2],
                old(reader).data@[old(reader).position + 3],
            ),
        ) && final(reader).position == old(reader).position + 4,
        old(reader).position + 4 > old(reader).data@.len() ==> r == Err::<QsTransformMask, SplineError>(SplineError::UnexpectedEof)
            && final(reader).position == old(reader).position,
{
    let bytes = reader.read_array::<4>()?;
    Ok(QsTransformMask::from_bytes(bytes))
}

/// The transform mask of four bytes.
pub open spec fn mask_of(b0: u8, b1: u8, b2: u8, b3: u8) -> TransformMask {
    TransformMask { quantization_types: b0, position_types: b1, rotation_types: b2, scale_types: b3 }
}

/// The lenient reading agrees with [`TransformMask`] wherever the latter
/// reads a quantization: the same rotation format for every rotation code
/// from 0 to 5 (0 `Polar32`, 1 `ThreeComp40`, 2 `ThreeComp48`, 3
/// `ThreeComp24`, 4 `Straight16`, 5 `Uncompressed`), the same 8- or 16-bit
/// position and scale; beyond those, only rotation codes from 5 up read as
/// `Uncompressed` and any scalar code but 0 as 16-bit. The flag bytes are
/// the mask's own.
pub proof fn lemma_lenient_mask_agrees(b0: u8, b1: u8, b2: u8, b3: u8)
    ensures
        mask_of(b0, b1, b2, b3).spec_rotation_quantization()
            matches Ok(q) ==> rotation_format(q) == Some(qs_mask_of(b0, b1, b2, b3).rot_q),
        mask_of(b0, b1, b2, b3).spec_position_quantization()
            matches Ok(q) ==> (q is Bit8 <==> qs_mask_of(b0, b1, b2, b3).pos_q is Bits8),
        mask_of(b0, b1, b2, b3).spec_scale_quantization()
            matches Ok(q) ==> (q is Bit8 <==> qs_mask_of(b0, b1, b2, b3).scale_q is Bits8),
        (qs_mask_of(b0, b1, b2, b3).rot_q is Uncompressed) <==> (b0 / 4) % 16 >= 5,
        (qs_mask_of(b0, b1, b2, b3).pos_q is Bits8) <==> b0 % 4 == 0,
        (qs_mask_of(b0, b1, b2, b3).scale_q is Bits8) <==> b0 / 64 == 0,
        qs_mask_of(b0, b1, b2, b3).pos_flags == b1,
        qs_mask_of(b0, b1, b2, b3).rot_flags == b2,
        qs_mask_of(b0, b1, b2, b3).scale_flags == b3,
        qs_mask_of(b0, b1, b2, b3).rot_flags == mask_of(b0, b1, b2, b3).rotation_types,
{
}

} // verus!

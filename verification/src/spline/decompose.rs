//! The integer side of splitting an animation into spline blocks: the
//! shape checks, the block ranges and the transform masks.

use vstd::prelude::*;

use super::de::{vector_kind, vector_types, SplineError};
use super::math::{
    axis_flags_with, axis_set_bits, lemma_axis_sub_track_roundtrip, rotation_flags_of, lemma_position_quantization_roundtrip,
    lemma_rotation_quantization_roundtrip, lemma_rotation_sub_track_roundtrip,
    lemma_scale_quantization_roundtrip, QuantizationType, SplineTrackType, TransformMask,
    TransformType,
};

verus! {

/// The most frames one block holds.
pub const MAX_FRAMES_PER_BLOCK: usize = 256;

/// The mask of a track: 16-bit position and scale, 40-bit rotation, and
/// the given kind for every component.
pub open spec fn mask_describes(
    mask: TransformMask,
    position_kinds: Seq<SplineTrackType>,
    rotation_kind: SplineTrackType,
    scale_kinds: Seq<SplineTrackType>,
) -> bool {
    &&& mask.spec_position_quantization() == Ok::<QuantizationType, SplineError>(QuantizationType::Bit16)
    &&& mask.spec_rotation_quantization() == Ok::<QuantizationType, SplineError>(QuantizationType::Bit40)
    &&& mask.spec_scale_quantization() == Ok::<QuantizationType, SplineError>(QuantizationType::Bit16)
    &&& forall|a: int| 0 <= a < 3 ==> #[trigger] vector_kind(mask, false, a) == position_kinds[a]
    &&& mask.spec_sub_track_type(TransformType::Rotation) == rotation_kind
    &&& forall|a: int| 0 <= a < 3 ==> #[trigger] vector_kind(mask, true, a) == scale_kinds[a]
}

/// The position or scale flag byte of three axis kinds: the static bit
/// (1, 2, 4) or the spline bit (16, 32, 64) of each axis, nothing for an
/// identity axis.
pub open spec fn axis_flags_of(kinds: Seq<SplineTrackType>) -> u8 {
    (axis_set_bits(kinds[0], 1, 16) + axis_set_bits(kinds[1], 2, 32) + axis_set_bits(kinds[2], 4, 64)) as u8
}

/// Three axis writes into a zero flag byte give the sum of their bits.
proof fn lemma_axis_flags_from_zero(kinds: Seq<SplineTrackType>)
    requires
        kinds.len() == 3,
    ensures
        axis_flags_with(
            axis_flags_with(axis_flags_with(0, 1, 16, kinds[0]), 2, 32, kinds[1]),
            4, 64, kinds[2],
        ) == axis_flags_of(kinds),
{
    let b0 = axis_set_bits(kinds[0], 1, 16);
    let b1 = axis_set_bits(kinds[1], 2, 32);
    let b2 = axis_set_bits(kinds[2], 4, 64);
    assert(((((((0u8 & !(1u8 | 16u8)) | b0) & !(2u8 | 32u8)) | b1) & !(4u8 | 64u8)) | b2) == b0 + b1 + b2)
        by (bit_vector)
        requires
            b0 == 0u8 || b0 == 1u8 || b0 == 16u8,
            b1 == 0u8 || b1 == 2u8 || b1 == 32u8,
            b2 == 0u8 || b2 == 4u8 || b2 == 64u8,
    ;
}

/// Builds the transform mask of a track from the kinds of its components:
/// quantization byte 0x45 (16-bit position and scale, 40-bit rotation), and
/// the flag bytes that store the given kinds and nothing else.
pub fn build_mask(
    position_kinds: [SplineTrackType; 3],
    rotation_kind: SplineTrackType,
    scale_kinds: [SplineTrackType; 3],
) -> (r: TransformMask)
    ensures
        mask_describes(r, position_kinds@, rotation_kind, scale_kinds@),
        r.quantization_types == 0x45,
        r.position_types == axis_flags_of(position_kinds@),
        r.rotation_types == rotation_flags_of(rotation_kind),
        r.scale_types == axis_flags_of(scale_kinds@),
{
    let mut mask = TransformMask::default();
    let ghost m0 = mask;
    mask.set_position_quantization_type(QuantizationType::Bit16);
    proof { lemma_position_quantization_roundtrip(m0, QuantizationType::Bit16); }
    let ghost m1 = mask;
    mask.set_rotation_quantization_type(QuantizationType::Bit40);
    proof { lemma_rotation_quantization_roundtrip(m1, QuantizationType::Bit40); }
    let ghost m2 = mask;
    mask.set_scale_quantization_type(QuantizationType::Bit16);
    proof { lemma_scale_quantization_roundtrip(m2, QuantizationType::Bit16); }
    let ghost m3 = mask;
    mask.set_sub_track_type(TransformType::PosX, position_kinds[0]);
    proof { lemma_axis_sub_track_roundtrip(m3, TransformType::PosX, position_kinds[0]); }
    let ghost m4 = mask;
    mask.set_sub_track_type(TransformType::PosY, position_kinds[1]);
    proof { lemma_axis_sub_track_roundtrip(m4, TransformType::PosY, position_kinds[1]); }
    let ghost m5 = mask;
    mask.set_sub_track_type(TransformType::PosZ, position_kinds[2]);
    proof { lemma_axis_sub_track_roundtrip(m5, TransformType::PosZ, position_kinds[2]); }
    let ghost m6 = mask;
    assert(m6.rotation_types == 0);
    mask.set_sub_track_type(TransformType::Rotation, rotation_kind);
    proof { lemma_rotation_sub_track_roundtrip(m6, rotation_kind); }
    let ghost m7 = mask;
    mask.set_sub_track_type(TransformType::ScaleX, scale_kinds[0]);
    proof { lemma_axis_sub_track_roundtrip(m7, TransformType::ScaleX, scale_kinds[0]); }
    let ghost m8 = mask;
    mask.set_sub_track_type(TransformType::ScaleY, scale_kinds[1]);
    proof { lemma_axis_sub_track_roundtrip(m8, TransformType::ScaleY, scale_kinds[1]); }
    let ghost m9 = mask;
    mask.set_sub_track_type(TransformType::ScaleZ, scale_kinds[2]);
    proof {
        lemma_axis_sub_track_roundtrip(m9, TransformType::ScaleZ, scale_kinds[2]);
        assert forall|a: int| 0 <= a < 3 implies #[trigger] vector_kind(mask, false, a) == position_kinds@[a] by {
            assert(a == 0 || a == 1 || a == 2);
        }
        assert forall|a: int| 0 <= a < 3 implies #[trigger] vector_kind(mask, true, a) == scale_kinds@[a] by {
            assert(a == 0 || a == 1 || a == 2);
        }
        lemma_axis_flags_from_zero(position_kinds@);
        lemma_axis_flags_from_zero(scale_kinds@);
    }
    mask
}

} // verus!

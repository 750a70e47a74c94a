use serde_spline::spline::de::{SplineData, SplineDecompressor, SplineError};
use serde_spline::spline::math::{
    PackedQuat, SplineDynamicTrackQuat, SplineDynamicTrackVector, SplineStaticTrack,
    SplineTrackQuat, SplineTrackVector, TransformMask, TransformSplineBlock, TransformTrack,
    VectorAxis,
};
use serde_spline::spline::packed::{Quat40, Quat48};
use serde_spline::spline::reader::Endianness;

const ONE: u32 = 0x3f80_0000;
const TWO: u32 = 0x4000_0000;

fn sample_mask() -> TransformMask {
    TransformMask { quantization_types: 5, position_types: 0x21, rotation_types: 0x0f, scale_types: 0 }
}

fn sample_track() -> TransformTrack {
    TransformTrack {
        position: SplineTrackVector::Dynamic(SplineDynamicTrackVector {
            tracks: [
                VectorAxis::Static(ONE),
                VectorAxis::Dynamic { min: 0, max: TWO, values: vec![0, 0xffff] },
                VectorAxis::Identity,
            ],
            knots: vec![0, 0, 1, 1],
            degree: 1,
        }),
        rotation: SplineTrackQuat::Static(SplineStaticTrack { value: PackedQuat::ThreeComp40(Quat40::new([1, 2, 3, 4, 5])) }),
        scale: SplineTrackVector::Static(SplineStaticTrack { value: [ONE, ONE, ONE, 0] }),
    }
}

fn sample_block() -> TransformSplineBlock {
    TransformSplineBlock { masks: vec![sample_mask()], tracks: vec![sample_track()] }
}

fn sample_bytes() -> Vec<u8> {
    let mut v = vec![5, 0x21, 0x0f, 0x00];
    v.extend_from_slice(&[1, 0, 1, 0, 0, 1, 1, 0]);
    v.extend_from_slice(&[0, 0, 0x80, 0x3f, 0, 0, 0, 0, 0, 0, 0, 0x40]);
    // 16-bit control points: each value followed by a reserved word.
    v.extend_from_slice(&[0, 0, 0, 0, 0xff, 0xff, 0, 0]);
    v.extend_from_slice(&[1, 2, 3, 4, 5, 0, 0, 0]);
    v.extend_from_slice(&[0; 8]);
    v
}

fn debug<T: std::fmt::Debug>(value: &T) -> String {
    format!("{value:?}")
}

#[test]
fn encode_writes_the_block_layout() {
    let anim = SplineDecompressor { blocks: vec![sample_block()] };
    let encoded = anim.encode().unwrap();
    assert_eq!(encoded.data, sample_bytes());
    assert_eq!(encoded.block_offsets, vec![0]);
}

#[test]
fn decode_reads_the_block_layout() {
    let decoded = SplineDecompressor::decode(&sample_bytes(), &[0], 1, 0).unwrap();
    assert_eq!(decoded.blocks.len(), 1);
    assert_eq!(debug(&decoded.blocks[0]), debug(&sample_block()));
}

#[test]
fn encode_then_decode_gives_back_several_blocks() {
    let mut second = sample_block();
    second.tracks[0].rotation = SplineTrackQuat::Identity;
    second.masks[0].rotation_types = 0;
    let anim = SplineDecompressor { blocks: vec![sample_block(), second.clone(), sample_block()] };
    let encoded = anim.encode().unwrap();
    assert_eq!(encoded.block_offsets, vec![0, 48, 80]);
    for strict in [false, true] {
        let decoded = if strict {
            SplineData::decode(&encoded.data, &encoded.block_offsets, 1, 0, Endianness::Little).unwrap().blocks
        } else {
            SplineDecompressor::decode(&encoded.data, &encoded.block_offsets, 1, 0).unwrap().blocks
        };
        assert_eq!(debug(&decoded), debug(&anim.blocks));
    }
}

#[test]
fn encode_then_decode_dynamic_rotation_and_bit8_scale() {
    let mask = TransformMask {
        quantization_types: 0x08, // position Bit8, rotation Bit48, scale Bit8
        position_types: 0x70,
        rotation_types: 0xf0,
        scale_types: 0x01,
    };
    let track = TransformTrack {
        position: SplineTrackVector::Dynamic(SplineDynamicTrackVector {
            tracks: [
                VectorAxis::Dynamic { min: 1, max: 2, values: vec![1, 2, 3] },
                VectorAxis::Dynamic { min: 3, max: 4, values: vec![4, 5, 255] },
                VectorAxis::Dynamic { min: 5, max: 6, values: vec![0, 0, 0] },
            ],
            knots: vec![0, 0, 1, 2, 2],
            degree: 1,
        }),
        rotation: SplineTrackQuat::Dynamic(SplineDynamicTrackQuat {
            track: vec![
                PackedQuat::ThreeComp48(Quat48 { x: 1, y: 2, z: 3 }),
                PackedQuat::ThreeComp48(Quat48 { x: 0x8000, y: 0x7fff, z: 0xffff }),
            ],
            knots: vec![0, 0, 1, 1],
            degree: 1,
        }),
        scale: SplineTrackVector::Static(SplineStaticTrack { value: [TWO, ONE, ONE, 0] }),
    };
    let anim = SplineDecompressor {
        blocks: vec![TransformSplineBlock { masks: vec![mask, mask], tracks: vec![track.clone(), track] }],
    };
    let encoded = anim.encode().unwrap();
    assert_eq!(encoded.data.len() % 16, 0);
    let decoded = SplineDecompressor::decode(&encoded.data, &encoded.block_offsets, 2, 0).unwrap();
    assert_eq!(debug(&decoded.blocks), debug(&anim.blocks));
}

#[test]
fn decode_reads_big_endian_values() {
    // One track: static X position, everything else identity.
    let data = [0u8, 0x01, 0, 0, 0x3f, 0x80, 0, 0];
    let block = TransformSplineBlock::decode_endian(&data, 1, 0, Endianness::Big).unwrap();
    assert_eq!(
        debug(&block.tracks[0].position),
        debug(&SplineTrackVector::Static(SplineStaticTrack { value: [ONE, 0, 0, 0] }))
    );
    let block = TransformSplineBlock::decode(&data, 1, 0).unwrap();
    assert_eq!(
        debug(&block.tracks[0].position),
        debug(&SplineTrackVector::Static(SplineStaticTrack { value: [0x0000_803f, 0, 0, 0] }))
    );
}

#[test]
fn decode_skips_float_tracks_and_aligns() {
    // mask, then 3 float-track bytes, padding to 8, then a static X position.
    let data = [0u8, 0x01, 0, 0, 9, 9, 9, 0, 0, 0, 0x80, 0x3f];
    let block = TransformSplineBlock::decode(&data, 1, 3).unwrap();
    assert_eq!(
        debug(&block.tracks[0].position),
        debug(&SplineTrackVector::Static(SplineStaticTrack { value: [ONE, 0, 0, 0] }))
    );
    // Scale identity reads 1.0.
    assert_eq!(
        debug(&block.tracks[0].scale),
        debug(&SplineTrackVector::Static(SplineStaticTrack { value: [ONE, ONE, ONE, 0] }))
    );
}

#[test]
fn decode_reports_truncated_data() {
    let data = sample_bytes();
    assert_eq!(TransformSplineBlock::decode(&data[..20], 1, 0).unwrap_err(), SplineError::UnexpectedEof);
    assert_eq!(TransformSplineBlock::decode(&data[..3], 1, 0).unwrap_err(), SplineError::UnexpectedEof);
    assert_eq!(SplineDecompressor::decode(&data, &[49], 1, 0).unwrap_err(), SplineError::UnexpectedEof);
    assert_eq!(SplineData::decode(&data, &[49], 1, 0, Endianness::Little).unwrap_err(), SplineError::EmptySplineData);
}

#[test]
fn decode_reports_unaddressable_track_counts() {
    let data = sample_bytes();
    let huge = usize::MAX / 2;
    assert_eq!(TransformSplineBlock::decode(&data, huge, 0).unwrap_err(), SplineError::UnexpectedEof);
    assert_eq!(
        TransformSplineBlock::decode_endian(&data, huge, 0, Endianness::Little).unwrap_err(),
        SplineError::InvalidData("num tracks overflow multiply")
    );
}

#[test]
fn decode_reports_invalid_quantization() {
    // position quantization 2 is invalid.
    let data = [2u8, 0, 0, 0];
    assert_eq!(TransformSplineBlock::decode(&data, 1, 0).unwrap_err(), SplineError::InvalidQuantizationType(2));
    // scale quantization 3 is invalid.
    let data = [0xc0u8, 0, 0, 0];
    assert_eq!(TransformSplineBlock::decode(&data, 1, 0).unwrap_err(), SplineError::InvalidQuantizationType(3));
}

#[test]
fn decode_rotation_without_decoder_is_identity_or_error() {
    // Rotation quantization Bit24 (stored 3), static rotation of 3 bytes.
    let data = [0x0cu8, 0, 0x0f, 0, 9, 9, 9, 0];
    assert_eq!(TransformSplineBlock::decode(&data[..6], 1, 0).unwrap_err(), SplineError::UnexpectedEof);
    let block = TransformSplineBlock::decode(&data, 1, 0).unwrap();
    assert_eq!(
        debug(&block.tracks[0].rotation),
        debug(&SplineTrackQuat::Static(SplineStaticTrack { value: PackedQuat::Identity }))
    );
    assert_eq!(
        TransformSplineBlock::decode_endian(&data, 1, 0, Endianness::Little).unwrap_err(),
        SplineError::InvalidQuantizationType(5)
    );
}

#[test]
fn decode_skips_bit16_quaternions_without_a_decoder() {
    // Rotation quantization Bit16Quat (stored 4), spline rotation of two
    // 2-byte quaternions after padding to 2.
    let data = [0x10u8, 0, 0xf0, 0, 1, 0, 1, 0, 0, 1, 1, 0, 7, 7, 8, 8];
    let block = TransformSplineBlock::decode(&data, 1, 0).unwrap();
    assert_eq!(
        debug(&block.tracks[0].rotation),
        debug(&SplineTrackQuat::Dynamic(SplineDynamicTrackQuat {
            track: vec![PackedQuat::Identity, PackedQuat::Identity],
            knots: vec![0, 0, 1, 1],
            degree: 1,
        }))
    );
    assert_eq!(TransformSplineBlock::decode(&data[..15], 1, 0).unwrap_err(), SplineError::UnexpectedEof);
}

#[test]
fn decode_without_offsets_gives_no_blocks() {
    let decoded = SplineDecompressor::decode(&[], &[], 3, 0).unwrap();
    assert!(decoded.blocks.is_empty());
    assert!(SplineDecompressor::new().blocks.is_empty());
    assert!(SplineData::new().blocks.is_empty());
}

#[test]
fn encode_refuses_empty_animation() {
    let anim = SplineDecompressor { blocks: vec![] };
    assert_eq!(anim.encode().unwrap_err(), SplineError::InvalidData("cannot encode empty spline data"));
}

#[test]
fn encode_refuses_unequal_track_counts() {
    let mut other = sample_block();
    other.masks.push(sample_mask());
    other.tracks.push(sample_track());
    let anim = SplineDecompressor { blocks: vec![sample_block(), other] };
    assert_eq!(
        anim.encode().unwrap_err(),
        SplineError::InvalidData("animation data blocks do not have equal transform track counts")
    );
}

fn encode_one(mask: TransformMask, track: TransformTrack) -> Result<Vec<u8>, SplineError> {
    SplineDecompressor { blocks: vec![TransformSplineBlock { masks: vec![mask], tracks: vec![track] }] }
        .encode()
        .map(|e| e.data)
}

#[test]
fn encode_refuses_tracks_that_disagree_with_their_mask() {
    let mut mask = sample_mask();
    mask.rotation_types = 0;
    assert_eq!(
        encode_one(mask, sample_track()).unwrap_err(),
        SplineError::InvalidData("rotation track is static while its mask is not static")
    );
    let mut mask = sample_mask();
    mask.position_types = 0x01;
    assert_eq!(
        encode_one(mask, sample_track()).unwrap_err(),
        SplineError::InvalidData("vector track is dynamic while its mask contains no dynamic axis")
    );
    let mut track = sample_track();
    track.position = SplineTrackVector::Static(SplineStaticTrack { value: [0, 0, 0, 0] });
    assert_eq!(
        encode_one(sample_mask(), track).unwrap_err(),
        SplineError::InvalidData("vector track is static while its mask contains a dynamic axis")
    );
}

#[test]
fn encode_refuses_invalid_values() {
    let mut track = sample_track();
    track.scale = SplineTrackVector::Static(SplineStaticTrack { value: [0, ONE, ONE, 0] });
    assert_eq!(
        encode_one(sample_mask(), track).unwrap_err(),
        SplineError::InvalidData("identity vector component differs from its default value")
    );
    let mut mask = sample_mask();
    mask.scale_types = 0x01;
    let mut track = sample_track();
    track.scale = SplineTrackVector::Static(SplineStaticTrack { value: [0x7f80_0000, ONE, ONE, 0] });
    assert_eq!(
        encode_one(mask, track).unwrap_err(),
        SplineError::InvalidData("static vector contains a non-finite value")
    );
}

#[test]
fn encode_refuses_bad_spline_shapes() {
    let with_position = |position: SplineDynamicTrackVector| {
        let mut track = sample_track();
        track.position = SplineTrackVector::Dynamic(position);
        encode_one(sample_mask(), track).unwrap_err()
    };
    let base = |values: Vec<u16>, knots: Vec<u8>, degree: u8| SplineDynamicTrackVector {
        tracks: [
            VectorAxis::Static(ONE),
            VectorAxis::Dynamic { min: 0, max: TWO, values },
            VectorAxis::Identity,
        ],
        knots,
        degree,
    };
    assert_eq!(with_position(base(vec![], vec![0, 0], 1)), SplineError::InvalidData("dynamic vector contains no frame samples"));
    assert_eq!(
        with_position(base(vec![1], vec![0, 0, 0], 1)),
        SplineError::InvalidData("dynamic vector requires at least two frame samples")
    );
    assert_eq!(with_position(base(vec![1, 2], vec![0, 0, 1, 1], 0)), SplineError::InvalidData("B-spline degree must not be zero"));
    assert_eq!(
        with_position(base(vec![1, 2], vec![0, 0, 1], 1)),
        SplineError::InvalidData("B-spline knot count does not match frame sample count")
    );
    let mut mismatched = base(vec![1, 2], vec![0, 0, 1, 1], 1);
    mismatched.tracks[2] = VectorAxis::Static(0);
    assert_eq!(with_position(mismatched), SplineError::InvalidData("vector axis does not match its mask"));
    let mut infinite = base(vec![1, 2], vec![0, 0, 1, 1], 1);
    infinite.tracks[1] = VectorAxis::Dynamic { min: 0xff80_0000, max: 0, values: vec![1, 2] };
    assert_eq!(with_position(infinite), SplineError::InvalidData("cannot quantize a non-finite scalar"));
}

#[test]
fn encode_refuses_oversized_bit8_control_points() {
    let mask = TransformMask { quantization_types: 0x04, position_types: 0x10, rotation_types: 0, scale_types: 0 };
    let track = TransformTrack {
        position: SplineTrackVector::Dynamic(SplineDynamicTrackVector {
            tracks: [VectorAxis::Dynamic { min: 0, max: 1, values: vec![1, 256] }, VectorAxis::Identity, VectorAxis::Identity],
            knots: vec![0, 0, 1, 1],
            degree: 1,
        }),
        rotation: SplineTrackQuat::Identity,
        scale: SplineTrackVector::Static(SplineStaticTrack { value: [ONE, ONE, ONE, 0] }),
    };
    assert_eq!(
        encode_one(mask, track).unwrap_err(),
        SplineError::InvalidData("quantized control point exceeds its quantization")
    );
}

#[test]
fn encode_refuses_quaternions_it_cannot_write() {
    let mut track = sample_track();
    track.rotation = SplineTrackQuat::Static(SplineStaticTrack { value: PackedQuat::Uncompressed([0, 0, 0, ONE]) });
    assert_eq!(
        encode_one(sample_mask(), track).unwrap_err(),
        SplineError::InvalidData("quaternion does not match its quantization")
    );
    let mut mask = sample_mask();
    mask.quantization_types = 1; // rotation Bit32
    assert_eq!(
        encode_one(mask, sample_track()).unwrap_err(),
        SplineError::InvalidData("quaternion quantization format is not supported by the encoder")
    );
    let mut track = sample_track();
    track.rotation = SplineTrackQuat::Dynamic(SplineDynamicTrackQuat {
        track: vec![PackedQuat::ThreeComp40(Quat40::new([0; 5]))],
        knots: vec![0, 0, 1],
        degree: 1,
    });
    let mut mask = sample_mask();
    mask.rotation_types = 0xf0;
    assert_eq!(
        encode_one(mask, track).unwrap_err(),
        SplineError::InvalidData("dynamic quaternion track requires at least two frame samples")
    );
}

#[test]
fn encode_refuses_invalid_mask_quantization() {
    let mut mask = sample_mask();
    mask.quantization_types = 0x02 | 0x04;
    assert_eq!(encode_one(mask, sample_track()).unwrap_err(), SplineError::InvalidQuantizationType(2));
}

#[test]
fn encode_refuses_mismatched_masks_and_tracks() {
    let block = TransformSplineBlock { masks: vec![sample_mask(), sample_mask()], tracks: vec![sample_track()] };
    assert_eq!(
        SplineDecompressor { blocks: vec![block] }.encode().unwrap_err(),
        SplineError::InvalidData("animation data blocks do not have equal transform track counts")
    );
}

#[test]
fn encode_block_refuses_mismatched_masks_and_tracks() {
    let block = TransformSplineBlock { masks: vec![sample_mask(), sample_mask()], tracks: vec![sample_track()] };
    assert_eq!(
        serde_spline::spline::ser::encode_block(&block).unwrap_err(),
        SplineError::InvalidData("mask count does not match track count")
    );
    assert_eq!(serde_spline::spline::ser::encode_block(&sample_block()).unwrap(), sample_bytes());
}

#[test]
fn decode_of_encoded_gives_unstored_lanes_their_defaults() {
    // scale flags 0: every scale axis is identity, so nothing of it is
    // stored; w is never stored.
    let mut block = sample_block();
    block.tracks[0].scale = SplineTrackVector::Static(SplineStaticTrack { value: [ONE, ONE, ONE, 7] });
    let encoded = SplineDecompressor { blocks: vec![block.clone()] }.encode().unwrap();
    assert_eq!(encoded.data, sample_bytes());
    let decoded = SplineDecompressor::decode(&encoded.data, &encoded.block_offsets, 1, 0).unwrap();
    assert_eq!(debug(&decoded.blocks[0].masks), debug(&block.masks));
    assert_eq!(debug(&decoded.blocks[0].tracks[0].scale), debug(&SplineTrackVector::Static(SplineStaticTrack { value: [ONE, ONE, ONE, 0] })));
    assert_eq!(debug(&decoded.blocks[0].tracks[0].position), debug(&block.tracks[0].position));
}

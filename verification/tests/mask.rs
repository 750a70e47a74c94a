use serde_spline::spline::decompose::build_mask;
use serde_spline::spline::de::SplineError;
use serde_spline::spline::math::{QuantizationType, SplineTrackType, TransformMask, TransformType};
use serde_spline::spline::{RotationQuantizationType, ScalarQuantizationType};

const ALL: [TransformType; 7] = [
    TransformType::PosX,
    TransformType::PosY,
    TransformType::PosZ,
    TransformType::Rotation,
    TransformType::ScaleX,
    TransformType::ScaleY,
    TransformType::ScaleZ,
];

const KINDS: [SplineTrackType; 3] = [SplineTrackType::Static, SplineTrackType::Dynamic, SplineTrackType::Identity];

#[test]
fn quantization_getters() {
    let mask = TransformMask { quantization_types: 0b01_0011_01, ..TransformMask::default() };
    assert_eq!(mask.position_quantization_type(), Ok(QuantizationType::Bit16));
    assert_eq!(mask.rotation_quantization_type(), Ok(QuantizationType::Bit24));
    assert_eq!(mask.scale_quantization_type(), Ok(QuantizationType::Bit16));
    let mask = TransformMask { quantization_types: 0b10_1111_11, ..TransformMask::default() };
    assert_eq!(mask.position_quantization_type(), Err(SplineError::InvalidQuantizationType(3)));
    assert_eq!(mask.rotation_quantization_type(), Err(SplineError::InvalidQuantizationType(17)));
    assert_eq!(mask.scale_quantization_type(), Err(SplineError::InvalidQuantizationType(2)));
}

#[test]
fn sub_track_getters() {
    let mask = TransformMask { quantization_types: 0, position_types: 0x31, rotation_types: 0x10, scale_types: 0x44 };
    assert_eq!(mask.sub_track_type(TransformType::PosX), SplineTrackType::Static);
    assert_eq!(mask.sub_track_type(TransformType::PosY), SplineTrackType::Dynamic);
    assert_eq!(mask.sub_track_type(TransformType::PosZ), SplineTrackType::Identity);
    assert_eq!(mask.sub_track_type(TransformType::Rotation), SplineTrackType::Dynamic);
    assert_eq!(mask.sub_track_type(TransformType::ScaleX), SplineTrackType::Identity);
    assert_eq!(mask.sub_track_type(TransformType::ScaleZ), SplineTrackType::Static);
    let mask = TransformMask { rotation_types: 0x02, ..mask };
    assert_eq!(mask.sub_track_type(TransformType::Rotation), SplineTrackType::Static);
}

#[test]
fn quantization_setters_round_trip() {
    for start in [0u8, 0xff, 0x5a] {
        for kind in [QuantizationType::Bit8, QuantizationType::Bit16] {
            let mut mask = TransformMask { quantization_types: start, ..TransformMask::default() };
            let rotation = mask.rotation_quantization_type();
            mask.set_position_quantization_type(kind);
            assert_eq!(mask.position_quantization_type(), Ok(kind));
            assert_eq!(mask.rotation_quantization_type(), rotation);
            let position = mask.position_quantization_type();
            mask.set_scale_quantization_type(kind);
            assert_eq!(mask.scale_quantization_type(), Ok(kind));
            assert_eq!(mask.position_quantization_type(), position);
        }
        for kind in [
            QuantizationType::Bit32,
            QuantizationType::Bit40,
            QuantizationType::Bit48,
            QuantizationType::Bit24,
            QuantizationType::Bit16Quat,
            QuantizationType::Uncompressed,
        ] {
            let mut mask = TransformMask { quantization_types: start, ..TransformMask::default() };
            let scale = mask.scale_quantization_type();
            mask.set_rotation_quantization_type(kind);
            assert_eq!(mask.rotation_quantization_type(), Ok(kind));
            assert_eq!(mask.scale_quantization_type(), scale);
        }
    }
}

#[test]
fn rotation_quantization_setter_ignores_scalar_kinds() {
    let mut mask = TransformMask { quantization_types: 0x45, ..TransformMask::default() };
    mask.set_rotation_quantization_type(QuantizationType::Bit8);
    mask.set_rotation_quantization_type(QuantizationType::Bit16);
    assert_eq!(mask.quantization_types, 0x45);
}

#[test]
fn sub_track_setters_round_trip() {
    for start in [0u8, 0x77, 0x0f, 0xf0, 0xff] {
        for &transform in &ALL {
            for &kind in &KINDS {
                let mut mask = TransformMask { quantization_types: 3, position_types: start, rotation_types: start, scale_types: start };
                let before: Vec<_> = ALL.iter().map(|&t| mask.sub_track_type(t)).collect();
                mask.set_sub_track_type(transform, kind);
                for (i, &other) in ALL.iter().enumerate() {
                    if other == transform {
                        assert_eq!(mask.sub_track_type(other), kind);
                    } else {
                        assert_eq!(mask.sub_track_type(other), before[i]);
                    }
                }
                assert_eq!(mask.quantization_types, 3);
            }
        }
    }
}

#[test]
fn static_rotation_clears_the_spline_nibble() {
    let mut mask = TransformMask { rotation_types: 0xf0, ..TransformMask::default() };
    mask.set_sub_track_type(TransformType::Rotation, SplineTrackType::Static);
    assert_eq!(mask.rotation_types, 0x0f);
    assert_eq!(mask.sub_track_type(TransformType::Rotation), SplineTrackType::Static);
    mask.set_sub_track_type(TransformType::Rotation, SplineTrackType::Dynamic);
    assert_eq!(mask.rotation_types, 0xf0);
    mask.set_sub_track_type(TransformType::Rotation, SplineTrackType::Identity);
    assert_eq!(mask.rotation_types, 0);
}

#[test]
fn build_mask_writes_the_flag_bytes() {
    let mask = build_mask(
        [SplineTrackType::Dynamic, SplineTrackType::Static, SplineTrackType::Identity],
        SplineTrackType::Static,
        [SplineTrackType::Identity, SplineTrackType::Identity, SplineTrackType::Dynamic],
    );
    assert_eq!(mask.quantization_types, 0x45);
    assert_eq!(mask.position_types, 0x12);
    assert_eq!(mask.rotation_types, 0x0f);
    assert_eq!(mask.scale_types, 0x40);
}

#[test]
fn build_mask_describes_its_kinds() {
    let mask = build_mask(
        [SplineTrackType::Static, SplineTrackType::Dynamic, SplineTrackType::Identity],
        SplineTrackType::Dynamic,
        [SplineTrackType::Identity, SplineTrackType::Identity, SplineTrackType::Static],
    );
    assert_eq!(mask.quantization_types, 0x45);
    assert_eq!(mask.position_types, 0x21);
    assert_eq!(mask.rotation_types, 0xf0);
    assert_eq!(mask.scale_types, 0x04);
    assert_eq!(mask.rotation_quantization_type(), Ok(QuantizationType::Bit40));
}

#[test]
fn quantization_codes() {
    assert_eq!(QuantizationType::Bit8.code(), 0);
    assert_eq!(QuantizationType::Uncompressed.code(), 7);
}

#[test]
fn rotation_alignment() {
    assert_eq!(RotationQuantizationType::Polar32.rotation_align(), Some(4));
    assert_eq!(RotationQuantizationType::ThreeComp40.rotation_align(), Some(1));
    assert_eq!(RotationQuantizationType::ThreeComp48.rotation_align(), Some(2));
    assert_eq!(RotationQuantizationType::ThreeComp24.rotation_align(), None);
    assert_eq!(RotationQuantizationType::Straight16.rotation_align(), None);
    assert_eq!(RotationQuantizationType::Uncompressed.rotation_align(), Some(4));
    assert_ne!(ScalarQuantizationType::Bits8, ScalarQuantizationType::Bits16);
}

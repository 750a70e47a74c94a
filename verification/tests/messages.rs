use serde_spline::anim::{ShapeError, SkeletonError, SplineDataError};
use serde_spline::rig::convert::is_hkx_or_xml_file;
use serde_spline::spline::de::SplineError;
use serde_spline::spline::ser::align_to;

#[test]
fn spline_error_messages() {
    assert_eq!(SplineError::UnexpectedEof.message(), "unexpected end of spline data");
    assert_eq!(SplineError::InvalidQuantizationType(12).message(), "invalid quantization type: 12");
    assert_eq!(SplineError::InvalidDegree(0).message(), "invalid spline degree: 0");
    assert_eq!(SplineError::InvalidData("custom text").message(), "custom text");
    assert_eq!(SplineError::EmptySplineData.message(), "hkaSplineCompressedAnimation contains no spline data");
}

#[test]
fn shape_error_messages() {
    assert_eq!(
        ShapeError::FrameCountMismatch { expected: 120, actual: 7 }.message(),
        "animation declares 120 frames but contains 7"
    );
    assert_eq!(
        ShapeError::TransformCountMismatch { frame_index: 3, expected: 98, actual: 97 }.message(),
        "animation frame 3 contains 97 transforms but the skeleton requires 98"
    );
    assert_eq!(
        ShapeError::InvalidBoneIndex { track_index: 10, bone_index: 4096, bone_count: 99 }.message(),
        "transform track 10 refers to bone 4096, but the skeleton contains 99 bones"
    );
    assert_eq!(ShapeError::EmptyAnimation.message(), "animation contains no frames or transform tracks");
}

#[test]
fn spline_data_and_skeleton_error_messages() {
    assert_eq!(
        SplineDataError::OffsetCountMismatch { offsets: 2, blocks: 1 }.message(),
        "block offset count does not match block count: offsets=2, blocks=1"
    );
    assert_eq!(
        SkeletonError::ParentCountMismatch { bones: 18446744073709551615, parents: 0 }.message(),
        "hkaSkeleton contains 18446744073709551615 bones but 0 parent indices"
    );
    assert_eq!(
        SkeletonError::ReferencePoseCountMismatch { bones: 5, poses: 50 }.message(),
        "hkaSkeleton contains 5 bones but 50 reference-pose transforms"
    );
}

#[test]
fn animation_inputs_are_hkx_or_xml() {
    assert!(is_hkx_or_xml_file("anims/idle.hkx"));
    assert!(is_hkx_or_xml_file("anims/idle.XML"));
    assert!(!is_hkx_or_xml_file("anims/idle.kf"));
    assert!(!is_hkx_or_xml_file("anims/xml"));
}

#[test]
fn align_to_pads_with_zeros_and_ignores_zero_or_one() {
    let mut v = vec![1u8, 2, 3, 4, 5];
    align_to(&mut v, 4);
    assert_eq!(v, [1, 2, 3, 4, 5, 0, 0, 0]);
    align_to(&mut v, 4);
    assert_eq!(v.len(), 8);
    let mut w = vec![9u8, 9, 9];
    align_to(&mut w, 0);
    align_to(&mut w, 1);
    assert_eq!(w, [9, 9, 9]);
}

use serde_spline::anim::{
    check_single_block, check_skeleton, frame_blocks, group_annotations, group_annotations_into, header_block_count,
    mask_and_quantization_size, track_bones, validate_animation, validate_frames, validate_track_mapping, ShapeError,
    SkeletonError, SplineDataError,
};
use serde_spline::spline::decompose::MAX_FRAMES_PER_BLOCK;
use serde_spline::spline::skeleton::{apply_frame, transpose_tracks};

#[test]
fn frames_are_checked_in_order() {
    assert_eq!(validate_frames(2, 3, &[2, 2, 2]), Ok(()));
    assert_eq!(validate_frames(0, 3, &[2, 2, 2]), Err(ShapeError::EmptyAnimation));
    assert_eq!(validate_frames(2, 0, &[]), Err(ShapeError::EmptyAnimation));
    assert_eq!(validate_frames(2, 3, &[2, 2]), Err(ShapeError::FrameCountMismatch { expected: 3, actual: 2 }));
    assert_eq!(
        validate_frames(2, 3, &[2, 1, 0]),
        Err(ShapeError::TransformCountMismatch { frame_index: 1, expected: 2, actual: 1 })
    );
}

#[test]
fn animation_is_checked_before_kf_encoding() {
    assert_eq!(validate_animation(3, 2, 3, &[3, 3]), Ok(()));
    assert_eq!(validate_animation(3, 2, 3, &[3]), Err(ShapeError::FrameCountMismatch { expected: 2, actual: 1 }));
    assert_eq!(validate_animation(3, 2, 4, &[3, 3]), Err(ShapeError::InvalidTrackCount { expected: 3, actual: 4 }));
    assert_eq!(
        validate_animation(3, 2, 3, &[3, 4]),
        Err(ShapeError::TransformCountMismatch { frame_index: 1, expected: 3, actual: 4 })
    );
}

#[test]
fn track_mapping_is_checked() {
    assert_eq!(validate_track_mapping(&[], 3, 3), Ok(()));
    assert_eq!(validate_track_mapping(&[], 4, 3), Err(ShapeError::InvalidTrackCount { expected: 3, actual: 4 }));
    assert_eq!(validate_track_mapping(&[0, 1], 3, 3), Err(ShapeError::InvalidTrackCount { expected: 3, actual: 2 }));
    assert_eq!(validate_track_mapping(&[2, 0, 9, 7], 2, 3), Ok(()));
    assert_eq!(
        validate_track_mapping(&[2, 5, 9], 3, 3),
        Err(ShapeError::InvalidBoneIndex { track_index: 1, bone_index: 5, bone_count: 3 })
    );
}

#[test]
fn frames_split_into_blocks() {
    assert_eq!(frame_blocks(600, MAX_FRAMES_PER_BLOCK), vec![(0, 256), (256, 512), (512, 600)]);
    assert_eq!(frame_blocks(256, MAX_FRAMES_PER_BLOCK), vec![(0, 256)]);
    assert_eq!(frame_blocks(257, 256), vec![(0, 256), (256, 257)]);
    assert_eq!(frame_blocks(1, 256), vec![(0, 1)]);
    assert!(frame_blocks(0, 256).is_empty());
}

#[test]
fn annotations_group_by_track() {
    assert!(group_annotations(&[]).is_empty());
    assert_eq!(group_annotations(&[2, 0, 2, 1, 0]), vec![vec![1, 4], vec![3], vec![0, 2]]);
    assert_eq!(group_annotations(&[3]), vec![vec![], vec![], vec![], vec![0]]);
}

#[test]
fn tracks_are_placed_on_bones() {
    let reference = [10, 11, 12, 13];
    assert_eq!(apply_frame(&reference, &[1, 2], None, 5), vec![1, 2, 12, 13]);
    assert_eq!(apply_frame(&reference, &[1, 2, 3], None, 1), vec![1, 11, 12, 13]);
    assert_eq!(apply_frame(&reference, &[1, 2, 3], Some(&[3, 9, 3]), 3), vec![10, 11, 12, 3]);
    assert_eq!(apply_frame(&reference, &[1, 2, 3], Some(&[2]), 3), vec![10, 2, 3, 13]);
}

#[test]
fn tracks_transpose_to_frames() {
    let tracks = vec![vec![1, 2, 3], vec![4, 5, 6]];
    assert_eq!(transpose_tracks(&tracks, 2), vec![vec![1, 4], vec![2, 5]]);
    assert!(transpose_tracks::<i32>(&[], 3).is_empty());
}

#[test]
fn annotations_group_into_fixed_tracks() {
    assert_eq!(group_annotations_into(&[2, 0, 5, 0], 3), vec![vec![1, 3], vec![], vec![0]]);
    assert_eq!(group_annotations_into(&[], 2), vec![Vec::<usize>::new(), vec![]]);
    assert!(group_annotations_into(&[0], 0).is_empty());
}

#[test]
fn tracks_map_to_bones() {
    assert_eq!(track_bones(&[], 3, 3), Ok(vec![0, 1, 2]));
    assert_eq!(track_bones(&[2, 0], 3, 3), Ok(vec![2, 0, 2]));
    assert_eq!(track_bones(&[], 3, 2), Err(ShapeError::InvalidBoneIndex { track_index: 2, bone_index: 2, bone_count: 2 }));
    assert_eq!(track_bones(&[0, 7, 9], 3, 5), Err(ShapeError::InvalidBoneIndex { track_index: 1, bone_index: 7, bone_count: 5 }));
}

#[test]
fn single_block_checks() {
    assert_eq!(check_single_block(1, 10, 1), Ok(()));
    assert_eq!(check_single_block(0, 10, 1), Err(SplineDataError::EmptySplineData));
    assert_eq!(check_single_block(2, 10, 2), Err(SplineDataError::MultipleSplineBlocks { count: 2 }));
    assert_eq!(check_single_block(1, 0, 1), Err(SplineDataError::EmptySplineData));
    assert_eq!(check_single_block(1, 10, 0), Err(SplineDataError::OffsetCountMismatch { offsets: 0, blocks: 1 }));
}

#[test]
fn skeleton_checks() {
    assert_eq!(check_skeleton(3, 3, 3), Ok(()));
    assert_eq!(check_skeleton(3, 2, 3), Err(SkeletonError::ParentCountMismatch { bones: 3, parents: 2 }));
    assert_eq!(check_skeleton(3, 3, 4), Err(SkeletonError::ReferencePoseCountMismatch { bones: 3, poses: 4 }));
}

#[test]
fn header_counts() {
    assert_eq!(header_block_count(0), 1);
    assert_eq!(header_block_count(2), 1);
    assert_eq!(header_block_count(256), 1);
    assert_eq!(header_block_count(257), 2);
    assert_eq!(header_block_count(512), 3);
    assert_eq!(mask_and_quantization_size(5), 20);
}

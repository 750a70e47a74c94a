//! Shape checks of animations: frame, track and bone counts, and the
//! track-to-bone mapping.

use vstd::prelude::*;

use crate::text::{decimal, push_decimal, push_text};

verus! {

/// Why an animation's shape does not fit its skeleton.
#[derive(Debug, Clone, Copy, PartialEq, Eq, Structural)]
pub enum ShapeError {
    /// The animation has no frame or the skeleton no bone.
    EmptyAnimation,
    /// The declared frame count differs from the frames present.
    FrameCountMismatch { expected: usize, actual: usize },
    /// A frame does not hold one transform per bone.
    TransformCountMismatch { frame_index: usize, expected: usize, actual: usize },
    /// There are more tracks than allowed.
    InvalidTrackCount { expected: usize, actual: usize },
    /// A track is mapped to a bone that does not exist.
    InvalidBoneIndex { track_index: usize, bone_index: usize, bone_count: usize },
}

/// The message text of a shape error.
pub open spec fn shape_error_message(e: ShapeError) -> Seq<char> {
    match e {
        ShapeError::EmptyAnimation => "animation contains no frames or transform tracks"@,
        ShapeError::FrameCountMismatch { expected, actual } => "animation declares "@ + decimal(expected as nat)
            + " frames but contains "@ + decimal(actual as nat),
        ShapeError::TransformCountMismatch { frame_index, expected, actual } => "animation frame "@
            + decimal(frame_index as nat) + " contains "@ + decimal(actual as nat)
            + " transforms but the skeleton requires "@ + decimal(expected as nat),
        ShapeError::InvalidTrackCount { .. } => "The number of transform tracks declared by the animation does not match the data required to construct the intermediate representation."@,
        ShapeError::InvalidBoneIndex { track_index, bone_index, bone_count } => "transform track "@
            + decimal(track_index as nat) + " refers to bone "@ + decimal(bone_index as nat)
            + ", but the skeleton contains "@ + decimal(bone_count as nat) + " bones"@,
    }
}

impl ShapeError {
    /// The message text of the error.
    pub fn message(&self) -> (r: String)
        ensures
            r@ == shape_error_message(*self),
    {
        let mut s = String::new();
        match self {
            ShapeError::EmptyAnimation => push_text(&mut s, "animation contains no frames or transform tracks"),
            ShapeError::FrameCountMismatch { expected, actual } => {
                push_text(&mut s, "animation declares ");
                push_decimal(&mut s, *expected as u64);
                push_text(&mut s, " frames but contains ");
                push_decimal(&mut s, *actual as u64);
            },
            ShapeError::TransformCountMismatch { frame_index, expected, actual } => {
                push_text(&mut s, "animation frame ");
                push_decimal(&mut s, *frame_index as u64);
                push_text(&mut s, " contains ");
                push_decimal(&mut s, *actual as u64);
                push_text(&mut s, " transforms but the skeleton requires ");
                push_decimal(&mut s, *expected as u64);
            },
            ShapeError::InvalidTrackCount { .. } => push_text(&mut s, "The number of transform tracks declared by the animation does not match the data required to construct the intermediate representation."),
            ShapeError::InvalidBoneIndex { track_index, bone_index, bone_count } => {
                push_text(&mut s, "transform track ");
                push_decimal(&mut s, *track_index as u64);
                push_text(&mut s, " refers to bone ");
                push_decimal(&mut s, *bone_index as u64);
                push_text(&mut s, ", but the skeleton contains ");
                push_decimal(&mut s, *bone_count as u64);
                push_text(&mut s, " bones");
            },
        }
        s
    }
}

/// The first frame whose transform count is not `bone_count`, if any.
pub open spec fn first_bad_frame(counts: Seq<usize>, bone_count: usize) -> Option<int> {
    if exists|i: int| 0 <= i < counts.len() && counts[i] != bone_count {
        Some(choose|i: int| 0 <= i < counts.len() && counts[i] != bone_count && forall|j: int| 0 <= j < i ==> counts[j] == bone_count)
    } else {
        None
    }
}

/// Finds the first frame whose transform count is not `bone_count`.
fn find_bad_frame(counts: &[usize], bone_count: usize) -> (r: Option<usize>)
    ensures
        match r {
            Some(i) => i < counts@.len() && counts@[i as int] != bone_count && forall|j: int| 0 <= j < i ==> counts@[j] == bone_count,
            None => forall|j: int| 0 <= j < counts@.len() ==> counts@[j] == bone_count,
        },
        r == match first_bad_frame(counts@, bone_count) { Some(i) => Some(i as usize), None => None::<usize> },
{
    let mut i: usize = 0;
    while i < counts.len()
        invariant
            i <= counts@.len(),
            forall|j: int| 0 <= j < i ==> counts@[j] == bone_count,
        decreases counts@.len() - i,
    {
        if counts[i] != bone_count {
            proof {
                let c = choose|k: int| 0 <= k < counts@.len() && counts@[k] != bone_count && forall|j: int| 0 <= j < k ==> counts@[j] == bone_count;
                assert(0 <= c < counts@.len() && counts@[c] != bone_count && forall|j: int| 0 <= j < c ==> counts@[j] == bone_count) by {
                    assert(counts@[i as int] != bone_count && forall|j: int| 0 <= j < i ==> counts@[j] == bone_count);
                }
                if c < i {
                    assert(counts@[c] == bone_count);
                }
                if c > i {
                    assert(counts@[i as int] == bone_count);
                }
            }
            return Some(i);
        }
        i = i + 1;
    }
    None
}

/// Checks an animation before it is split into spline blocks: it must have
/// frames and bones, declare as many frames as it holds, and hold one
/// transform per bone in every frame (the first frame that does not is
/// reported).
pub fn validate_frames(bone_count: usize, num_frames: usize, transform_counts: &[usize]) -> (r: Result<(), ShapeError>)
    ensures
        r == (if num_frames == 0 || bone_count == 0 {
            Err(ShapeError::EmptyAnimation)
        } else if transform_counts@.len() != num_frames {
            Err(ShapeError::FrameCountMismatch { expected: num_frames, actual: transform_counts@.len() as usize })
        } else {
            match first_bad_frame(transform_counts@, bone_count) {
                Some(i) => Err(ShapeError::TransformCountMismatch { frame_index: i as usize, expected: bone_count, actual: transform_counts@[i] }),
                None => Ok(()),
            }
        }),
{
    if num_frames == 0 || bone_count == 0 {
        return Err(ShapeError::EmptyAnimation);
    }
    if transform_counts.len() != num_frames {
        return Err(ShapeError::FrameCountMismatch { expected: num_frames, actual: transform_counts.len() });
    }
    match find_bad_frame(transform_counts, bone_count) {
        Some(i) => Err(ShapeError::TransformCountMismatch { frame_index: i, expected: bone_count, actual: transform_counts[i] }),
        None => Ok(()),
    }
}

/// Checks an animation before KF encoding: it must declare as many frames
/// as it holds, have no more tracks than the skeleton has bones, and hold
/// one transform per bone in every frame.
pub fn validate_animation(bone_count: usize, num_frames: usize, num_tracks: usize, transform_counts: &[usize]) -> (r: Result<(), ShapeError>)
    ensures
        r == (if num_frames != transform_counts@.len() {
            Err(ShapeError::FrameCountMismatch { expected: num_frames, actual: transform_counts@.len() as usize })
        } else if num_tracks > bone_count {
            Err(ShapeError::InvalidTrackCount { expected: bone_count, actual: num_tracks })
        } else {
            match first_bad_frame(transform_counts@, bone_count) {
                Some(i) => Err(ShapeError::TransformCountMismatch { frame_index: i as usize, expected: bone_count, actual: transform_counts@[i] }),
                None => Ok(()),
            }
        }),
{
    if num_frames != transform_counts.len() {
        return Err(ShapeError::FrameCountMismatch { expected: num_frames, actual: transform_counts.len() });
    }
    if num_tracks > bone_count {
        return Err(ShapeError::InvalidTrackCount { expected: bone_count, actual: num_tracks });
    }
    match find_bad_frame(transform_counts, bone_count) {
        Some(i) => Err(ShapeError::TransformCountMismatch { frame_index: i, expected: bone_count, actual: transform_counts[i] }),
        None => Ok(()),
    }
}

/// The first of the first `n` tracks mapped to a bone outside the skeleton.
pub open spec fn first_bad_bone(map: Seq<usize>, n: int, bone_count: usize) -> Option<int> {
    if exists|i: int| 0 <= i < n && map[i] >= bone_count {
        Some(choose|i: int| 0 <= i < n && map[i] >= bone_count && forall|j: int| 0 <= j < i ==> map[j] < bone_count)
    } else {
        None
    }
}

/// Checks the track-to-bone mapping of a decoded animation: without a map
/// the tracks must not outnumber the bones; with one, it must cover every
/// track and map each to an existing bone (the first that does not is
/// reported).
pub fn validate_track_mapping(track_to_bone: &[usize], num_tracks: usize, bone_count: usize) -> (r: Result<(), ShapeError>)
    ensures
        r == (if track_to_bone@.len() == 0 {
            if num_tracks > bone_count {
                Err(ShapeError::InvalidTrackCount { expected: bone_count, actual: num_tracks })
            } else {
                Ok(())
            }
        } else if track_to_bone@.len() < num_tracks {
            Err(ShapeError::InvalidTrackCount { expected: num_tracks, actual: track_to_bone@.len() as usize })
        } else {
            match first_bad_bone(track_to_bone@, num_tracks as int, bone_count) {
                Some(i) => Err(ShapeError::InvalidBoneIndex { track_index: i as usize, bone_index: track_to_bone@[i], bone_count }),
                None => Ok(()),
            }
        }),
{
    if track_to_bone.len() == 0 {
        if num_tracks > bone_count {
            return Err(ShapeError::InvalidTrackCount { expected: bone_count, actual: num_tracks });
        }
        return Ok(());
    }
    if track_to_bone.len() < num_tracks {
        return Err(ShapeError::InvalidTrackCount { expected: num_tracks, actual: track_to_bone.len() });
    }
    let mut i: usize = 0;
    while i < num_tracks
        invariant
            num_tracks <= track_to_bone@.len(),
            i <= num_tracks,
            forall|j: int| 0 <= j < i ==> track_to_bone@[j] < bone_count,
        decreases num_tracks - i,
    {
        if track_to_bone[i] >= bone_count {
            proof {
                let m = track_to_bone@;
                let c = choose|k: int| 0 <= k < num_tracks && m[k] >= bone_count && forall|j: int| 0 <= j < k ==> m[j] < bone_count;
                assert(0 <= c < num_tracks && m[c] >= bone_count && forall|j: int| 0 <= j < c ==> m[j] < bone_count) by {
                    assert(m[i as int] >= bone_count && forall|j: int| 0 <= j < i ==> m[j] < bone_count);
                }
                if c < i {
                    assert(m[c] < bone_count);
                }
                if c > i {
                    assert(m[i as int] < bone_count);
                }
            }
            return Err(ShapeError::InvalidBoneIndex { track_index: i, bone_index: track_to_bone[i], bone_count });
        }
        i = i + 1;
    }
    Ok(())
}

/// Splits `frame_count` frames into consecutive blocks of `per_block`
/// frames, the last one possibly shorter.
pub fn frame_blocks(frame_count: usize, per_block: usize) -> (r: Vec<(usize, usize)>)
    requires
        per_block > 0,
    ensures
        forall|i: int| 0 <= i < r@.len() ==> (#[trigger] r@[i]).0 == i * per_block,
        forall|i: int| 0 <= i < r@.len() ==> (#[trigger] r@[i]).1 == (if (i + 1) * per_block < frame_count { (i + 1) * per_block } else { frame_count as int }),
        forall|i: int| 0 <= i < r@.len() ==> (#[trigger] r@[i]).0 < r@[i].1,
        r@.len() * per_block >= frame_count,
        r@.len() == 0 || (r@.len() - 1) * per_block < frame_count,
{
    let mut blocks: Vec<(usize, usize)> = Vec::new();
    let mut start: usize = 0;
    while start < frame_count
        invariant
            per_block > 0,
            start == blocks@.len() * per_block,
            start <= frame_count || (blocks@.len() > 0 && (blocks@.len() - 1) * per_block < frame_count),
            blocks@.len() == 0 || (blocks@.len() - 1) * per_block < frame_count,
            forall|i: int| 0 <= i < blocks@.len() ==> (#[trigger] blocks@[i]).0 == i * per_block,
            forall|i: int| 0 <= i < blocks@.len() ==> (#[trigger] blocks@[i]).1 == (if (i + 1) * per_block < frame_count { (i + 1) * per_block } else { frame_count as int }),
            forall|i: int| 0 <= i < blocks@.len() ==> (#[trigger] blocks@[i]).0 < blocks@[i].1,
        decreases frame_count - start,
    {
        let end = if frame_count - start > per_block { start + per_block } else { frame_count };
        let ghost k = blocks@.len();
        assert((k + 1) * per_block == k * per_block + per_block) by (nonlinear_arith);
        blocks.push((start, end));
        if end == frame_count {
            assert(blocks@.len() * per_block >= frame_count) by (nonlinear_arith)
                requires
                    blocks@.len() == k + 1,
                    (k + 1) * per_block == k * per_block + per_block,
                    k * per_block == start,
                    frame_count - start <= per_block,
            ;
            return blocks;
        }
        start = end;
    }
    blocks
}

/// Groups annotations by track: one list per track from 0 to the highest
/// track index named, each listing the positions of its annotations in
/// order. Without annotations there are no tracks.
pub fn group_annotations(track_indices: &[u32]) -> (r: Vec<Vec<usize>>)
    requires
        forall|i: int| 0 <= i < track_indices@.len() ==> track_indices@[i] < usize::MAX,
    ensures
        track_indices@.len() == 0 ==> r@.len() == 0,
        forall|i: int| 0 <= i < track_indices@.len() ==> track_indices@[i] < r@.len(),
        track_indices@.len() > 0 ==> exists|i: int| 0 <= i < track_indices@.len() && track_indices@[i] + 1 == r@.len(),
        forall|t: int, k: int| 0 <= t < r@.len() && 0 <= k < r@[t]@.len() ==> (#[trigger] r@[t]@[k]) < track_indices@.len()
            && track_indices@[r@[t]@[k] as int] == t,
        forall|t: int, j: int, k: int| 0 <= t < r@.len() && 0 <= j < k < r@[t]@.len() ==> #[trigger] r@[t]@[j] < #[trigger] r@[t]@[k],
        forall|i: int| 0 <= i < track_indices@.len() ==> r@[track_indices@[i] as int]@.contains(i as usize),
{
    let mut groups: Vec<Vec<usize>> = Vec::new();
    if track_indices.len() == 0 {
        return groups;
    }
    let mut max: u32 = 0;
    let mut i: usize = 0;
    let ghost mut at: int = 0;
    while i < track_indices.len()
        invariant
            i <= track_indices@.len(),
            track_indices@.len() > 0,
            forall|j: int| 0 <= j < i ==> track_indices@[j] <= max,
            i > 0 ==> 0 <= at < i && track_indices@[at] == max,
            forall|j: int| 0 <= j < track_indices@.len() ==> track_indices@[j] < usize::MAX,
        decreases track_indices@.len() - i,
    {
        if i == 0 || track_indices[i] > max {
            max = track_indices[i];
            proof { at = i as int; }
        }
        i = i + 1;
    }
    assert(max < usize::MAX) by {
        assert(track_indices@[at] == max);
    }
    let count = max as usize + 1;
    while groups.len() < count
        invariant
            groups@.len() <= count,
            count == max + 1,
            forall|u: int| 0 <= u < groups@.len() ==> (#[trigger] groups@[u])@.len() == 0,
        decreases count - groups@.len(),
    {
        groups.push(Vec::new());
    }
    assert(groups@.len() == max + 1);
    let mut k: usize = 0;
    while k < track_indices.len()
        invariant
            k <= track_indices@.len(),
            groups@.len() == max + 1,
            forall|j: int| 0 <= j < track_indices@.len() ==> track_indices@[j] <= max,
            forall|u: int, m: int| 0 <= u < groups@.len() && 0 <= m < groups@[u]@.len() ==> (#[trigger] groups@[u]@[m]) < k
                && track_indices@[groups@[u]@[m] as int] == u,
            forall|u: int, j: int, m: int| 0 <= u < groups@.len() && 0 <= j < m < groups@[u]@.len() ==> #[trigger] groups@[u]@[j] < #[trigger] groups@[u]@[m],
            forall|j: int| 0 <= j < k ==> groups@[track_indices@[j] as int]@.contains(j as usize),
        decreases track_indices@.len() - k,
    {
        let track = track_indices[k] as usize;
        let mut group = groups[track].clone();
        assert(group@ == groups@[track as int]@);
        group.push(k);
        let ghost before = groups@;
        groups.set(track, group);
        proof {
            assert forall|j: int| 0 <= j < k + 1 implies groups@[track_indices@[j] as int]@.contains(j as usize) by {
                if j < k {
                    let u = track_indices@[j] as int;
                    assert(before[u]@.contains(j as usize));
                    if u == track as int {
                        let w = choose|w: int| 0 <= w < before[u]@.len() && before[u]@[w] == j as usize;
                        assert(groups@[u]@[w] == j as usize);
                    }
                } else {
                    assert(groups@[track as int]@[groups@[track as int]@.len() - 1] == k);
                }
            }
        }
        k = k + 1;
    }
    groups
}

/// Groups annotations into a fixed number of tracks: one list per track,
/// each listing the positions of its annotations in order; annotations of
/// tracks outside the range are left out.
pub fn group_annotations_into(track_indices: &[u32], track_count: usize) -> (r: Vec<Vec<usize>>)
    ensures
        r@.len() == track_count,
        forall|t: int, k: int| 0 <= t < r@.len() && 0 <= k < r@[t]@.len() ==> (#[trigger] r@[t]@[k]) < track_indices@.len()
            && track_indices@[r@[t]@[k] as int] == t,
        forall|t: int, j: int, k: int| 0 <= t < r@.len() && 0 <= j < k < r@[t]@.len() ==> #[trigger] r@[t]@[j] < #[trigger] r@[t]@[k],
        forall|i: int| 0 <= i < track_indices@.len() && track_indices@[i] < track_count ==> r@[track_indices@[i] as int]@.contains(i as usize),
{
    let mut groups: Vec<Vec<usize>> = Vec::new();
    while groups.len() < track_count
        invariant
            groups@.len() <= track_count,
            forall|u: int| 0 <= u < groups@.len() ==> (#[trigger] groups@[u])@.len() == 0,
        decreases track_count - groups@.len(),
    {
        groups.push(Vec::new());
    }
    let mut k: usize = 0;
    while k < track_indices.len()
        invariant
            k <= track_indices@.len(),
            groups@.len() == track_count,
            forall|u: int, m: int| 0 <= u < groups@.len() && 0 <= m < groups@[u]@.len() ==> (#[trigger] groups@[u]@[m]) < k
                && track_indices@[groups@[u]@[m] as int] == u,
            forall|u: int, j: int, m: int| 0 <= u < groups@.len() && 0 <= j < m < groups@[u]@.len() ==> #[trigger] groups@[u]@[j] < #[trigger] groups@[u]@[m],
            forall|j: int| 0 <= j < k && track_indices@[j] < track_count ==> groups@[track_indices@[j] as int]@.contains(j as usize),
        decreases track_indices@.len() - k,
    {
        let track = track_indices[k] as usize;
        if track < groups.len() {
            let mut group = groups[track].clone();
            assert(group@ == groups@[track as int]@);
            group.push(k);
            let ghost before = groups@;
            groups.set(track, group);
            proof {
                assert forall|j: int| 0 <= j < k + 1 && track_indices@[j] < track_count implies groups@[track_indices@[j] as int]@.contains(j as usize) by {
                    if j < k {
                        let u = track_indices@[j] as int;
                        assert(before[u]@.contains(j as usize));
                        if u == track as int {
                            let w = choose|w: int| 0 <= w < before[u]@.len() && before[u]@[w] == j as usize;
                            assert(groups@[u]@[w] == j as usize);
                        }
                    } else {
                        assert(groups@[track as int]@[groups@[track as int]@.len() - 1] == k);
                    }
                }
            }
        }
        k = k + 1;
    }
    groups
}

/// The bone a track is mapped to: its entry in the map, or its own index
/// past the map's end.
pub open spec fn mapped_bone(map: Seq<usize>, t: int) -> int {
    if t < map.len() {
        map[t] as int
    } else {
        t
    }
}

/// The bone of each of the first `num_tracks` tracks: its entry in the
/// track-to-bone map, or its own index past the map's end; the first track
/// whose bone is outside the skeleton is an error.
pub fn track_bones(track_to_bone: &[usize], num_tracks: usize, bone_count: usize) -> (r: Result<Vec<usize>, ShapeError>)
    ensures
        match r {
            Ok(bones) => bones@.len() == num_tracks && forall|t: int| 0 <= t < num_tracks ==> #[trigger] bones@[t] == mapped_bone(track_to_bone@, t) && bones@[t] < bone_count,
            Err(e) => exists|t: int| 0 <= t < num_tracks && #[trigger] mapped_bone(track_to_bone@, t) >= bone_count
                && e == ShapeError::InvalidBoneIndex { track_index: t as usize, bone_index: mapped_bone(track_to_bone@, t) as usize, bone_count }
                && forall|u: int| 0 <= u < t ==> mapped_bone(track_to_bone@, u) < bone_count,
        },
{
    let mut bones: Vec<usize> = Vec::new();
    let mut t: usize = 0;
    while t < num_tracks
        invariant
            t <= num_tracks,
            bones@.len() == t,
            forall|u: int| 0 <= u < t ==> #[trigger] bones@[u] == mapped_bone(track_to_bone@, u) && bones@[u] < bone_count,
        decreases num_tracks - t,
    {
        let bone = if t < track_to_bone.len() { track_to_bone[t] } else { t };
        if bone >= bone_count {
            proof {
                assert forall|u: int| 0 <= u < t implies mapped_bone(track_to_bone@, u) < bone_count by {
                    assert(bones@[u] < bone_count);
                }
                assert(mapped_bone(track_to_bone@, t as int) == bone as int);
            }
            return Err(ShapeError::InvalidBoneIndex { track_index: t, bone_index: bone, bone_count });
        }
        bones.push(bone);
        t = t + 1;
    }
    Ok(bones)
}

/// Why an animation's spline data is unusable.
#[derive(Debug, Clone, Copy, PartialEq, Eq, Structural)]
pub enum SplineDataError {
    /// There is no block or no data.
    EmptySplineData,
    /// More than one block is declared.
    MultipleSplineBlocks { count: u32 },
    /// The block offsets do not match the declared block count.
    OffsetCountMismatch { offsets: usize, blocks: u32 },
}

/// The message text of a spline-data error.
pub open spec fn spline_data_error_message(e: SplineDataError) -> Seq<char> {
    match e {
        SplineDataError::EmptySplineData => "hkaSplineCompressedAnimation contains no spline data"@,
        SplineDataError::MultipleSplineBlocks { .. } => "The animation contains multiple spline blocks, which are not supported by the current conversion implementation."@,
        SplineDataError::OffsetCountMismatch { offsets, blocks } => "block offset count does not match block count: offsets="@
            + decimal(offsets as nat) + ", blocks="@ + decimal(blocks as nat),
    }
}

impl SplineDataError {
    /// The message text of the error.
    pub fn message(&self) -> (r: String)
        ensures
            r@ == spline_data_error_message(*self),
    {
        let mut s = String::new();
        match self {
            SplineDataError::EmptySplineData => push_text(&mut s, "hkaSplineCompressedAnimation contains no spline data"),
            SplineDataError::MultipleSplineBlocks { .. } => push_text(&mut s, "The animation contains multiple spline blocks, which are not supported by the current conversion implementation."),
            SplineDataError::OffsetCountMismatch { offsets, blocks } => {
                push_text(&mut s, "block offset count does not match block count: offsets=");
                push_decimal(&mut s, *offsets as u64);
                push_text(&mut s, ", blocks=");
                push_decimal(&mut s, *blocks as u64);
            },
        }
        s
    }
}

/// Checks that an animation holds exactly one block of spline data: a
/// declared block count of one, some data, and one block offset.
pub fn check_single_block(num_blocks: u32, data_len: usize, offsets_len: usize) -> (r: Result<(), SplineDataError>)
    ensures
        r == (if num_blocks == 0 {
            Err(SplineDataError::EmptySplineData)
        } else if num_blocks != 1 {
            Err(SplineDataError::MultipleSplineBlocks { count: num_blocks })
        } else if data_len == 0 {
            Err(SplineDataError::EmptySplineData)
        } else if offsets_len != 1 {
            Err(SplineDataError::OffsetCountMismatch { offsets: offsets_len, blocks: num_blocks })
        } else {
            Ok(())
        }),
{
    if num_blocks == 0 {
        return Err(SplineDataError::EmptySplineData);
    }
    if num_blocks != 1 {
        return Err(SplineDataError::MultipleSplineBlocks { count: num_blocks });
    }
    if data_len == 0 {
        return Err(SplineDataError::EmptySplineData);
    }
    if offsets_len != 1 {
        return Err(SplineDataError::OffsetCountMismatch { offsets: offsets_len, blocks: num_blocks });
    }
    Ok(())
}

/// Why a skeleton is inconsistent.
#[derive(Debug, Clone, Copy, PartialEq, Eq, Structural)]
pub enum SkeletonError {
    /// Not one parent index per bone.
    ParentCountMismatch { bones: usize, parents: usize },
    /// Not one reference-pose transform per bone.
    ReferencePoseCountMismatch { bones: usize, poses: usize },
}

/// The message text of a skeleton error.
pub open spec fn skeleton_error_message(e: SkeletonError) -> Seq<char> {
    match e {
        SkeletonError::ParentCountMismatch { bones, parents } => "hkaSkeleton contains "@ + decimal(bones as nat)
            + " bones but "@ + decimal(parents as nat) + " parent indices"@,
        SkeletonError::ReferencePoseCountMismatch { bones, poses } => "hkaSkeleton contains "@ + decimal(bones as nat)
            + " bones but "@ + decimal(poses as nat) + " reference-pose transforms"@,
    }
}

impl SkeletonError {
    /// The message text of the error.
    pub fn message(&self) -> (r: String)
        ensures
            r@ == skeleton_error_message(*self),
    {
        let mut s = String::new();
        let (bones, count, tail) = match self {
            SkeletonError::ParentCountMismatch { bones, parents } => (*bones, *parents, " parent indices"),
            SkeletonError::ReferencePoseCountMismatch { bones, poses } => (*bones, *poses, " reference-pose transforms"),
        };
        push_text(&mut s, "hkaSkeleton contains ");
        push_decimal(&mut s, bones as u64);
        push_text(&mut s, " bones but ");
        push_decimal(&mut s, count as u64);
        push_text(&mut s, tail);
        s
    }
}

/// Checks that a skeleton has one parent index and one reference pose per
/// bone.
pub fn check_skeleton(bones: usize, parents: usize, poses: usize) -> (r: Result<(), SkeletonError>)
    ensures
        r == (if parents != bones {
            Err(SkeletonError::ParentCountMismatch { bones, parents })
        } else if poses != bones {
            Err(SkeletonError::ReferencePoseCountMismatch { bones, poses })
        } else {
            Ok(())
        }),
{
    if parents != bones {
        return Err(SkeletonError::ParentCountMismatch { bones, parents });
    }
    if poses != bones {
        return Err(SkeletonError::ReferencePoseCountMismatch { bones, poses });
    }
    Ok(())
}

/// The block count written in an encoded animation's header: one per 255
/// frames after the first two, and at least one.
pub fn header_block_count(num_frames: u32) -> (r: u32)
    requires
        num_frames + 253 <= u32::MAX,
    ensures
        r == (if (num_frames + 253) / 255 >= 1 { (num_frames + 253) / 255 } else { 1 }),
{
    let n = (num_frames + 253) / 255;
    if n >= 1 { n } else { 1 }
}

/// The size of the masks in an encoded animation's header: four bytes per
/// transform track.
pub fn mask_and_quantization_size(num_tracks: u32) -> (r: i32)
    requires
        num_tracks * 4 <= i32::MAX,
    ensures
        r == num_tracks * 4,
{
    (num_tracks as i32) * 4
}

} // verus!

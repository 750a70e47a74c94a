//! Placing decoded tracks on a skeleton's bones.

use vstd::prelude::*;

verus! {

/// The bone a track drives: its entry in the track-to-bone map, or its own
/// index when there is no map or no entry.
pub open spec fn bone_of(track_to_bone: Option<Seq<usize>>, track: int) -> int {
    match track_to_bone {
        Some(m) => if 0 <= track < m.len() { m[track] as int } else { track },
        None => track,
    }
}

/// The local pose after the first `k` tracks have been applied to the
/// reference pose in order; a track whose bone does not exist is ignored,
/// and a later track overrides an earlier one on the same bone.
pub open spec fn apply_tracks<T>(pose: Seq<T>, decoded: Seq<T>, track_to_bone: Option<Seq<usize>>, k: nat) -> Seq<T>
    decreases k,
{
    if k == 0 {
        pose
    } else {
        let prev = apply_tracks(pose, decoded, track_to_bone, (k - 1) as nat);
        let bone = bone_of(track_to_bone, k - 1);
        if 0 <= bone < prev.len() {
            prev.update(bone, decoded[k - 1])
        } else {
            prev
        }
    }
}

/// The view of an optional slice of indices.
pub open spec fn map_view(track_to_bone: Option<&[usize]>) -> Option<Seq<usize>> {
    match track_to_bone {
        Some(m) => Some(m@),
        None => None,
    }
}

/// Builds the local pose of one frame: the reference pose with each of the
/// first `min(num_tracks, decoded.len())` tracks placed on its bone.
pub fn apply_frame<T: Copy>(reference_pose: &[T], decoded: &[T], track_to_bone: Option<&[usize]>, num_tracks: usize) -> (r: Vec<T>)
    ensures
        r@ == apply_tracks(reference_pose@, decoded@, map_view(track_to_bone), if num_tracks < decoded@.len() { num_tracks as nat } else { decoded@.len() }),
{
    let mut local: Vec<T> = Vec::new();
    let mut i: usize = 0;
    while i < reference_pose.len()
        invariant
            i <= reference_pose@.len(),
            local@ =~= reference_pose@.take(i as int),
        decreases reference_pose@.len() - i,
    {
        local.push(reference_pose[i]);
        i = i + 1;
    }
    assert(reference_pose@.take(reference_pose@.len() as int) =~= reference_pose@);
    let tracks_len = if num_tracks < decoded.len() { num_tracks } else { decoded.len() };
    let ghost map = map_view(track_to_bone);
    let mut track: usize = 0;
    while track < tracks_len
        invariant
            tracks_len <= decoded@.len(),
            track <= tracks_len,
            map == map_view(track_to_bone),
            local@ == apply_tracks(reference_pose@, decoded@, map, track as nat),
        decreases tracks_len - track,
    {
        let bone = match track_to_bone {
            Some(m) => if track < m.len() { m[track] } else { track },
            None => track,
        };
        assert(bone == bone_of(map, track as int));
        if bone < local.len() {
            local.set(bone, decoded[track]);
        }
        track = track + 1;
    }
    local
}

/// Turns per-track frame lists into per-frame track lists: frame `f` holds
/// the `f`-th value of every track, in track order. Without tracks there
/// are no frames.
pub fn transpose_tracks<T: Copy>(tracks: &[Vec<T>], num_frames: usize) -> (r: Vec<Vec<T>>)
    requires
        forall|t: int| 0 <= t < tracks@.len() ==> (#[trigger] tracks@[t])@.len() >= num_frames,
    ensures
        tracks@.len() == 0 ==> r@.len() == 0,
        tracks@.len() > 0 ==> r@.len() == num_frames,
        forall|f: int, t: int| 0 <= f < r@.len() && 0 <= t < tracks@.len() ==> (#[trigger] r@[f]@[t]) == tracks@[t]@[f],
        forall|f: int| 0 <= f < r@.len() ==> (#[trigger] r@[f])@.len() == tracks@.len(),
{
    let mut frames: Vec<Vec<T>> = Vec::new();
    if tracks.len() == 0 {
        return frames;
    }
    let mut f: usize = 0;
    while f < num_frames
        invariant
            f <= num_frames,
            frames@.len() == f,
            forall|t: int| 0 <= t < tracks@.len() ==> (#[trigger] tracks@[t])@.len() >= num_frames,
            forall|g: int, t: int| 0 <= g < f && 0 <= t < tracks@.len() ==> (#[trigger] frames@[g]@[t]) == tracks@[t]@[g],
            forall|g: int| 0 <= g < f ==> (#[trigger] frames@[g])@.len() == tracks@.len(),
        decreases num_frames - f,
    {
        let mut frame: Vec<T> = Vec::new();
        let mut t: usize = 0;
        while t < tracks.len()
            invariant
                f < num_frames,
                t <= tracks@.len(),
                frame@.len() == t,
                forall|u: int| 0 <= u < tracks@.len() ==> (#[trigger] tracks@[u])@.len() >= num_frames,
                forall|u: int| 0 <= u < t ==> (#[trigger] frame@[u]) == tracks@[u]@[f as int],
            decreases tracks@.len() - t,
        {
            frame.push(tracks[t][f]);
            t = t + 1;
        }
        frames.push(frame);
        f = f + 1;
    }
    frames
}

} // verus!

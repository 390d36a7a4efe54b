//! Distance-based level-of-detail selection.
//!
//! Thresholds are scanned in ascending order; a chunk is assigned the index
//! of the first threshold at or beyond its camera distance. When no
//! threshold matches, the previously held level is retained rather than
//! clamped, so a chunk beyond the largest threshold keeps a stable level.

use vstd::prelude::*;
use crate::culling::{chunk_center, chunk_center_spec, CHUNK_POS_LIMIT};
use crate::math::{dist_sq, distance_squared, lemma_mul_bound, Vec3I, COORD_LIMIT};
use crate::voxel::{LodSettings, VoxelChunk};
use crate::voxel_types::Camera;

verus! {

/// Entry `i` of the threshold list is the first match for `distance`: its
/// threshold is at or beyond the distance, and every earlier threshold is
/// strictly below it.
pub open spec fn lod_matches_at(distances: Seq<(i64, i64)>, distance: int, i: int) -> bool {
    &&& 0 <= i < distances.len()
    &&& distance <= distances[i].0
    &&& forall|j: int| 0 <= j < i ==> distance > (#[trigger] distances[j]).0
}

/// Index of the first threshold at or beyond `distance`, or `None` when
/// every threshold is below it (the caller then retains its level).
pub fn select_lod(distance: i64, distances: &Vec<(i64, i64)>) -> (r: Option<usize>)
    ensures
        match r {
            Some(i) => lod_matches_at(distances@, distance as int, i as int),
            None => forall|j: int| 0 <= j < distances@.len() ==> distance > (
            #[trigger] distances@[j]).0,
        },
{
    let n = distances.len();
    let mut i: usize = 0;
    while i < n
        invariant
            n == distances.len(),
            i <= n,
            forall|j: int| 0 <= j < i ==> distance > (#[trigger] distances@[j]).0,
        decreases n - i,
    {
        if distance <= distances[i].0 {
            return Some(i);
        }
        i += 1;
    }
    None
}

/// A squared-distance match against one threshold entry: the threshold is
/// nonnegative and its square is at or beyond the squared distance. For a
/// nonnegative distance this is exactly the plain comparison
/// `distance <= threshold` (see `lemma_squared_match_agrees`).
pub open spec fn lod_sq_hit(entry: (i64, i64), d2: int) -> bool {
    entry.0 >= 0 && d2 <= entry.0 * entry.0
}

/// Entry `i` is the first squared-distance match.
pub open spec fn lod_sq_matches_at(distances: Seq<(i64, i64)>, d2: int, i: int) -> bool {
    &&& 0 <= i < distances.len()
    &&& lod_sq_hit(distances[i], d2)
    &&& forall|j: int| 0 <= j < i ==> !lod_sq_hit(#[trigger] distances[j], d2)
}

/// Comparing squared distances agrees with comparing distances: for a
/// nonnegative distance `d`, `d * d <= t * t` with `t >= 0` holds exactly
/// when `d <= t`.
pub proof fn lemma_squared_match_agrees(d: int, t: int)
    by (nonlinear_arith)
    requires
        d >= 0,
    ensures
        (t >= 0 && d * d <= t * t) <==> d <= t,
{
}

/// The chunk `c_new` is `c_old` with its LOD level set by the first
/// squared-distance match against the camera, or retained when none
/// matches; all other state is unchanged.
pub open spec fn lod_updated(
    c_old: VoxelChunk,
    c_new: VoxelChunk,
    cam_pos: Vec3I,
    distances: Seq<(i64, i64)>,
) -> bool {
    &&& (exists|i: int|
        lod_sq_matches_at(distances, dist_sq(chunk_center_spec(c_old), cam_pos), i))
        ==> lod_sq_matches_at(
        distances,
        dist_sq(chunk_center_spec(c_old), cam_pos),
        c_new.lod_level as int,
    )
    &&& !(exists|i: int|
        lod_sq_matches_at(distances, dist_sq(chunk_center_spec(c_old), cam_pos), i))
        ==> c_new.lod_level == c_old.lod_level
    &&& c_new.position == c_old.position
    &&& c_new.voxels@ == c_old.voxels@
    &&& c_new.bounds == c_old.bounds
    &&& c_new.visible == c_old.visible
}

/// First squared-distance match within a bounded threshold list.
fn select_lod_sq(d2: i64, distances: &Vec<(i64, i64)>) -> (r: Option<usize>)
    requires
        d2 >= 0,
        forall|j: int| 0 <= j < distances@.len() ==> -COORD_LIMIT <= (
        #[trigger] distances@[j]).0 <= COORD_LIMIT,
    ensures
        match r {
            Some(i) => lod_sq_matches_at(distances@, d2 as int, i as int),
            None => !(exists|i: int| lod_sq_matches_at(distances@, d2 as int, i)),
        },
{
    let n = distances.len();
    let mut i: usize = 0;
    while i < n
        invariant
            n == distances.len(),
            i <= n,
            d2 >= 0,
            forall|j: int| 0 <= j < n ==> -COORD_LIMIT <= (#[trigger] distances@[j]).0
                <= COORD_LIMIT,
            forall|j: int| 0 <= j < i ==> !lod_sq_hit(#[trigger] distances@[j], d2 as int),
        decreases n - i,
    {
        let t = distances[i].0;
        if t >= 0 {
            proof {
                lemma_mul_bound(t as int, t as int, COORD_LIMIT as int, COORD_LIMIT as int);
            }
            if d2 <= t * t {
                return Some(i);
            }
        }
        i += 1;
    }
    proof {
        if exists|i: int| lod_sq_matches_at(distances@, d2 as int, i) {
            let i = choose|i: int| lod_sq_matches_at(distances@, d2 as int, i);
            assert(!lod_sq_hit(distances@[i], d2 as int));
        }
    }
    None
}

/// Assign every chunk the LOD level of the first threshold at or beyond its
/// camera distance, retaining the previous level when none matches. With no
/// camera (`None`), the pass is a silent no-op.
pub fn update_voxel_lod(
    chunks: &mut Vec<VoxelChunk>,
    camera: &Option<Camera>,
    settings: &LodSettings,
)
    requires
        forall|j: int| 0 <= j < old(chunks).len() ==> (#[trigger] old(
            chunks,
        )@[j]).position.bounded(CHUNK_POS_LIMIT as int),
        (*camera) matches Some(cam) ==> cam.position.bounded(COORD_LIMIT as int),
        forall|j: int| 0 <= j < settings.distances@.len() ==> -COORD_LIMIT <= (
        #[trigger] settings.distances@[j]).0 <= COORD_LIMIT,
    ensures
        final(chunks).len() == old(chunks).len(),
        (*camera) is None ==> final(chunks)@ == old(chunks)@,
        (*camera) matches Some(cam) ==> forall|j: int| 0 <= j < old(chunks).len()
            ==> lod_updated(
            old(chunks)@[j],
            #[trigger] final(chunks)@[j],
            cam.position,
            settings.distances@,
        ),
{
    match camera {
        None => {},
        Some(cam) => {
            let ghost orig = chunks@;
            let n = chunks.len();
            let mut i: usize = 0;
            while i < n
                invariant
                    chunks.len() == n,
                    n == orig.len(),
                    i <= n,
                    cam.position.bounded(COORD_LIMIT as int),
                    forall|j: int| 0 <= j < settings.distances@.len() ==> -COORD_LIMIT <= (
                    #[trigger] settings.distances@[j]).0 <= COORD_LIMIT,
                    forall|j: int| 0 <= j < n ==> (#[trigger] orig[j]).position.bounded(
                        CHUNK_POS_LIMIT as int,
                    ),
                    forall|j: int| i <= j < n ==> #[trigger] chunks@[j] == orig[j],
                    forall|j: int| 0 <= j < i ==> lod_updated(
                        orig[j],
                        #[trigger] chunks@[j],
                        cam.position,
                        settings.distances@,
                    ),
                decreases n - i,
            {
                let mut c = chunks.remove(i);
                let center = chunk_center(&c);
                let d2 = distance_squared(center, cam.position);
                match select_lod_sq(d2, &settings.distances) {
                    Some(level) => {
                        c.lod_level = level;
                    },
                    None => {},
                }
                chunks.insert(i, c);
                i += 1;
            }
        },
    }
}

} // verus!

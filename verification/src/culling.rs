//! Chunk-level visibility classification: a distance cull followed by a
//! conservative sphere-in-frustum approximation.
//!
//! The frustum test projects the chunk center to homogeneous clip space and
//! accepts when the point is in front of the camera and within the clip
//! volume widened by the chunk's bounding radius. The test may keep a chunk
//! that is just outside the frustum, never the reverse.

use vstd::prelude::*;
use crate::math::{
    abs_spec, dist_sq, distance_squared, lemma_mul_bound, project, project_spec, Mat4I,
    Vec3I, Vec4I, COORD_LIMIT, PROJECT_LIMIT,
};
use crate::voxel::{VoxelChunk, CHUNK_SIZE};
use crate::voxel_types::{Camera, VoxelRenderSettings};

verus! {

/// Conservative bounding-sphere radius of one chunk: the circumscribed
/// sphere of a `CHUNK_SIZE` cube has radius `CHUNK_SIZE * sqrt(3) / 2`
/// (about 13.86); rounding up keeps the test conservative.
pub const CHUNK_RADIUS: i64 = 14;

/// Bound on chunk grid coordinates accepted by the culling passes, chosen so
/// chunk centers stay within `COORD_LIMIT`.
pub const CHUNK_POS_LIMIT: i64 = 0xFFFF;

/// The chunk center lies within the squared render distance of the camera.
pub open spec fn within_render_distance(center: Vec3I, cam_pos: Vec3I, render_distance: i64) -> bool {
    dist_sq(center, cam_pos) <= render_distance * render_distance
}

/// The clip-space point lies in the frustum widened by `radius`: in front of
/// the camera (`w > 0`), within the widened side planes, and not farther
/// than `radius` behind the near plane.
pub open spec fn in_frustum(clip: Vec4I, radius: i64) -> bool {
    &&& clip.w > 0
    &&& abs_spec(clip.x as int) <= clip.w + radius
    &&& abs_spec(clip.y as int) <= clip.w + radius
    &&& clip.z >= -radius
}

/// A chunk is visible when it passes both the distance cull and the frustum
/// approximation.
pub open spec fn classify_spec(
    chunk_center: Vec3I,
    chunk_radius: i64,
    cam_pos: Vec3I,
    view_projection: Mat4I,
    render_distance: i64,
) -> bool {
    &&& within_render_distance(chunk_center, cam_pos, render_distance)
    &&& in_frustum(project_spec(view_projection, chunk_center), chunk_radius)
}

/// Decide a chunk's visibility from its center and bounding radius, the
/// camera, and the configured render distance. The distance cull compares
/// squared distances, which agrees exactly with comparing the Euclidean
/// distance against the (nonnegative) render distance.
pub fn classify(
    chunk_center: Vec3I,
    chunk_radius: i64,
    camera_position: Vec3I,
    view_projection: &Mat4I,
    render_distance: i64,
) -> (r: bool)
    requires
        chunk_center.bounded(COORD_LIMIT as int),
        camera_position.bounded(COORD_LIMIT as int),
        view_projection.bounded(COORD_LIMIT as int),
        0 <= chunk_radius <= COORD_LIMIT,
        0 <= render_distance <= COORD_LIMIT,
    ensures
        r == classify_spec(
            chunk_center,
            chunk_radius,
            camera_position,
            *view_projection,
            render_distance,
        ),
        dist_sq(chunk_center, camera_position) > render_distance * render_distance ==> r
            == false,
        project_spec(*view_projection, chunk_center).w <= 0 ==> r == false,
{
    let d2 = distance_squared(chunk_center, camera_position);
    proof {
        lemma_mul_bound(
            render_distance as int,
            render_distance as int,
            COORD_LIMIT as int,
            COORD_LIMIT as int,
        );
    }
    let rd2 = render_distance * render_distance;
    if d2 > rd2 {
        return false;
    }
    let clip = project(view_projection, chunk_center);
    let widened = clip.w + chunk_radius;
    let ax = if clip.x >= 0 { clip.x } else { -clip.x };
    let ay = if clip.y >= 0 { clip.y } else { -clip.y };
    clip.w > 0 && ax <= widened && ay <= widened && clip.z >= -chunk_radius
}

/// Center of a chunk in world units: the middle of its cube.
pub open spec fn chunk_center_spec(c: VoxelChunk) -> Vec3I {
    Vec3I {
        x: (c.position.x * CHUNK_SIZE + CHUNK_SIZE / 2) as i64,
        y: (c.position.y * CHUNK_SIZE + CHUNK_SIZE / 2) as i64,
        z: (c.position.z * CHUNK_SIZE + CHUNK_SIZE / 2) as i64,
    }
}

/// Center of a chunk, computed exactly.
pub fn chunk_center(c: &VoxelChunk) -> (r: Vec3I)
    requires
        c.position.bounded(CHUNK_POS_LIMIT as int),
    ensures
        r == chunk_center_spec(*c),
        r.bounded(COORD_LIMIT as int),
{
    let half: i64 = (CHUNK_SIZE / 2) as i64;
    proof {
        lemma_mul_bound(c.position.x as int, CHUNK_SIZE as int, CHUNK_POS_LIMIT as int, 16);
        lemma_mul_bound(c.position.y as int, CHUNK_SIZE as int, CHUNK_POS_LIMIT as int, 16);
        lemma_mul_bound(c.position.z as int, CHUNK_SIZE as int, CHUNK_POS_LIMIT as int, 16);
    }
    Vec3I {
        x: c.position.x * (CHUNK_SIZE as i64) + half,
        y: c.position.y * (CHUNK_SIZE as i64) + half,
        z: c.position.z * (CHUNK_SIZE as i64) + half,
    }
}

/// The chunk `c_new` is `c_old` with its `visible` flag set by `classify`
/// against the camera, all other state retained.
pub open spec fn visibility_updated(
    c_old: VoxelChunk,
    c_new: VoxelChunk,
    cam: Camera,
    render_distance: i64,
) -> bool {
    &&& c_new.visible == classify_spec(
        chunk_center_spec(c_old),
        CHUNK_RADIUS,
        cam.position,
        cam.view_projection,
        render_distance,
    )
    &&& c_new.position == c_old.position
    &&& c_new.voxels@ == c_old.voxels@
    &&& c_new.bounds == c_old.bounds
    &&& c_new.lod_level == c_old.lod_level
}

/// Classify every chunk against the camera, setting its `visible` flag in
/// place. With no camera (`None`), the pass is a silent no-op and every
/// chunk retains its previous visibility.
pub fn update_chunk_visibility(
    chunks: &mut Vec<VoxelChunk>,
    camera: &Option<Camera>,
    settings: &VoxelRenderSettings,
)
    requires
        forall|j: int| 0 <= j < old(chunks).len() ==> (#[trigger] old(
            chunks,
        )@[j]).position.bounded(CHUNK_POS_LIMIT as int),
        (*camera) matches Some(cam) ==> cam.position.bounded(COORD_LIMIT as int)
            && cam.view_projection.bounded(COORD_LIMIT as int),
        0 <= settings.render_distance <= COORD_LIMIT,
    ensures
        final(chunks).len() == old(chunks).len(),
        (*camera) is None ==> final(chunks)@ == old(chunks)@,
        (*camera) matches Some(cam) ==> forall|j: int| 0 <= j < old(chunks).len()
            ==> visibility_updated(
            old(chunks)@[j],
            #[trigger] final(chunks)@[j],
            cam,
            settings.render_distance,
        ),
{
    match camera {
        None => {},
        Some(cam) => {
            let ghost orig = chunks@;
            let n = chunks.len();
            let mut i: usize = 0;
            while i < n
                invariant
                    chunks.len() == n,
                    n == orig.len(),
                    i <= n,
                    cam.position.bounded(COORD_LIMIT as int),
                    cam.view_projection.bounded(COORD_LIMIT as int),
                    0 <= settings.render_distance <= COORD_LIMIT,
                    forall|j: int| 0 <= j < n ==> (#[trigger] orig[j]).position.bounded(
                        CHUNK_POS_LIMIT as int,
                    ),
                    forall|j: int| i <= j < n ==> #[trigger] chunks@[j] == orig[j],
                    forall|j: int| 0 <= j < i ==> visibility_updated(
                        orig[j],
                        #[trigger] chunks@[j],
                        *cam,
                        settings.render_distance,
                    ),
                decreases n - i,
            {
                let mut c = chunks.remove(i);
                let center = chunk_center(&c);
                c.visible = classify(
                    center,
                    CHUNK_RADIUS,
                    cam.position,
                    &cam.view_projection,
                    settings.render_distance,
                );
                chunks.insert(i, c);
                i += 1;
            }
        },
    }
}

} // verus!

use voxel_engine::culling::{classify, update_chunk_visibility, CHUNK_RADIUS};
use voxel_engine::lod::{select_lod, update_voxel_lod};
use voxel_engine::math::{Mat4I, Vec3I};
use voxel_engine::voxel::{LodSettings, VoxelChunk};
use voxel_engine::voxel_types::{Camera, VoxelRenderSettings};

fn identity() -> Mat4I {
    Mat4I {
        m00: 1, m01: 0, m02: 0, m03: 0,
        m10: 0, m11: 1, m12: 0, m13: 0,
        m20: 0, m21: 0, m22: 1, m23: 0,
        m30: 0, m31: 0, m32: 0, m33: 1,
    }
}

fn camera_at_origin() -> Camera {
    Camera { position: Vec3I::new(0, 0, 0), up: Vec3I::new(0, 1, 0), view_projection: identity() }
}

#[test]
fn chunk_beyond_render_distance_is_culled() {
    // Distance 200 with render distance 100: not visible, whatever the
    // frustum would say.
    let r = classify(Vec3I::new(200, 0, 0), CHUNK_RADIUS, Vec3I::new(0, 0, 0), &identity(), 100);
    assert!(!r);
}

#[test]
fn chunk_behind_camera_is_culled() {
    // A matrix whose w row is the z coordinate puts a chunk with negative z
    // at w <= 0: behind the camera, not visible.
    let mut vp = identity();
    vp.m30 = 0;
    vp.m31 = 0;
    vp.m32 = 1;
    vp.m33 = 0;
    let r = classify(Vec3I::new(0, 0, -50), CHUNK_RADIUS, Vec3I::new(0, 0, 0), &vp, 1000);
    assert!(!r);
}

#[test]
fn near_centered_chunk_is_visible() {
    let r = classify(Vec3I::new(3, 2, 1), CHUNK_RADIUS, Vec3I::new(0, 0, 0), &identity(), 100);
    assert!(r);
}

#[test]
fn chunk_outside_side_plane_is_culled() {
    // w stays 1 while clip x is 100: |x| > w + radius, so not visible even
    // though the chunk is within render distance.
    let r = classify(Vec3I::new(100, 0, 0), CHUNK_RADIUS, Vec3I::new(0, 0, 0), &identity(), 500);
    assert!(!r);
}

#[test]
fn missing_camera_retains_visibility() {
    let mut chunks = vec![VoxelChunk::new(Vec3I::new(50, 0, 0), Vec::new())];
    chunks[0].visible = true;
    let settings = VoxelRenderSettings::default();
    update_chunk_visibility(&mut chunks, &None, &settings);
    assert!(chunks[0].visible);
}

#[test]
fn update_chunk_visibility_culls_far_chunk() {
    // Chunk at grid (50, 0, 0): center (808, 8, 8), far beyond the default
    // render distance of 100.
    let mut chunks = vec![
        VoxelChunk::new(Vec3I::new(50, 0, 0), Vec::new()),
        VoxelChunk::new(Vec3I::new(0, 0, 0), Vec::new()),
    ];
    let settings = VoxelRenderSettings::default();
    update_chunk_visibility(&mut chunks, &Some(camera_at_origin()), &settings);
    assert!(!chunks[0].visible);
    assert!(chunks[1].visible);
}

#[test]
fn lod_thresholds_pick_first_at_or_beyond_distance() {
    let settings = LodSettings::default();
    // Threshold 0 is below distance 10; threshold 50 is the first at or
    // beyond it.
    assert_eq!(select_lod(10, &settings.distances), Some(1));
    assert_eq!(select_lod(75, &settings.distances), Some(2));
    assert_eq!(select_lod(0, &settings.distances), Some(0));
    assert_eq!(select_lod(100, &settings.distances), Some(2));
}

#[test]
fn lod_beyond_last_threshold_retains_previous_level() {
    let settings = LodSettings::default();
    assert_eq!(select_lod(500, &settings.distances), None);

    // Through the chunk pass: a chunk far beyond the last threshold keeps
    // the level it already had.
    let mut chunks = vec![VoxelChunk::new(Vec3I::new(100, 0, 0), Vec::new())];
    chunks[0].lod_level = 1;
    update_voxel_lod(&mut chunks, &Some(camera_at_origin()), &settings);
    assert_eq!(chunks[0].lod_level, 1);
}

#[test]
fn update_voxel_lod_assigns_matching_bucket() {
    // Chunk at grid origin has center (8, 8, 8); camera at (8, 8, 83) is at
    // distance 75: threshold 100 (index 2) is the first match.
    let mut chunks = vec![VoxelChunk::new(Vec3I::new(0, 0, 0), Vec::new())];
    let cam = Camera {
        position: Vec3I::new(8, 8, 83),
        up: Vec3I::new(0, 1, 0),
        view_projection: identity(),
    };
    update_voxel_lod(&mut chunks, &Some(cam), &LodSettings::default());
    assert_eq!(chunks[0].lod_level, 2);
}

#[test]
fn missing_camera_retains_lod() {
    let mut chunks = vec![VoxelChunk::new(Vec3I::new(0, 0, 0), Vec::new())];
    chunks[0].lod_level = 2;
    update_voxel_lod(&mut chunks, &None, &LodSettings::default());
    assert_eq!(chunks[0].lod_level, 2);
}

#[test]
fn empty_threshold_list_retains_level() {
    let mut chunks = vec![VoxelChunk::new(Vec3I::new(0, 0, 0), Vec::new())];
    chunks[0].lod_level = 3;
    let settings = LodSettings { distances: Vec::new() };
    update_voxel_lod(&mut chunks, &Some(camera_at_origin()), &settings);
    assert_eq!(chunks[0].lod_level, 3);
}

#[test]
fn default_settings_values() {
    let s = VoxelRenderSettings::default();
    assert!(!s.debug_mode);
    assert_eq!(s.voxel_size, 1);
    assert_eq!(s.render_distance, 100);
    assert!(!s.show_chunk_bounds);
    assert!(s.show_diagnostics);
    let lod = LodSettings::default();
    assert_eq!(lod.distances, vec![(0, 1), (50, 2), (100, 4)]);
}

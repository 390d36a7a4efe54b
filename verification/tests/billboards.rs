use voxel_engine::billboard::synthesize;
use voxel_engine::diagnostics::{count_rendered_voxels, count_visible_chunks};
use voxel_engine::math::{Mat4I, Vec3I};
use voxel_engine::voxel::{generate_solid_cube, LocalPos, VoxelChunk};
use voxel_engine::voxel_types::{Camera, Rgba, Voxel, VoxelRenderSettings};

fn identity() -> Mat4I {
    Mat4I {
        m00: 1, m01: 0, m02: 0, m03: 0,
        m10: 0, m11: 1, m12: 0, m13: 0,
        m20: 0, m21: 0, m22: 1, m23: 0,
        m30: 0, m31: 0, m32: 0, m33: 1,
    }
}

fn red() -> Rgba {
    Rgba { r: 255, g: 0, b: 0, a: 255 }
}

fn camera_at(x: i64, y: i64, z: i64) -> Camera {
    Camera { position: Vec3I::new(x, y, z), up: Vec3I::new(0, 1, 0), view_projection: identity() }
}

fn voxel_at(x: i32, y: i32, z: i32) -> Voxel {
    Voxel { position: LocalPos::new(x, y, z), color: red() }
}

#[test]
fn one_billboard_per_visible_voxel() {
    let chunk = VoxelChunk::new(Vec3I::new(0, 0, 0), vec![voxel_at(1, 2, 3), voxel_at(4, 5, 6)]);
    let settings = VoxelRenderSettings::default();
    let billboards = synthesize(&vec![chunk], &camera_at(-10, 10, -10), &settings);
    assert_eq!(billboards.len(), 2);
    assert_eq!(billboards[0].world_position, Vec3I::new(1, 2, 3));
    assert_eq!(billboards[0].color, red());
    assert_eq!(billboards[0].scale, 2);
}

#[test]
fn invisible_chunk_gets_no_billboards() {
    let mut chunk = VoxelChunk::new(Vec3I::new(0, 0, 0), vec![voxel_at(1, 2, 3)]);
    chunk.visible = false;
    let settings = VoxelRenderSettings::default();
    let billboards = synthesize(&vec![chunk], &camera_at(-10, 10, -10), &settings);
    assert_eq!(billboards.len(), 0);
}

#[test]
fn debug_mode_toggle_suppresses_and_restores_billboards() {
    // Debug mode on: the synthesis pass replaces the previous set with
    // nothing. Toggling it back off regenerates a billboard for every
    // currently visible voxel.
    let chunks = vec![VoxelChunk::new(Vec3I::new(0, 0, 0), generate_solid_cube(3, red()))];
    let cam = camera_at(-10, 10, -10);
    let mut settings = VoxelRenderSettings::default();
    let before = synthesize(&chunks, &cam, &settings);
    assert_eq!(before.len(), 27);
    settings.debug_mode = true;
    let suppressed = synthesize(&chunks, &cam, &settings);
    assert_eq!(suppressed.len(), 0);
    settings.debug_mode = false;
    let restored = synthesize(&chunks, &cam, &settings);
    assert_eq!(restored.len(), 27);
    for (a, b) in before.iter().zip(restored.iter()) {
        assert_eq!(a, b);
    }
}

#[test]
fn voxel_coinciding_with_camera_is_skipped() {
    let chunk = VoxelChunk::new(Vec3I::new(0, 0, 0), vec![voxel_at(5, 5, 5), voxel_at(1, 1, 1)]);
    let settings = VoxelRenderSettings::default();
    let billboards = synthesize(&vec![chunk], &camera_at(5, 5, 5), &settings);
    assert_eq!(billboards.len(), 1);
    assert_eq!(billboards[0].world_position, Vec3I::new(1, 1, 1));
}

#[test]
fn billboard_basis_matches_cross_products() {
    // Camera at the origin looking at a voxel on the x axis: view_dir is
    // the +x direction, right is -z, up is +y (scaled).
    let chunk = VoxelChunk::new(Vec3I::new(0, 0, 0), vec![voxel_at(8, 0, 0)]);
    let settings = VoxelRenderSettings::default();
    let billboards = synthesize(&vec![chunk], &camera_at(0, 0, 0), &settings);
    assert_eq!(billboards.len(), 1);
    let b = &billboards[0];
    assert_eq!(b.view_dir, Vec3I::new(8, 0, 0));
    assert_eq!(b.right, Vec3I::new(0, 0, -8));
    assert_eq!(b.up, Vec3I::new(0, 64, 0));
}

#[test]
fn normalized_basis_is_orthonormal() {
    // The integer basis, normalized in floating point as the rendering
    // backend would, is an orthonormal triple for an arbitrary offset pair.
    let chunk = VoxelChunk::new(Vec3I::new(1, -2, 3), vec![voxel_at(3, 7, 11)]);
    let settings = VoxelRenderSettings::default();
    let billboards = synthesize(&vec![chunk], &camera_at(-9, 4, 17), &settings);
    assert_eq!(billboards.len(), 1);
    let b = &billboards[0];
    let norm = |v: &Vec3I| -> [f64; 3] {
        let (x, y, z) = (v.x as f64, v.y as f64, v.z as f64);
        let len = (x * x + y * y + z * z).sqrt();
        [x / len, y / len, z / len]
    };
    let dot = |a: &[f64; 3], b: &[f64; 3]| a[0] * b[0] + a[1] * b[1] + a[2] * b[2];
    let r = norm(&b.right);
    let u = norm(&b.up);
    let v = norm(&b.view_dir);
    for w in [&r, &u, &v] {
        assert!((dot(w, w) - 1.0).abs() < 1e-9);
    }
    assert!(dot(&r, &u).abs() < 1e-9);
    assert!(dot(&r, &v).abs() < 1e-9);
    assert!(dot(&u, &v).abs() < 1e-9);
}

#[test]
fn diagnostics_count_visible_chunks_and_voxels() {
    let mut chunks = vec![
        VoxelChunk::new(Vec3I::new(0, 0, 0), vec![voxel_at(0, 0, 0), voxel_at(1, 0, 0)]),
        VoxelChunk::new(Vec3I::new(1, 0, 0), vec![voxel_at(0, 0, 0)]),
        VoxelChunk::new(Vec3I::new(2, 0, 0), vec![voxel_at(0, 0, 0)]),
    ];
    chunks[1].visible = false;
    assert_eq!(count_visible_chunks(&chunks), 2);
    assert_eq!(count_rendered_voxels(&chunks), 3);
}

#[test]
fn diagnostics_of_empty_scene_are_zero() {
    let chunks: Vec<VoxelChunk> = Vec::new();
    assert_eq!(count_visible_chunks(&chunks), 0);
    assert_eq!(count_rendered_voxels(&chunks), 0);
}

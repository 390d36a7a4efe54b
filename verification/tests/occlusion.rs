use voxel_engine::math::Vec3I;
use voxel_engine::voxel::{apply_occlusion_culling, generate_solid_cube, LocalPos, VoxelChunk};
use voxel_engine::voxel_types::{Rgba, Voxel};

fn gray() -> Rgba {
    Rgba { r: 128, g: 128, b: 128, a: 255 }
}

fn voxel_at(x: i32, y: i32, z: i32) -> Voxel {
    Voxel { position: LocalPos::new(x, y, z), color: gray() }
}

fn origin() -> Vec3I {
    Vec3I::new(0, 0, 0)
}

#[test]
fn single_isolated_voxel_is_kept() {
    let mut chunk = VoxelChunk::new(origin(), vec![voxel_at(5, 5, 5)]);
    chunk.filter_occluded_voxels();
    assert_eq!(chunk.voxels.len(), 1);
    assert_eq!(chunk.voxels[0].position, LocalPos::new(5, 5, 5));
}

#[test]
fn empty_chunk_filter_is_noop() {
    let mut chunk = VoxelChunk::new(origin(), Vec::new());
    chunk.filter_occluded_voxels();
    assert_eq!(chunk.voxels.len(), 0);
}

#[test]
fn filtering_is_idempotent_on_solid_cube() {
    let mut chunk = VoxelChunk::new(origin(), generate_solid_cube(5, gray()));
    chunk.filter_occluded_voxels();
    let after_once: Vec<LocalPos> = chunk.voxels.iter().map(|v| v.position).collect();
    chunk.filter_occluded_voxels();
    let after_twice: Vec<LocalPos> = chunk.voxels.iter().map(|v| v.position).collect();
    assert_eq!(after_once, after_twice);
}

#[test]
fn solid_cube_keeps_only_surface_shell() {
    // A solid n-cube keeps n^3 - (n-2)^3 voxels: the surface shell.
    for n in [3i32, 4, 5, 15] {
        let mut chunk = VoxelChunk::new(origin(), generate_solid_cube(n, gray()));
        let total = (n * n * n) as usize;
        assert_eq!(chunk.voxels.len(), total);
        chunk.filter_occluded_voxels();
        let interior = ((n - 2) * (n - 2) * (n - 2)) as usize;
        assert_eq!(chunk.voxels.len(), total - interior);
    }
}

#[test]
fn interior_voxel_of_small_cube_is_removed() {
    let mut chunk = VoxelChunk::new(origin(), generate_solid_cube(3, gray()));
    chunk.filter_occluded_voxels();
    assert!(!chunk.voxels.iter().any(|v| v.position == LocalPos::new(1, 1, 1)));
    assert!(chunk.voxels.iter().any(|v| v.position == LocalPos::new(0, 1, 1)));
}

#[test]
fn full_chunk_sized_cube_keeps_boundary() {
    // A full 16-cube fills the chunk; every boundary voxel touches the
    // chunk border and is kept.
    let mut chunk = VoxelChunk::new(origin(), generate_solid_cube(16, gray()));
    chunk.filter_occluded_voxels();
    assert_eq!(chunk.voxels.len(), (16 * 16 * 16 - 14 * 14 * 14) as usize);
    assert!(chunk.voxels.iter().any(|v| v.position == LocalPos::new(15, 15, 15)));
}

#[test]
fn out_of_range_voxel_counts_as_boundary_exposed() {
    let mut chunk = VoxelChunk::new(
        origin(),
        vec![voxel_at(20, 3, 3), voxel_at(-1, 0, 0), voxel_at(3, 3, 3)],
    );
    chunk.filter_occluded_voxels();
    assert_eq!(chunk.voxels.len(), 3);
}

#[test]
fn duplicate_positions_are_kept_together() {
    let mut chunk = VoxelChunk::new(origin(), vec![voxel_at(2, 2, 2), voxel_at(2, 2, 2)]);
    chunk.filter_occluded_voxels();
    assert_eq!(chunk.voxels.len(), 2);
}

#[test]
fn filter_preserves_voxel_order() {
    let mut chunk = VoxelChunk::new(
        origin(),
        vec![voxel_at(9, 0, 0), voxel_at(1, 1, 1), voxel_at(0, 9, 0)],
    );
    chunk.filter_occluded_voxels();
    assert_eq!(chunk.voxels[0].position, LocalPos::new(9, 0, 0));
    assert_eq!(chunk.voxels[1].position, LocalPos::new(1, 1, 1));
    assert_eq!(chunk.voxels[2].position, LocalPos::new(0, 9, 0));
}

#[test]
fn apply_occlusion_culling_filters_every_chunk() {
    let mut chunks = vec![
        VoxelChunk::new(origin(), generate_solid_cube(3, gray())),
        VoxelChunk::new(Vec3I::new(1, 0, 0), vec![voxel_at(0, 0, 0)]),
    ];
    apply_occlusion_culling(&mut chunks);
    assert_eq!(chunks[0].voxels.len(), 26);
    assert_eq!(chunks[1].voxels.len(), 1);
}

#[test]
fn new_chunk_starts_visible_at_level_zero_with_bounds() {
    let chunk = VoxelChunk::new(Vec3I::new(2, -1, 0), Vec::new());
    assert!(chunk.visible);
    assert_eq!(chunk.lod_level, 0);
    assert_eq!(chunk.bounds.min, Vec3I::new(32, -16, 0));
    assert_eq!(chunk.bounds.max, Vec3I::new(48, 0, 16));
}

#[test]
fn world_position_scales_chunk_and_voxel() {
    let chunk = VoxelChunk::new(Vec3I::new(1, 0, -1), Vec::new());
    let v = voxel_at(2, 3, 4);
    let wp = chunk.get_voxel_world_position(&v, 2);
    assert_eq!(wp, Vec3I::new((16 + 2) * 2, 3 * 2, (-16 + 4) * 2));
}

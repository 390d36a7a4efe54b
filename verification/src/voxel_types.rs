//! Plain data carried by every voxel, and the global render settings.

use vstd::prelude::*;
use crate::math::{Mat4I, Vec3I};
use crate::voxel::LocalPos;

verus! {

/// A per-frame snapshot of the camera, refreshed by the input layer: the
/// world-space position, the up direction of the camera basis, and the
/// combined view-projection matrix.
#[derive(Clone, Copy, PartialEq, Eq, Structural, Debug)]
pub struct Camera {
    pub position: Vec3I,
    pub up: Vec3I,
    pub view_projection: Mat4I,
}

/// An RGBA color with 8-bit channels. The pipeline never inspects a color;
/// it only carries each voxel's color through to its billboard.
#[derive(Clone, Copy, PartialEq, Eq, Structural, Debug)]
pub struct Rgba {
    pub r: u8,
    pub g: u8,
    pub b: u8,
    pub a: u8,
}

/// One voxel cell: a chunk-local integer position and a color.
#[derive(Clone, Copy, PartialEq, Eq, Structural, Debug)]
pub struct Voxel {
    pub position: LocalPos,
    pub color: Rgba,
}

/// Global settings of the voxel renderer, in whole world units.
#[derive(Clone, Copy, PartialEq, Eq, Structural, Debug)]
pub struct VoxelRenderSettings {
    /// When set, billboard synthesis is suppressed entirely.
    pub debug_mode: bool,
    /// Edge length of one voxel in world units.
    pub voxel_size: i64,
    /// Chunks whose center is farther than this from the camera are culled.
    pub render_distance: i64,
    pub show_chunk_bounds: bool,
    pub show_diagnostics: bool,
}

impl Default for VoxelRenderSettings {
    /// The stock configuration: billboards on, unit voxels, a 100-unit
    /// render distance, diagnostics shown.
    fn default() -> (r: Self)
        ensures
            r == (VoxelRenderSettings {
                debug_mode: false,
                voxel_size: 1,
                render_distance: 100,
                show_chunk_bounds: false,
                show_diagnostics: true,
            }),
    {
        VoxelRenderSettings {
            debug_mode: false,
            voxel_size: 1,
            render_distance: 100,
            show_chunk_bounds: false,
            show_diagnostics: true,
        }
    }
}

} // verus!

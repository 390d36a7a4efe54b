//! A verified core for a voxel rendering pipeline.
//!
//! The library covers the visibility and level-of-detail pipeline of a
//! single-chunk voxel scene: occlusion filtering of voxels with no exposed
//! face, distance and frustum culling of chunks, distance-based LOD bucket
//! assignment, and camera-facing billboard orientation for the surviving
//! voxels. All geometry is modelled over exact integer coordinates; the
//! rendering backend converts to its own floating-point types at the edge.

pub mod math;
pub mod voxel_types;
pub mod voxel;
pub mod culling;
pub mod lod;
pub mod billboard;
pub mod diagnostics;

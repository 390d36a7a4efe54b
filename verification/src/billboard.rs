//! Camera-facing billboard synthesis.
//!
//! Each frame the previous billboard set is discarded and one billboard is
//! emitted per voxel of every visible chunk: the voxel's world position, its
//! color, and a camera-facing orientation basis. The basis is kept as exact
//! unnormalized integer vectors (`right`, `up`, `view_dir`); the rendering
//! backend normalizes each vector when it builds its rotation. A voxel that
//! coincides with the camera position has no defined orientation and is
//! skipped. With debug mode set, synthesis is suppressed entirely and no
//! billboards are produced.

use vstd::prelude::*;
use crate::math::{
    cross, cross_spec, dot, is_zero, lemma_cross_bounded, lemma_cross_nonzero,
    lemma_cross_orthogonal, lemma_mul_bound, sub_spec, vec_sub, Vec3I, CROSS_ARG_LIMIT,
};
use crate::voxel::{local_bounded, world_pos_spec, LocalPos, VoxelChunk, CHUNK_SIZE};
use crate::voxel_types::{Camera, Rgba, Voxel, VoxelRenderSettings};

verus! {

/// Bound on world positions entering billboard synthesis (2^19): small
/// enough that two cascaded cross products stay exact in `i64`.
pub const SYNTH_POS_LIMIT: i64 = 0x8_0000;

/// Bound on the camera's up vector (2^10).
pub const SYNTH_UP_LIMIT: i64 = 0x400;

/// Bound on chunk grid coordinates entering billboard synthesis (2^10).
pub const SYNTH_CHUNK_LIMIT: i64 = 0x400;

/// Bound on voxel local coordinates entering billboard synthesis (2^10).
pub const SYNTH_LOCAL_LIMIT: i64 = 0x400;

/// Largest voxel size accepted by billboard synthesis.
pub const SYNTH_VOXEL_SIZE_LIMIT: i64 = 16;

/// One render entity: a camera-facing quad at a voxel's world position. The
/// orientation basis columns are `right`, `up` and `view_dir` (the direction
/// from the camera toward the billboard), unnormalized and mutually
/// perpendicular whenever they are nonzero.
#[derive(Clone, Copy, PartialEq, Eq, Structural, Debug)]
pub struct Billboard {
    pub world_position: Vec3I,
    pub right: Vec3I,
    pub up: Vec3I,
    pub view_dir: Vec3I,
    pub color: Rgba,
    pub scale: i64,
}

/// The billboard emitted for a voxel at world position `wp`: `view_dir`
/// points from the camera to the voxel, `right` is perpendicular to the
/// camera's up direction and to `view_dir`, and `up` completes the basis.
pub open spec fn billboard_spec(wp: Vec3I, color: Rgba, cam: Camera, voxel_size: i64) -> Billboard {
    let back = sub_spec(wp, cam.position);
    let right = cross_spec(cam.up, back);
    let up = cross_spec(back, right);
    Billboard {
        world_position: wp,
        right,
        up,
        view_dir: back,
        color,
        scale: (voxel_size * 2) as i64,
    }
}

/// Billboards of one chunk's voxels, in voxel order, skipping any voxel
/// that coincides with the camera position.
pub open spec fn voxel_billboards(
    chunk_pos: Vec3I,
    voxels: Seq<Voxel>,
    cam: Camera,
    voxel_size: i64,
) -> Seq<Billboard>
    decreases voxels.len(),
{
    if voxels.len() == 0 {
        Seq::empty()
    } else {
        let rest = voxel_billboards(chunk_pos, voxels.drop_last(), cam, voxel_size);
        let wp = world_pos_spec(chunk_pos, voxels.last().position, voxel_size);
        if is_zero(sub_spec(wp, cam.position)) {
            rest
        } else {
            rest.push(billboard_spec(wp, voxels.last().color, cam, voxel_size))
        }
    }
}

/// Billboards of all visible chunks, in chunk order.
pub open spec fn chunk_billboards(chunks: Seq<VoxelChunk>, cam: Camera, voxel_size: i64) -> Seq<
    Billboard,
>
    decreases chunks.len(),
{
    if chunks.len() == 0 {
        Seq::empty()
    } else {
        let rest = chunk_billboards(chunks.drop_last(), cam, voxel_size);
        if chunks.last().visible {
            rest + voxel_billboards(
                chunks.last().position,
                chunks.last().voxels@,
                cam,
                voxel_size,
            )
        } else {
            rest
        }
    }
}

/// The billboard set of one synthesis pass: empty in debug mode, otherwise
/// the billboards of every visible chunk's voxels.
pub open spec fn synthesize_spec(
    chunks: Seq<VoxelChunk>,
    cam: Camera,
    settings: VoxelRenderSettings,
) -> Seq<Billboard> {
    if settings.debug_mode {
        Seq::empty()
    } else {
        chunk_billboards(chunks, cam, settings.voxel_size)
    }
}

/// A chunk whose coordinates are small enough for synthesis.
pub open spec fn chunk_synth_bounded(c: VoxelChunk) -> bool {
    &&& c.position.bounded(SYNTH_CHUNK_LIMIT as int)
    &&& forall|k: int| 0 <= k < c.voxels@.len() ==> local_bounded(
        (#[trigger] c.voxels@[k]).position,
        SYNTH_LOCAL_LIMIT as int,
    )
}

/// All inputs of a synthesis pass are within the bounds that keep the
/// integer basis computation exact.
pub open spec fn synth_bounded(chunks: Seq<VoxelChunk>, cam: Camera, voxel_size: i64) -> bool {
    &&& cam.position.bounded(SYNTH_POS_LIMIT as int)
    &&& cam.up.bounded(SYNTH_UP_LIMIT as int)
    &&& 1 <= voxel_size <= SYNTH_VOXEL_SIZE_LIMIT
    &&& forall|j: int| 0 <= j < chunks.len() ==> chunk_synth_bounded(#[trigger] chunks[j])
}

/// World positions of bounded voxels stay within `SYNTH_POS_LIMIT`.
proof fn lemma_world_pos_bounded(chunk_pos: Vec3I, p: LocalPos, voxel_size: i64)
    requires
        chunk_pos.bounded(SYNTH_CHUNK_LIMIT as int),
        local_bounded(p, SYNTH_LOCAL_LIMIT as int),
        1 <= voxel_size <= SYNTH_VOXEL_SIZE_LIMIT,
    ensures
        world_pos_spec(chunk_pos, p, voxel_size).bounded(SYNTH_POS_LIMIT as int),
{
    lemma_mul_bound(chunk_pos.x as int, CHUNK_SIZE as int, SYNTH_CHUNK_LIMIT as int, 16);
    lemma_mul_bound(chunk_pos.y as int, CHUNK_SIZE as int, SYNTH_CHUNK_LIMIT as int, 16);
    lemma_mul_bound(chunk_pos.z as int, CHUNK_SIZE as int, SYNTH_CHUNK_LIMIT as int, 16);
    lemma_mul_bound(
        (chunk_pos.x * CHUNK_SIZE + p.x) as int,
        voxel_size as int,
        17 * SYNTH_LOCAL_LIMIT as int,
        16,
    );
    lemma_mul_bound(
        (chunk_pos.y * CHUNK_SIZE + p.y) as int,
        voxel_size as int,
        17 * SYNTH_LOCAL_LIMIT as int,
        16,
    );
    lemma_mul_bound(
        (chunk_pos.z * CHUNK_SIZE + p.z) as int,
        voxel_size as int,
        17 * SYNTH_LOCAL_LIMIT as int,
        16,
    );
}

/// Build the billboard for one voxel's world position.
fn make_billboard(wp: Vec3I, color: Rgba, camera: &Camera, voxel_size: i64) -> (r: Billboard)
    requires
        wp.bounded(SYNTH_POS_LIMIT as int),
        camera.position.bounded(SYNTH_POS_LIMIT as int),
        camera.up.bounded(SYNTH_UP_LIMIT as int),
        1 <= voxel_size <= SYNTH_VOXEL_SIZE_LIMIT,
    ensures
        r == billboard_spec(wp, color, *camera, voxel_size),
{
    let back = vec_sub(wp, camera.position);
    proof {
        lemma_cross_bounded(
            camera.up,
            back,
            SYNTH_UP_LIMIT as int,
            2 * SYNTH_POS_LIMIT as int,
        );
    }
    let right = cross(camera.up, back);
    let up = cross(back, right);
    Billboard { world_position: wp, right, up, view_dir: back, color, scale: voxel_size * 2 }
}

proof fn lemma_voxel_billboards_take_step(
    chunk_pos: Vec3I,
    voxels: Seq<Voxel>,
    cam: Camera,
    voxel_size: i64,
    k: int,
)
    requires
        0 <= k < voxels.len(),
    ensures
        voxel_billboards(chunk_pos, voxels.take(k + 1), cam, voxel_size) == {
            let rest = voxel_billboards(chunk_pos, voxels.take(k), cam, voxel_size);
            let wp = world_pos_spec(chunk_pos, voxels[k].position, voxel_size);
            if is_zero(sub_spec(wp, cam.position)) {
                rest
            } else {
                rest.push(billboard_spec(wp, voxels[k].color, cam, voxel_size))
            }
        },
{
    let t = voxels.take(k + 1);
    assert(t.last() == voxels[k]);
    assert(t.drop_last() =~= voxels.take(k));
}

proof fn lemma_chunk_billboards_take_step(
    chunks: Seq<VoxelChunk>,
    cam: Camera,
    voxel_size: i64,
    i: int,
)
    requires
        0 <= i < chunks.len(),
    ensures
        chunk_billboards(chunks.take(i + 1), cam, voxel_size) == {
            let rest = chunk_billboards(chunks.take(i), cam, voxel_size);
            if chunks[i].visible {
                rest + voxel_billboards(chunks[i].position, chunks[i].voxels@, cam, voxel_size)
            } else {
                rest
            }
        },
{
    let t = chunks.take(i + 1);
    assert(t.last() == chunks[i]);
    assert(t.drop_last() =~= chunks.take(i));
}

/// Synthesize the billboard set for one frame, fully replacing any previous
/// set: one billboard per voxel of each visible chunk, none in debug mode,
/// and none for a voxel that coincides with the camera position.
pub fn synthesize(
    chunks: &Vec<VoxelChunk>,
    camera: &Camera,
    settings: &VoxelRenderSettings,
) -> (r: Vec<Billboard>)
    requires
        synth_bounded(chunks@, *camera, settings.voxel_size),
    ensures
        r@ == synthesize_spec(chunks@, *camera, *settings),
        settings.debug_mode ==> r@.len() == 0,
{
    let mut out: Vec<Billboard> = Vec::new();
    if settings.debug_mode {
        return out;
    }
    let vs = settings.voxel_size;
    let n = chunks.len();
    proof {
        assert(chunks@.take(0) =~= Seq::<VoxelChunk>::empty());
    }
    let mut i: usize = 0;
    while i < n
        invariant
            n == chunks.len(),
            i <= n,
            synth_bounded(chunks@, *camera, vs),
            vs == settings.voxel_size,
            out@ == chunk_billboards(chunks@.take(i as int), *camera, vs),
        decreases n - i,
    {
        let c = &chunks[i];
        proof {
            lemma_chunk_billboards_take_step(chunks@, *camera, vs, i as int);
        }
        if c.visible {
            let m = c.voxels.len();
            proof {
                assert(c.voxels@.take(0) =~= Seq::<Voxel>::empty());
            }
            let mut k: usize = 0;
            while k < m
                invariant
                    n == chunks.len(),
                    i < n,
                    c == &chunks@[i as int],
                    chunk_synth_bounded(*c),
                    m == c.voxels.len(),
                    k <= m,
                    synth_bounded(chunks@, *camera, vs),
                    vs == settings.voxel_size,
                    out@ == chunk_billboards(chunks@.take(i as int), *camera, vs)
                        + voxel_billboards(c.position, c.voxels@.take(k as int), *camera, vs),
                decreases m - k,
            {
                let v = c.voxels[k];
                proof {
                    lemma_voxel_billboards_take_step(
                        c.position,
                        c.voxels@,
                        *camera,
                        vs,
                        k as int,
                    );
                    lemma_world_pos_bounded(c.position, v.position, vs);
                }
                let wp = c.get_voxel_world_position(&v, vs);
                let dx = wp.x - camera.position.x;
                let dy = wp.y - camera.position.y;
                let dz = wp.z - camera.position.z;
                if !(dx == 0 && dy == 0 && dz == 0) {
                    let bb = make_billboard(wp, v.color, camera, vs);
                    out.push(bb);
                }
                k += 1;
            }
            proof {
                assert(c.voxels@.take(m as int) =~= c.voxels@);
            }
        }
        i += 1;
    }
    proof {
        assert(chunks@.take(n as int) =~= chunks@);
    }
    out
}

/// The billboard orientation is a valid orthogonal basis: for any camera and
/// voxel world position that do not coincide, and a camera up direction not
/// parallel to the view direction, the three basis vectors are nonzero and
/// mutually perpendicular. Normalizing each vector therefore yields an
/// orthonormal basis at the rendering edge.
pub proof fn lemma_billboard_basis_orthogonal(
    wp: Vec3I,
    color: Rgba,
    cam: Camera,
    voxel_size: i64,
)
    requires
        wp.bounded(SYNTH_POS_LIMIT as int),
        cam.position.bounded(SYNTH_POS_LIMIT as int),
        cam.up.bounded(SYNTH_UP_LIMIT as int),
        !is_zero(sub_spec(wp, cam.position)),
        !is_zero(cross_spec(cam.up, sub_spec(wp, cam.position))),
    ensures
        dot(billboard_spec(wp, color, cam, voxel_size).right, billboard_spec(wp, color, cam, voxel_size).view_dir) == 0,
        dot(billboard_spec(wp, color, cam, voxel_size).up, billboard_spec(wp, color, cam, voxel_size).view_dir) == 0,
        dot(billboard_spec(wp, color, cam, voxel_size).right, billboard_spec(wp, color, cam, voxel_size).up) == 0,
        !is_zero(billboard_spec(wp, color, cam, voxel_size).right),
        !is_zero(billboard_spec(wp, color, cam, voxel_size).up),
        !is_zero(billboard_spec(wp, color, cam, voxel_size).view_dir),
{
    let back = sub_spec(wp, cam.position);
    let right = cross_spec(cam.up, back);
    let up = cross_spec(back, right);
    lemma_cross_orthogonal(cam.up, back, SYNTH_UP_LIMIT as int, 2 * SYNTH_POS_LIMIT as int);
    lemma_cross_bounded(cam.up, back, SYNTH_UP_LIMIT as int, 2 * SYNTH_POS_LIMIT as int);
    lemma_cross_orthogonal(back, right, 2 * SYNTH_POS_LIMIT as int, CROSS_ARG_LIMIT as int);
    lemma_cross_nonzero(back, right, 2 * SYNTH_POS_LIMIT as int, CROSS_ARG_LIMIT as int);
    assert(dot(right, up) == dot(up, right)) by (nonlinear_arith);
    assert(dot(right, back) == dot(back, right)) by (nonlinear_arith);
}

/// Toggling debug mode: with the flag set, a synthesis pass yields no
/// billboards at all; with it clear and the same scene and camera, the pass
/// yields the full billboard set of every visible chunk's voxels again.
pub proof fn lemma_debug_mode_toggle(
    chunks: Seq<VoxelChunk>,
    cam: Camera,
    on: VoxelRenderSettings,
    off: VoxelRenderSettings,
)
    requires
        on.debug_mode,
        !off.debug_mode,
    ensures
        synthesize_spec(chunks, cam, on) == Seq::<Billboard>::empty(),
        synthesize_spec(chunks, cam, off) == chunk_billboards(chunks, cam, off.voxel_size),
{
}

} // verus!

//! Scene statistics read by the diagnostics overlay: how many chunks are
//! visible and how many voxels those chunks hold.

use vstd::prelude::*;
use crate::voxel::VoxelChunk;

verus! {

/// Number of chunks marked visible.
pub open spec fn visible_chunk_count(chunks: Seq<VoxelChunk>) -> int
    decreases chunks.len(),
{
    if chunks.len() == 0 {
        0
    } else {
        visible_chunk_count(chunks.drop_last()) + if chunks.last().visible {
            1int
        } else {
            0int
        }
    }
}

/// Total voxel count over the chunks marked visible.
pub open spec fn rendered_voxel_count(chunks: Seq<VoxelChunk>) -> int
    decreases chunks.len(),
{
    if chunks.len() == 0 {
        0
    } else {
        rendered_voxel_count(chunks.drop_last()) + if chunks.last().visible {
            chunks.last().voxels@.len() as int
        } else {
            0int
        }
    }
}

proof fn lemma_counts_take_step(chunks: Seq<VoxelChunk>, i: int)
    requires
        0 <= i < chunks.len(),
    ensures
        visible_chunk_count(chunks.take(i + 1)) == visible_chunk_count(chunks.take(i))
            + if chunks[i].visible { 1int } else { 0int },
        rendered_voxel_count(chunks.take(i + 1)) == rendered_voxel_count(chunks.take(i))
            + if chunks[i].visible { chunks[i].voxels@.len() as int } else { 0int },
{
    let t = chunks.take(i + 1);
    assert(t.last() == chunks[i]);
    assert(t.drop_last() =~= chunks.take(i));
}

/// Count the chunks currently marked visible.
pub fn count_visible_chunks(chunks: &Vec<VoxelChunk>) -> (r: usize)
    ensures
        r == visible_chunk_count(chunks@),
{
    let n = chunks.len();
    proof {
        assert(chunks@.take(0) =~= Seq::<VoxelChunk>::empty());
    }
    let mut count: usize = 0;
    let mut i: usize = 0;
    while i < n
        invariant
            n == chunks.len(),
            i <= n,
            count == visible_chunk_count(chunks@.take(i as int)),
            count <= i,
        decreases n - i,
    {
        proof {
            lemma_counts_take_step(chunks@, i as int);
        }
        if chunks[i].visible {
            count += 1;
        }
        i += 1;
    }
    proof {
        assert(chunks@.take(n as int) =~= chunks@);
    }
    count
}

/// Count the voxels of the chunks currently marked visible. The count is
/// returned as `u128` so that even a sum of maximal per-chunk lengths
/// cannot wrap.
pub fn count_rendered_voxels(chunks: &Vec<VoxelChunk>) -> (r: u128)
    ensures
        r == rendered_voxel_count(chunks@),
{
    let n = chunks.len();
    proof {
        assert(chunks@.take(0) =~= Seq::<VoxelChunk>::empty());
    }
    let mut count: u128 = 0;
    let mut i: usize = 0;
    while i < n
        invariant
            n == chunks.len(),
            i <= n,
            count == rendered_voxel_count(chunks@.take(i as int)),
            count <= i * 0xffff_ffff_ffff_ffff,
        decreases n - i,
    {
        proof {
            lemma_counts_take_step(chunks@, i as int);
            assert((i + 1) * 0xffff_ffff_ffff_ffff == i * 0xffff_ffff_ffff_ffff
                + 0xffff_ffff_ffff_ffff) by (nonlinear_arith);
        }
        if chunks[i].visible {
            count += chunks[i].voxels.len() as u128;
        }
        i += 1;
    }
    proof {
        assert(chunks@.take(n as int) =~= chunks@);
    }
    count
}

} // verus!

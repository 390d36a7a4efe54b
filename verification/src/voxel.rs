//! Voxel chunks and the occlusion filter.
//!
//! A chunk owns one fixed-size cube of voxel slots. The occlusion filter
//! removes every voxel whose six axis-aligned neighbors are all present and
//! inside the chunk bounds; such a voxel is fully interior and can never show
//! a face. Adjacency is decided by exact integer equality on the voxels'
//! local positions.

use vstd::prelude::*;
use crate::math::{Vec3I, COORD_LIMIT};
use crate::voxel_types::{Rgba, Voxel};

verus! {

/// Edge length of a chunk, in voxel slots per axis.
pub const CHUNK_SIZE: i32 = 16;

/// Number of cells of the chunk-local presence grid (`CHUNK_SIZE` cubed).
pub const GRID_CELLS: usize = 4096;

/// A position in a chunk's local integer coordinate system. Voxel positions
/// are expected in `[0, CHUNK_SIZE)` on each axis, but out-of-range values
/// are tolerated: they count as exposed at the chunk boundary.
#[derive(Clone, Copy, PartialEq, Eq, Structural, Hash, Debug)]
pub struct LocalPos {
    pub x: i32,
    pub y: i32,
    pub z: i32,
}

impl LocalPos {
    pub fn new(x: i32, y: i32, z: i32) -> (r: Self)
        ensures
            r == (LocalPos { x, y, z }),
    {
        LocalPos { x, y, z }
    }

    /// The position lies inside the chunk on every axis.
    pub open spec fn in_bounds(self) -> bool {
        &&& 0 <= self.x < CHUNK_SIZE
        &&& 0 <= self.y < CHUNK_SIZE
        &&& 0 <= self.z < CHUNK_SIZE
    }
}

/// Flat index of an in-bounds position in the presence grid.
pub open spec fn grid_index(p: LocalPos) -> int {
    p.x * 256 + p.y * 16 + p.z
}

/// Some voxel among the first `m` entries of `voxels` sits at `p`.
pub open spec fn has_position_upto(voxels: Seq<Voxel>, m: int, p: LocalPos) -> bool {
    exists|k: int| 0 <= k < m && voxels[k].position == p
}

/// Some voxel of `voxels` sits at `p`.
pub open spec fn has_position(voxels: Seq<Voxel>, p: LocalPos) -> bool {
    has_position_upto(voxels, voxels.len() as int, p)
}

/// The set of local positions occupied by `voxels`.
pub open spec fn position_set(voxels: Seq<Voxel>) -> Set<LocalPos> {
    Set::new(|p: LocalPos| has_position(voxels, p))
}

/// Whether the integer cell `(x, y, z)` fails to block a face: it is either
/// outside the chunk bounds or not occupied in `ps`.
pub open spec fn neighbor_free(x: int, y: int, z: int, ps: Set<LocalPos>) -> bool {
    ||| !(0 <= x < CHUNK_SIZE && 0 <= y < CHUNK_SIZE && 0 <= z < CHUNK_SIZE)
    ||| !ps.contains(LocalPos { x: x as i32, y: y as i32, z: z as i32 })
}

/// A voxel at `p` shows at least one face: one of its six axis-aligned
/// neighbor cells is free.
pub open spec fn exposed(p: LocalPos, ps: Set<LocalPos>) -> bool {
    ||| neighbor_free(p.x + 1, p.y as int, p.z as int, ps)
    ||| neighbor_free(p.x - 1, p.y as int, p.z as int, ps)
    ||| neighbor_free(p.x as int, p.y + 1, p.z as int, ps)
    ||| neighbor_free(p.x as int, p.y - 1, p.z as int, ps)
    ||| neighbor_free(p.x as int, p.y as int, p.z + 1, ps)
    ||| neighbor_free(p.x as int, p.y as int, p.z - 1, ps)
}

/// The subsequence of `voxels` whose positions are exposed with respect to
/// the occupied-position set `ps`, in the original order.
pub open spec fn filter_by(voxels: Seq<Voxel>, ps: Set<LocalPos>) -> Seq<Voxel>
    decreases voxels.len(),
{
    if voxels.len() == 0 {
        Seq::empty()
    } else {
        let rest = filter_by(voxels.drop_last(), ps);
        if exposed(voxels.last().position, ps) {
            rest.push(voxels.last())
        } else {
            rest
        }
    }
}

/// What one round of occlusion filtering leaves: the voxels exposed with
/// respect to the input's own occupied positions, in order.
pub open spec fn filter_occluded_spec(voxels: Seq<Voxel>) -> Seq<Voxel> {
    filter_by(voxels, position_set(voxels))
}

/// The presence grid mirrors `ps` on every in-bounds position.
pub open spec fn grid_matches(grid: Seq<bool>, ps: Set<LocalPos>) -> bool {
    &&& grid.len() == GRID_CELLS
    &&& forall|p: LocalPos| p.in_bounds() ==> grid[#[trigger] grid_index(p)] == ps.contains(p)
}

proof fn lemma_grid_index_injective(p: LocalPos, q: LocalPos)
    requires
        p.in_bounds(),
        q.in_bounds(),
        grid_index(p) == grid_index(q),
    ensures
        p == q,
{
    assert(p.x == q.x && p.y == q.y && p.z == q.z) by (nonlinear_arith)
        requires
            0 <= p.x < 16 && 0 <= p.y < 16 && 0 <= p.z < 16,
            0 <= q.x < 16 && 0 <= q.y < 16 && 0 <= q.z < 16,
            p.x * 256 + p.y * 16 + p.z == q.x * 256 + q.y * 16 + q.z,
    ;
}

/// Whether the neighbor cell `(x, y, z)` is free, read off the presence grid.
fn neighbor_free_at(present: &Vec<bool>, x: i32, y: i32, z: i32, Ghost(ps): Ghost<Set<LocalPos>>) -> (r: bool)
    requires
        grid_matches(present@, ps),
    ensures
        r == neighbor_free(x as int, y as int, z as int, ps),
{
    if x < 0 || x >= CHUNK_SIZE || y < 0 || y >= CHUNK_SIZE || z < 0 || z >= CHUNK_SIZE {
        true
    } else {
        let idx: usize = (x as usize) * 256 + (y as usize) * 16 + (z as usize);
        proof {
            let q = LocalPos { x, y, z };
            assert(q.in_bounds());
            assert(idx == grid_index(q));
            assert(present@[grid_index(q)] == ps.contains(q));
        }
        !present[idx]
    }
}

/// Whether a voxel at `p` is exposed, read off the presence grid.
fn exposed_at(present: &Vec<bool>, p: LocalPos, Ghost(ps): Ghost<Set<LocalPos>>) -> (r: bool)
    requires
        grid_matches(present@, ps),
    ensures
        r == exposed(p, ps),
{
    if p.x < 0 || p.x >= CHUNK_SIZE || p.y < 0 || p.y >= CHUNK_SIZE || p.z < 0 || p.z >= CHUNK_SIZE {
        // A voxel outside the chunk has an out-of-bounds neighbor on the
        // axis that is out of range, so it is always exposed.
        proof {
            if p.x < 0 {
                assert(neighbor_free(p.x - 1, p.y as int, p.z as int, ps));
            } else if p.x >= CHUNK_SIZE {
                assert(neighbor_free(p.x + 1, p.y as int, p.z as int, ps));
            } else if p.y < 0 {
                assert(neighbor_free(p.x as int, p.y - 1, p.z as int, ps));
            } else if p.y >= CHUNK_SIZE {
                assert(neighbor_free(p.x as int, p.y + 1, p.z as int, ps));
            } else if p.z < 0 {
                assert(neighbor_free(p.x as int, p.y as int, p.z - 1, ps));
            } else {
                assert(neighbor_free(p.x as int, p.y as int, p.z + 1, ps));
            }
        }
        true
    } else {
        ||| neighbor_free_at(present, p.x + 1, p.y, p.z, Ghost(ps))
        ||| neighbor_free_at(present, p.x - 1, p.y, p.z, Ghost(ps))
        ||| neighbor_free_at(present, p.x, p.y + 1, p.z, Ghost(ps))
        ||| neighbor_free_at(present, p.x, p.y - 1, p.z, Ghost(ps))
        ||| neighbor_free_at(present, p.x, p.y, p.z + 1, Ghost(ps))
        ||| neighbor_free_at(present, p.x, p.y, p.z - 1, Ghost(ps))
    }
}

/// Build the presence grid of `voxels`: cell `grid_index(p)` is set exactly
/// when some voxel sits at the in-bounds position `p`.
fn build_presence_grid(voxels: &Vec<Voxel>) -> (present: Vec<bool>)
    ensures
        grid_matches(present@, position_set(voxels@)),
{
    let mut present: Vec<bool> = vec![false; GRID_CELLS];
    let n = voxels.len();
    let mut i: usize = 0;
    while i < n
        invariant
            n == voxels.len(),
            i <= n,
            present.len() == GRID_CELLS,
            forall|p: LocalPos| p.in_bounds()
                ==> present@[#[trigger] grid_index(p)] == has_position_upto(voxels@, i as int, p),
        decreases n - i,
    {
        let v = voxels[i];
        let ghost prev = present@;
        if v.position.x >= 0 && v.position.x < CHUNK_SIZE
            && v.position.y >= 0 && v.position.y < CHUNK_SIZE
            && v.position.z >= 0 && v.position.z < CHUNK_SIZE
        {
            let idx: usize = (v.position.x as usize) * 256 + (v.position.y as usize) * 16
                + (v.position.z as usize);
            proof {
                assert(v.position.in_bounds());
                assert(idx == grid_index(v.position));
            }
            present[idx] = true;
        }
        proof {
            assert forall|p: LocalPos| p.in_bounds() implies present@[#[trigger] grid_index(p)]
                == has_position_upto(voxels@, i + 1, p) by {
                if p == v.position {
                    assert(has_position_upto(voxels@, i + 1, p)) by {
                        assert(0 <= i < i + 1 && voxels@[i as int].position == p);
                    }
                    assert(present@[grid_index(p)]);
                } else {
                    if v.position.in_bounds() && grid_index(p) == grid_index(v.position) {
                        lemma_grid_index_injective(p, v.position);
                    }
                    assert(present@[grid_index(p)] == prev[grid_index(p)]);
                    assert(has_position_upto(voxels@, i + 1, p) == has_position_upto(
                        voxels@,
                        i as int,
                        p,
                    )) by {
                        if has_position_upto(voxels@, i + 1, p) {
                            let k = choose|k: int| 0 <= k < i + 1 && voxels@[k].position == p;
                            assert(k != i);
                            assert(0 <= k < i && voxels@[k].position == p);
                        }
                    }
                }
            }
        }
        i += 1;
    }
    present
}

proof fn lemma_filter_by_take_step(s: Seq<Voxel>, ps: Set<LocalPos>, i: int)
    requires
        0 <= i < s.len(),
    ensures
        filter_by(s.take(i + 1), ps) == if exposed(s[i].position, ps) {
            filter_by(s.take(i), ps).push(s[i])
        } else {
            filter_by(s.take(i), ps)
        },
{
    let t = s.take(i + 1);
    assert(t.last() == s[i]);
    assert(t.drop_last() =~= s.take(i));
}

/// An axis-aligned bounding box in world coordinates.
#[derive(Clone, Copy, PartialEq, Eq, Structural, Debug)]
pub struct Aabb {
    pub min: Vec3I,
    pub max: Vec3I,
}

/// World position of a voxel: the chunk origin (`chunk_pos * CHUNK_SIZE`
/// voxel slots) plus the voxel's local position, scaled by the voxel size.
pub open spec fn world_pos_spec(chunk_pos: Vec3I, p: LocalPos, voxel_size: i64) -> Vec3I {
    Vec3I {
        x: ((chunk_pos.x * CHUNK_SIZE + p.x) * voxel_size) as i64,
        y: ((chunk_pos.y * CHUNK_SIZE + p.y) * voxel_size) as i64,
        z: ((chunk_pos.z * CHUNK_SIZE + p.z) * voxel_size) as i64,
    }
}

/// The local position's coordinates all lie within `limit` in magnitude.
pub open spec fn local_bounded(p: LocalPos, limit: int) -> bool {
    -limit <= p.x <= limit && -limit <= p.y <= limit && -limit <= p.z <= limit
}

/// One cube of voxels at a fixed grid position, together with the visibility
/// and level-of-detail state maintained by the culling passes.
pub struct VoxelChunk {
    /// Chunk coordinate (one step is `CHUNK_SIZE` voxel slots).
    pub position: Vec3I,
    pub voxels: Vec<Voxel>,
    pub bounds: Aabb,
    pub visible: bool,
    pub lod_level: usize,
}

impl VoxelChunk {
    /// A fresh chunk: visible, at LOD level 0, with bounds spanning the
    /// chunk's cube in world units.
    pub fn new(position: Vec3I, voxels: Vec<Voxel>) -> (r: Self)
        requires
            position.bounded(COORD_LIMIT as int),
        ensures
            r.position == position,
            r.voxels@ == voxels@,
            r.visible == true,
            r.lod_level == 0,
            r.bounds.min.x == position.x * CHUNK_SIZE,
            r.bounds.min.y == position.y * CHUNK_SIZE,
            r.bounds.min.z == position.z * CHUNK_SIZE,
            r.bounds.max.x == position.x * CHUNK_SIZE + CHUNK_SIZE,
            r.bounds.max.y == position.y * CHUNK_SIZE + CHUNK_SIZE,
            r.bounds.max.z == position.z * CHUNK_SIZE + CHUNK_SIZE,
    {
        let size: i64 = CHUNK_SIZE as i64;
        let min = Vec3I { x: position.x * size, y: position.y * size, z: position.z * size };
        let max = Vec3I { x: min.x + size, y: min.y + size, z: min.z + size };
        VoxelChunk { position, voxels, bounds: Aabb { min, max }, visible: true, lod_level: 0 }
    }

    /// World position of one of this chunk's voxels.
    pub fn get_voxel_world_position(&self, voxel: &Voxel, voxel_size: i64) -> (r: Vec3I)
        requires
            self.position.bounded(COORD_LIMIT as int),
            local_bounded(voxel.position, COORD_LIMIT as int),
            0 <= voxel_size <= 64,
        ensures
            r == world_pos_spec(self.position, voxel.position, voxel_size),
    {
        proof {
            crate::math::lemma_mul_bound(
                (self.position.x * CHUNK_SIZE + voxel.position.x) as int,
                voxel_size as int,
                17 * COORD_LIMIT as int,
                64,
            );
            crate::math::lemma_mul_bound(
                (self.position.y * CHUNK_SIZE + voxel.position.y) as int,
                voxel_size as int,
                17 * COORD_LIMIT as int,
                64,
            );
            crate::math::lemma_mul_bound(
                (self.position.z * CHUNK_SIZE + voxel.position.z) as int,
                voxel_size as int,
                17 * COORD_LIMIT as int,
                64,
            );
        }
        Vec3I {
            x: (self.position.x * (CHUNK_SIZE as i64) + (voxel.position.x as i64)) * voxel_size,
            y: (self.position.y * (CHUNK_SIZE as i64) + (voxel.position.y as i64)) * voxel_size,
            z: (self.position.z * (CHUNK_SIZE as i64) + (voxel.position.z as i64)) * voxel_size,
        }
    }

    /// Remove every fully occluded voxel: one whose six neighbors are all
    /// present and inside the chunk bounds. Exactly the exposed voxels
    /// remain, in their original order.
    pub fn filter_occluded_voxels(&mut self)
        ensures
            final(self).voxels@ == filter_occluded_spec(old(self).voxels@),
            final(self).position == old(self).position,
            final(self).bounds == old(self).bounds,
            final(self).visible == old(self).visible,
            final(self).lod_level == old(self).lod_level,
    {
        let ghost orig = self.voxels@;
        let ghost ps = position_set(orig);
        let present = build_presence_grid(&self.voxels);
        let mut kept: Vec<Voxel> = Vec::new();
        let n = self.voxels.len();
        proof {
            assert(orig.take(0) =~= Seq::<Voxel>::empty());
        }
        let mut i: usize = 0;
        while i < n
            invariant
                n == self.voxels.len(),
                self.voxels@ == orig,
                i <= n,
                grid_matches(present@, ps),
                ps == position_set(orig),
                kept@ == filter_by(orig.take(i as int), ps),
            decreases n - i,
        {
            let v = self.voxels[i];
            proof {
                lemma_filter_by_take_step(orig, ps, i as int);
            }
            if exposed_at(&present, v.position, Ghost(ps)) {
                kept.push(v);
            }
            i += 1;
        }
        proof {
            assert(orig.take(n as int) =~= orig);
        }
        self.voxels = kept;
    }
}

/// Run the occlusion filter on every chunk of the slice, in place. Intended
/// for the chunks whose voxel contents changed since the last pass.
pub fn apply_occlusion_culling(chunks: &mut Vec<VoxelChunk>)
    ensures
        final(chunks).len() == old(chunks).len(),
        forall|j: int| 0 <= j < old(chunks).len() ==> {
            &&& (#[trigger] final(chunks)@[j]).voxels@ == filter_occluded_spec(
                old(chunks)@[j].voxels@,
            )
            &&& final(chunks)@[j].position == old(chunks)@[j].position
            &&& final(chunks)@[j].bounds == old(chunks)@[j].bounds
            &&& final(chunks)@[j].visible == old(chunks)@[j].visible
            &&& final(chunks)@[j].lod_level == old(chunks)@[j].lod_level
        },
{
    let ghost orig = chunks@;
    let n = chunks.len();
    let mut i: usize = 0;
    while i < n
        invariant
            chunks.len() == n,
            n == orig.len(),
            i <= n,
            forall|j: int| i <= j < n ==> #[trigger] chunks@[j] == orig[j],
            forall|j: int| 0 <= j < i ==> {
                &&& (#[trigger] chunks@[j]).voxels@ == filter_occluded_spec(orig[j].voxels@)
                &&& chunks@[j].position == orig[j].position
                &&& chunks@[j].bounds == orig[j].bounds
                &&& chunks@[j].visible == orig[j].visible
                &&& chunks@[j].lod_level == orig[j].lod_level
            },
        decreases n - i,
    {
        let mut c = chunks.remove(i);
        c.filter_occluded_voxels();
        chunks.insert(i, c);
        i += 1;
    }
}

/// Every voxel the filter keeps is exposed with respect to `ps` and occurs
/// in the input sequence.
proof fn lemma_filter_by_membership(s: Seq<Voxel>, ps: Set<LocalPos>)
    ensures
        forall|j: int| 0 <= j < filter_by(s, ps).len() ==> exposed(
            (#[trigger] filter_by(s, ps)[j]).position,
            ps,
        ),
        forall|j: int| 0 <= j < filter_by(s, ps).len() ==> exists|k: int|
            0 <= k < s.len() && s[k] == #[trigger] filter_by(s, ps)[j],
    decreases s.len(),
{
    if s.len() > 0 {
        lemma_filter_by_membership(s.drop_last(), ps);
        let rest = filter_by(s.drop_last(), ps);
        assert forall|j: int| 0 <= j < filter_by(s, ps).len() implies exists|k: int|
            0 <= k < s.len() && s[k] == #[trigger] filter_by(s, ps)[j] by {
            if j < rest.len() {
                let k = choose|k: int|
                    0 <= k < s.drop_last().len() && s.drop_last()[k] == rest[j];
                assert(s[k] == filter_by(s, ps)[j]);
            } else {
                assert(s[s.len() - 1] == filter_by(s, ps)[j]);
            }
        }
    }
}

/// Exposure only grows when occupied positions are removed: a voxel exposed
/// against the larger set is exposed against any subset.
proof fn lemma_exposed_antitone(p: LocalPos, small: Set<LocalPos>, large: Set<LocalPos>)
    requires
        small.subset_of(large),
        exposed(p, large),
    ensures
        exposed(p, small),
{
}

/// If every voxel of `s` is exposed with respect to `ps`, the filter keeps
/// the whole sequence.
proof fn lemma_filter_by_all_exposed(s: Seq<Voxel>, ps: Set<LocalPos>)
    requires
        forall|k: int| 0 <= k < s.len() ==> exposed((#[trigger] s[k]).position, ps),
    ensures
        filter_by(s, ps) == s,
    decreases s.len(),
{
    if s.len() == 0 {
        assert(filter_by(s, ps) =~= s);
    } else {
        lemma_filter_by_all_exposed(s.drop_last(), ps);
        assert(exposed(s.last().position, ps));
        assert(s.drop_last().push(s.last()) =~= s);
    }
}

/// Occlusion filtering is idempotent: filtering an already-filtered voxel
/// sequence yields the same sequence. Removing interior voxels only shrinks
/// the occupied-position set, so every surviving voxel stays exposed.
pub proof fn lemma_filter_occluded_idempotent(voxels: Seq<Voxel>)
    ensures
        filter_occluded_spec(filter_occluded_spec(voxels)) == filter_occluded_spec(voxels),
{
    let ps = position_set(voxels);
    let f = filter_by(voxels, ps);
    lemma_filter_by_membership(voxels, ps);
    assert(position_set(f).subset_of(ps)) by {
        assert forall|p: LocalPos| position_set(f).contains(p) implies ps.contains(p) by {
            let j = choose|j: int| 0 <= j < f.len() && f[j].position == p;
            let k = choose|k: int| 0 <= k < voxels.len() && voxels[k] == f[j];
            assert(has_position_upto(voxels, voxels.len() as int, p)) by {
                assert(0 <= k < voxels.len() && voxels[k].position == p);
            }
        }
    }
    assert forall|j: int| 0 <= j < f.len() implies exposed(
        (#[trigger] f[j]).position,
        position_set(f),
    ) by {
        lemma_exposed_antitone(f[j].position, position_set(f), ps);
    }
    lemma_filter_by_all_exposed(f, position_set(f));
}

/// A single isolated voxel is always kept: all six of its neighbor cells
/// are free, so it is exposed.
pub proof fn lemma_isolated_voxel_kept(v: Voxel)
    ensures
        filter_occluded_spec(seq![v]) == seq![v],
{
    let s = seq![v];
    let ps = position_set(s);
    assert(exposed(v.position, ps)) by {
        let p = v.position;
        if !(0 <= p.x + 1 < CHUNK_SIZE && 0 <= p.y < CHUNK_SIZE && 0 <= p.z < CHUNK_SIZE) {
            assert(neighbor_free(p.x + 1, p.y as int, p.z as int, ps));
        } else {
            let q = LocalPos { x: (p.x + 1) as i32, y: p.y, z: p.z };
            assert(q.x != p.x);
            assert(!ps.contains(q)) by {
                assert(forall|k: int| 0 <= k < s.len() ==> s[k].position == p);
            }
            assert(neighbor_free(p.x + 1, p.y as int, p.z as int, ps));
        }
    }
    assert forall|k: int| 0 <= k < s.len() implies exposed((#[trigger] s[k]).position, ps) by {
        assert(s[k] == v);
    }
    lemma_filter_by_all_exposed(s, ps);
}

proof fn lemma_has_position_push(s: Seq<Voxel>, v: Voxel, p: LocalPos)
    ensures
        has_position(s.push(v), p) <==> (has_position(s, p) || v.position == p),
{
    if has_position(s.push(v), p) {
        let k = choose|k: int| 0 <= k < s.push(v).len() && s.push(v)[k].position == p;
        if k < s.len() {
            assert(s[k].position == p);
        }
    }
    if has_position(s, p) {
        let k = choose|k: int| 0 <= k < s.len() && s[k].position == p;
        assert(s.push(v)[k].position == p);
    }
    if v.position == p {
        assert(s.push(v)[s.len() as int].position == p);
    }
}

/// The set of positions of a full `n`-cube: every cell with all coordinates
/// in `[0, n)`.
pub open spec fn cube_set(n: int) -> Set<LocalPos> {
    Set::new(|p: LocalPos| 0 <= p.x < n && 0 <= p.y < n && 0 <= p.z < n)
}

/// A position on the surface shell of a full `n`-cube: inside the cube with
/// at least one coordinate on a face.
pub open spec fn on_shell(p: LocalPos, n: int) -> bool {
    &&& cube_set(n).contains(p)
    &&& (p.x == 0 || p.x == n - 1 || p.y == 0 || p.y == n - 1 || p.z == 0 || p.z == n - 1)
}

/// Generate a full `n` by `n` by `n` cube of voxels of one color, one voxel
/// per cell, in row-major order.
pub fn generate_solid_cube(n: i32, color: Rgba) -> (r: Vec<Voxel>)
    requires
        0 <= n <= CHUNK_SIZE,
    ensures
        r@.len() == n * n * n,
        forall|j: int| 0 <= j < r@.len() ==> cube_set(n as int).contains(
            (#[trigger] r@[j]).position,
        ) && r@[j].color == color,
        forall|p: LocalPos| has_position(r@, p) <==> cube_set(n as int).contains(p),
        position_set(r@) == cube_set(n as int),
        forall|j: int| 0 <= j < r@.len() ==> (#[trigger] r@[j]).position == index_pos(
            n as int,
            j,
        ),
{
    let mut r: Vec<Voxel> = Vec::new();
    let mut x: i32 = 0;
    while x < n
        invariant
            0 <= x <= n <= CHUNK_SIZE,
            r@.len() == x * n * n,
            forall|j: int| 0 <= j < r@.len() ==> cube_set(n as int).contains(
                (#[trigger] r@[j]).position,
            ) && r@[j].color == color,
            forall|p: LocalPos| has_position(r@, p) <==> (cube_set(n as int).contains(p)
                && p.x < x),
            forall|j: int| 0 <= j < r@.len() ==> (#[trigger] r@[j]).position == index_pos(
                n as int,
                j,
            ),
        decreases n - x,
    {
        let mut y: i32 = 0;
        while y < n
            invariant
                0 <= x < n <= CHUNK_SIZE,
                0 <= y <= n,
                r@.len() == x * n * n + y * n,
                forall|j: int| 0 <= j < r@.len() ==> cube_set(n as int).contains(
                    (#[trigger] r@[j]).position,
                ) && r@[j].color == color,
                forall|p: LocalPos| has_position(r@, p) <==> (cube_set(n as int).contains(p)
                    && (p.x < x || (p.x == x && p.y < y))),
                forall|j: int| 0 <= j < r@.len() ==> (#[trigger] r@[j]).position == index_pos(
                    n as int,
                    j,
                ),
            decreases n - y,
        {
            let mut z: i32 = 0;
            while z < n
                invariant
                    0 <= x < n <= CHUNK_SIZE,
                    0 <= y < n,
                    0 <= z <= n,
                    r@.len() == x * n * n + y * n + z,
                    forall|j: int| 0 <= j < r@.len() ==> cube_set(n as int).contains(
                        (#[trigger] r@[j]).position,
                    ) && r@[j].color == color,
                    forall|p: LocalPos| has_position(r@, p) <==> (cube_set(
                        n as int,
                    ).contains(p) && (p.x < x || (p.x == x && p.y < y) || (p.x == x && p.y == y
                        && p.z < z))),
                    forall|j: int| 0 <= j < r@.len() ==> (#[trigger] r@[j]).position
                        == index_pos(n as int, j),
                decreases n - z,
            {
                let v = Voxel { position: LocalPos { x, y, z }, color };
                let ghost prev = r@;
                r.push(v);
                proof {
                    lemma_index_pos_decompose(n as int, x as int, y as int, z as int);
                    assert forall|p: LocalPos| has_position(r@, p) <==> (cube_set(
                        n as int,
                    ).contains(p) && (p.x < x || (p.x == x && p.y < y) || (p.x == x && p.y == y
                        && p.z < z + 1))) by {
                        lemma_has_position_push(prev, v, p);
                    }
                }
                z += 1;
            }
            proof {
                assert((y + 1) * n == y * n + n) by (nonlinear_arith);
            }
            y += 1;
        }
        proof {
            assert((x + 1) * n * n == x * n * n + n * n) by (nonlinear_arith);
            assert(n * n == (n as int) * (n as int));
        }
        x += 1;
    }
    proof {
        assert forall|p: LocalPos| has_position(r@, p) <==> cube_set(n as int).contains(
            p,
        ) by {}
        assert(position_set(r@) =~= cube_set(n as int));
    }
    r
}

/// Position of the voxel at index `j` of a row-major `n`-cube enumeration.
pub open spec fn index_pos(n: int, j: int) -> LocalPos {
    LocalPos { x: (j / (n * n)) as i32, y: ((j % (n * n)) / n) as i32, z: (j % n) as i32 }
}

proof fn lemma_index_pos_decompose(n: int, x: int, y: int, z: int)
    requires
        0 < n <= CHUNK_SIZE,
        0 <= x < n,
        0 <= y < n,
        0 <= z < n,
    ensures
        index_pos(n, x * n * n + y * n + z) == (LocalPos {
            x: x as i32,
            y: y as i32,
            z: z as i32,
        }),
{
    let j = x * n * n + y * n + z;
    assert(j == (x * n + y) * n + z) by (nonlinear_arith)
        requires
            j == x * n * n + y * n + z,
    ;
    vstd::arithmetic::div_mod::lemma_fundamental_div_mod_converse(j, n, x * n + y, z);
    assert(0 <= y * n + z < n * n) by (nonlinear_arith)
        requires
            0 <= y < n,
            0 <= z < n,
    ;
    assert(j == x * (n * n) + (y * n + z)) by (nonlinear_arith)
        requires
            j == x * n * n + y * n + z,
    ;
    vstd::arithmetic::div_mod::lemma_fundamental_div_mod_converse(j, n * n, x, y * n + z);
    vstd::arithmetic::div_mod::lemma_fundamental_div_mod_converse(y * n + z, n, y, z);
}

/// Number of indices below `m` whose cube cell lies on the surface shell.
pub open spec fn shell_upto(n: int, m: int) -> int
    decreases m,
{
    if m <= 0 {
        0
    } else {
        shell_upto(n, m - 1) + if on_shell(index_pos(n, m - 1), n) {
            1int
        } else {
            0int
        }
    }
}

proof fn lemma_filter_count_shell(voxels: Seq<Voxel>, n: int, m: int)
    requires
        2 < n <= CHUNK_SIZE,
        position_set(voxels) == cube_set(n),
        forall|j: int| 0 <= j < voxels.len() ==> (#[trigger] voxels[j]).position == index_pos(
            n,
            j,
        ),
        0 <= m <= voxels.len(),
    ensures
        filter_by(voxels.take(m), position_set(voxels)).len() == shell_upto(n, m),
    decreases m,
{
    let ps = position_set(voxels);
    if m == 0 {
        assert(voxels.take(0) =~= Seq::<Voxel>::empty());
    } else {
        lemma_filter_count_shell(voxels, n, m - 1);
        lemma_filter_by_take_step(voxels, ps, m - 1);
        lemma_solid_cube_shell(voxels, n);
        assert(exposed(voxels[m - 1].position, ps) <==> on_shell(index_pos(n, m - 1), n));
    }
}

proof fn lemma_shell_row(n: int, x: int, y: int, z: int)
    requires
        2 < n <= CHUNK_SIZE,
        0 <= x < n,
        0 <= y < n,
        0 <= z <= n,
    ensures
        shell_upto(n, x * n * n + y * n + z) - shell_upto(n, x * n * n + y * n) == if x == 0
            || x == n - 1 || y == 0 || y == n - 1 {
            z
        } else if z == 0 {
            0int
        } else if z < n {
            1int
        } else {
            2int
        },
    decreases z,
{
    if z > 0 {
        lemma_shell_row(n, x, y, z - 1);
        lemma_index_pos_decompose(n, x, y, z - 1);
        let m = x * n * n + y * n + z;
        assert(m - 1 == x * n * n + y * n + (z - 1));
        assert(shell_upto(n, m) == shell_upto(n, m - 1) + if on_shell(index_pos(n, m - 1), n) {
            1int
        } else {
            0int
        });
        let p = LocalPos { x: x as i32, y: y as i32, z: (z - 1) as i32 };
        assert(cube_set(n).contains(p));
    }
}

proof fn lemma_shell_slab(n: int, x: int, y: int)
    requires
        2 < n <= CHUNK_SIZE,
        0 <= x < n,
        0 <= y <= n,
    ensures
        shell_upto(n, x * n * n + y * n) - shell_upto(n, x * n * n) == if x == 0 || x == n - 1 {
            y * n
        } else if y == 0 {
            0int
        } else if y < n {
            n + (y - 1) * 2
        } else {
            2 * n + (n - 2) * 2
        },
    decreases y,
{
    if y > 0 {
        lemma_shell_slab(n, x, y - 1);
        lemma_shell_row(n, x, y - 1, n);
        assert(x * n * n + (y - 1) * n + n == x * n * n + y * n) by (nonlinear_arith);
        assert(y * n == (y - 1) * n + n) by (nonlinear_arith);
    }
}

proof fn lemma_shell_total(n: int, x: int)
    requires
        2 < n <= CHUNK_SIZE,
        0 <= x <= n,
    ensures
        shell_upto(n, x * n * n) == if x == 0 {
            0int
        } else if x < n {
            n * n + (x - 1) * (4 * n - 4)
        } else {
            2 * (n * n) + (n - 2) * (4 * n - 4)
        },
    decreases x,
{
    if x > 0 {
        lemma_shell_total(n, x - 1);
        lemma_shell_slab(n, x - 1, n);
        assert((x - 1) * n * n + n * n == x * n * n) by (nonlinear_arith);
        assert(2 * n + (n - 2) * 2 == 4 * n - 4);
        assert(n * n == n * n + (1 - 1) * (4 * n - 4));
        if x > 1 {
            assert(n * n + (x - 2) * (4 * n - 4) + (4 * n - 4) == n * n + (x - 1) * (4 * n
                - 4)) by (nonlinear_arith);
        }
    }
}

/// A fully solid `n`-cube (with `2 < n` at most the chunk size), after one
/// round of occlusion filtering, retains exactly its surface shell:
/// `n^3 - (n-2)^3` voxels, the total minus the interior.
pub proof fn lemma_solid_cube_shell_count(voxels: Seq<Voxel>, n: int)
    requires
        2 < n <= CHUNK_SIZE,
        voxels.len() == n * n * n,
        position_set(voxels) == cube_set(n),
        forall|j: int| 0 <= j < voxels.len() ==> (#[trigger] voxels[j]).position == index_pos(
            n,
            j,
        ),
    ensures
        filter_occluded_spec(voxels).len() == n * n * n - (n - 2) * (n - 2) * (n - 2),
{
    lemma_filter_count_shell(voxels, n, n * n * n);
    assert(voxels.take((n * n * n) as int) =~= voxels);
    lemma_shell_total(n, n);
    assert(2 * (n * n) + (n - 2) * (4 * n - 4) == n * n * n - (n - 2) * (n - 2) * (n - 2))
        by (nonlinear_arith);
}

/// Occlusion filtering of a full cube keeps exactly the surface shell: a
/// voxel of a solid `n`-cube (with `n` at most the chunk size) is exposed
/// exactly when one of its coordinates lies on a face of the cube.
pub proof fn lemma_solid_cube_shell(voxels: Seq<Voxel>, n: int)
    requires
        2 < n <= CHUNK_SIZE,
        position_set(voxels) == cube_set(n),
    ensures
        forall|j: int| 0 <= j < voxels.len() ==> (exposed(
            (#[trigger] voxels[j]).position,
            position_set(voxels),
        ) <==> on_shell(voxels[j].position, n)),
{
    let ps = position_set(voxels);
    assert forall|j: int| 0 <= j < voxels.len() implies (exposed(
        (#[trigger] voxels[j]).position,
        ps,
    ) <==> on_shell(voxels[j].position, n)) by {
        let p = voxels[j].position;
        assert(ps.contains(p)) by {
            assert(has_position_upto(voxels, voxels.len() as int, p)) by {
                assert(0 <= j < voxels.len() && voxels[j].position == p);
            }
        }
        assert(cube_set(n).contains(p));
        if on_shell(p, n) {
            if p.x == 0 {
                assert(!cube_set(n).contains(LocalPos { x: (p.x - 1) as i32, y: p.y, z: p.z }));
                assert(neighbor_free(p.x - 1, p.y as int, p.z as int, ps));
            } else if p.x == n - 1 {
                assert(!cube_set(n).contains(LocalPos { x: (p.x + 1) as i32, y: p.y, z: p.z }));
                assert(neighbor_free(p.x + 1, p.y as int, p.z as int, ps));
            } else if p.y == 0 {
                assert(!cube_set(n).contains(LocalPos { x: p.x, y: (p.y - 1) as i32, z: p.z }));
                assert(neighbor_free(p.x as int, p.y - 1, p.z as int, ps));
            } else if p.y == n - 1 {
                assert(!cube_set(n).contains(LocalPos { x: p.x, y: (p.y + 1) as i32, z: p.z }));
                assert(neighbor_free(p.x as int, p.y + 1, p.z as int, ps));
            } else if p.z == 0 {
                assert(!cube_set(n).contains(LocalPos { x: p.x, y: p.y, z: (p.z - 1) as i32 }));
                assert(neighbor_free(p.x as int, p.y as int, p.z - 1, ps));
            } else {
                assert(!cube_set(n).contains(LocalPos { x: p.x, y: p.y, z: (p.z + 1) as i32 }));
                assert(neighbor_free(p.x as int, p.y as int, p.z + 1, ps));
            }
            assert(exposed(p, ps));
        } else {
            // Interior voxel: all six neighbors are inside both the chunk
            // and the full cube, so none is free.
            assert(0 < p.x < n - 1 && 0 < p.y < n - 1 && 0 < p.z < n - 1);
            assert(cube_set(n).contains(LocalPos { x: (p.x + 1) as i32, y: p.y, z: p.z }));
            assert(cube_set(n).contains(LocalPos { x: (p.x - 1) as i32, y: p.y, z: p.z }));
            assert(cube_set(n).contains(LocalPos { x: p.x, y: (p.y + 1) as i32, z: p.z }));
            assert(cube_set(n).contains(LocalPos { x: p.x, y: (p.y - 1) as i32, z: p.z }));
            assert(cube_set(n).contains(LocalPos { x: p.x, y: p.y, z: (p.z + 1) as i32 }));
            assert(cube_set(n).contains(LocalPos { x: p.x, y: p.y, z: (p.z - 1) as i32 }));
            assert(!exposed(p, ps));
        }
    }
}

/// The level-of-detail configuration: `(distance_threshold, scale_factor)`
/// pairs, ascending by threshold. A chunk is assigned the index of the first
/// threshold at or beyond its camera distance; the scale factor is reserved
/// for mesh simplification and is not consumed by the pipeline itself.
pub struct LodSettings {
    pub distances: Vec<(i64, i64)>,
}

impl Default for LodSettings {
    /// The stock configuration: thresholds at 0, 50 and 100 world units.
    fn default() -> (r: Self)
        ensures
            r.distances@ == seq![(0i64, 1i64), (50i64, 2i64), (100i64, 4i64)],
    {
        let mut distances: Vec<(i64, i64)> = Vec::new();
        distances.push((0, 1));
        distances.push((50, 2));
        distances.push((100, 4));
        proof {
            assert(distances@ =~= seq![(0i64, 1i64), (50i64, 2i64), (100i64, 4i64)]);
        }
        LodSettings { distances }
    }
}

} // verus!

//! The world registry: owns the mapping from chunk coordinate to chunk,
//! provides coordinate-space conversions, world-space voxel access, and
//! neighbor resolution. A coordinate maps to at most one chunk; chunks
//! enter only through registration and leave only through explicit
//! removal.

use vstd::prelude::*;
use vstd::arithmetic::div_mod::{
    lemma_div_is_ordered, lemma_div_multiples_vanish, lemma_fundamental_div_mod_converse,
    lemma_mod_bound,
};
use crate::pos::{Vec3i, dist_sq};
use crate::voxel::VoxelType;
use crate::voxel_map::{VoxelMap, CHUNK_SIZE_I32};
use crate::chunk::{Chunk, NeighborSet, CHUNK_COORD_MIN, CHUNK_COORD_MAX};
use crate::face::{VoxelFace, spec_normal, spec_face_of_index};

verus! {

/// The chunk coordinate owning the world-space voxel position
/// `(x, y, z)`: floor division of each axis by the chunk size.
pub open spec fn chunk_coord_of(x: int, y: int, z: int) -> Vec3i {
    Vec3i { x: (x / 32) as i32, y: (y / 32) as i32, z: (z / 32) as i32 }
}

/// The registry of resident chunks, keyed by chunk coordinate.
#[derive(Debug)]
pub struct World {
    pub chunks: Vec<(Vec3i, Chunk)>,
}

impl World {
    /// The coordinate of the chunk stored at registry slot `i`.
    pub open spec fn key_at(self, i: int) -> Vec3i {
        self.chunks[i].0
    }

    /// The chunk stored at registry slot `i`.
    pub open spec fn val_at(self, i: int) -> Chunk {
        self.chunks[i].1
    }

    /// Registry invariant: coordinates are distinct (a coordinate maps to
    /// at most one chunk) and every stored chunk is well-formed.
    pub open spec fn wf(self) -> bool {
        &&& forall|i: int, j: int|
            0 <= i < j < self.chunks.len() ==> #[trigger] self.key_at(i) != #[trigger] self.key_at(
                j,
            )
        &&& forall|i: int|
            0 <= i < self.chunks.len() ==> (#[trigger] self.val_at(i)).wf()
    }

    /// Whether a chunk is registered at this coordinate.
    pub open spec fn resident(self, p: Vec3i) -> bool {
        exists|i: int| 0 <= i < self.chunks.len() && #[trigger] self.key_at(i) == p
    }

    /// The registry slot of the chunk at coordinate `p`.
    pub open spec fn index_of(self, p: Vec3i) -> int {
        choose|i: int| 0 <= i < self.chunks.len() && #[trigger] self.key_at(i) == p
    }

    /// The chunk registered at coordinate `p`.
    pub open spec fn chunk_at(self, p: Vec3i) -> Chunk {
        self.val_at(self.index_of(p))
    }

    /// The voxel of the world at a world-space position: the owning
    /// chunk's cell if that chunk is resident, `Air` otherwise.
    pub open spec fn voxel_at(self, x: int, y: int, z: int) -> VoxelType {
        let cp = chunk_coord_of(x, y, z);
        if self.resident(cp) {
            self.chunk_at(cp).voxels.at(x % 32, y % 32, z % 32)
        } else {
            VoxelType::Air
        }
    }

    /// An empty registry.
    pub fn new() -> (r: World)
        ensures
            r.wf(),
            r.chunks.len() == 0,
            forall|q: Vec3i| !r.resident(q),
    {
        World { chunks: Vec::new() }
    }

    /// Chunk coordinate to the world-space voxel coordinate of the
    /// chunk's origin corner.
    pub fn chunk_to_world_position(position: Vec3i) -> (r: Vec3i)
        requires
            CHUNK_COORD_MIN <= position.x <= CHUNK_COORD_MAX,
            CHUNK_COORD_MIN <= position.y <= CHUNK_COORD_MAX,
            CHUNK_COORD_MIN <= position.z <= CHUNK_COORD_MAX,
        ensures
            r.x == 32 * position.x,
            r.y == 32 * position.y,
            r.z == 32 * position.z,
    {
        Vec3i {
            x: position.x * CHUNK_SIZE_I32,
            y: position.y * CHUNK_SIZE_I32,
            z: position.z * CHUNK_SIZE_I32,
        }
    }

    /// World-space voxel coordinate to owning chunk coordinate: floor
    /// division by the chunk size, so negative coordinates map correctly.
    pub fn world_to_chunk_position(position: Vec3i) -> (r: Vec3i)
        ensures
            r.x == position.x as int / 32,
            r.y == position.y as int / 32,
            r.z == position.z as int / 32,
            r == chunk_coord_of(position.x as int, position.y as int, position.z as int),
    {
        proof {
            lemma_div_range_i32(position.x as int);
            lemma_div_range_i32(position.y as int);
            lemma_div_range_i32(position.z as int);
        }
        Vec3i {
            x: position.x.checked_div_euclid(CHUNK_SIZE_I32).unwrap(),
            y: position.y.checked_div_euclid(CHUNK_SIZE_I32).unwrap(),
            z: position.z.checked_div_euclid(CHUNK_SIZE_I32).unwrap(),
        }
    }

    /// World-space voxel coordinate to the local position inside its
    /// owning chunk: Euclidean remainder, always in `[0, 32)`.
    pub fn world_to_chunk_voxel_position(position: Vec3i) -> (r: Vec3i)
        ensures
            r.x == position.x as int % 32,
            r.y == position.y as int % 32,
            r.z == position.z as int % 32,
    {
        proof {
            lemma_mod_bound(position.x as int, 32);
            lemma_mod_bound(position.y as int, 32);
            lemma_mod_bound(position.z as int, 32);
        }
        Vec3i {
            x: position.x.checked_rem_euclid(CHUNK_SIZE_I32).unwrap(),
            y: position.y.checked_rem_euclid(CHUNK_SIZE_I32).unwrap(),
            z: position.z.checked_rem_euclid(CHUNK_SIZE_I32).unwrap(),
        }
    }

    /// The registered chunks, as (coordinate, chunk) pairs.
    pub fn chunks(&self) -> (r: &Vec<(Vec3i, Chunk)>)
        ensures
            r == &self.chunks,
    {
        &self.chunks
    }

    /// The registry slot holding coordinate `position`, if any.
    fn find_index(&self, position: Vec3i) -> (r: Option<usize>)
        requires
            self.wf(),
        ensures
            r matches Some(i) ==> i < self.chunks.len() && self.key_at(i as int) == position,
            r is None ==> !self.resident(position),
    {
        let n = self.chunks.len();
        let mut i: usize = 0;
        while i < n
            invariant
                i <= n,
                n == self.chunks.len(),
                forall|j: int| 0 <= j < i ==> #[trigger] self.key_at(j) != position,
            decreases n - i,
        {
            if self.chunks[i].0 == position {
                return Some(i);
            }
            i += 1;
        }
        None
    }

    /// Whether a chunk is registered at this coordinate.
    pub fn chunk_exists(&self, position: Vec3i) -> (r: bool)
        requires
            self.wf(),
        ensures
            r == self.resident(position),
    {
        match self.find_index(position) {
            Some(i) => {
                proof {
                    lemma_key_index(*self, i as int);
                }
                true
            },
            None => false,
        }
    }

    /// Register a chunk at a coordinate, inserting or replacing.
    pub fn set_chunk(&mut self, position: Vec3i, chunk: Chunk)
        requires
            old(self).wf(),
            chunk.wf(),
        ensures
            final(self).wf(),
            forall|q: Vec3i| final(self).resident(q) <==> old(self).resident(q) || q == position,
            final(self).chunk_at(position) == chunk,
            forall|q: Vec3i|
                q != position && old(self).resident(q) ==> final(self).chunk_at(q) == old(
                    self,
                ).chunk_at(q),
    {
        let ghost w_old = *self;
        match self.find_index(position) {
            Some(i) => {
                self.chunks.set(i, (position, chunk));
                proof {
                    lemma_update_slot(w_old, *self, i as int, position, chunk);
                }
            },
            None => {
                self.chunks.push((position, chunk));
                proof {
                    lemma_push_slot(w_old, *self, position, chunk);
                }
            },
        }
    }

    /// Drop the chunk registered at a coordinate, if any.
    pub fn remove_chunk(&mut self, position: Vec3i)
        requires
            old(self).wf(),
        ensures
            final(self).wf(),
            forall|q: Vec3i|
                final(self).resident(q) <==> old(self).resident(q) && q != position,
            forall|q: Vec3i|
                q != position && old(self).resident(q) ==> final(self).chunk_at(q) == old(
                    self,
                ).chunk_at(q),
    {
        let ghost w_old = *self;
        match self.find_index(position) {
            Some(i) => {
                self.chunks.remove(i);
                proof {
                    lemma_remove_slot(w_old, *self, i as int, position);
                }
            },
            None => {},
        }
    }

    /// The chunk registered at a coordinate; a distinguished "not found"
    /// for an unregistered coordinate, distinct from a resident chunk with
    /// default content.
    pub fn get_chunk(&self, position: Vec3i) -> (r: Option<&Chunk>)
        requires
            self.wf(),
        ensures
            match r {
                Some(c) => self.resident(position) && *c == self.chunk_at(position),
                None => !self.resident(position),
            },
    {
        match self.find_index(position) {
            Some(i) => {
                proof {
                    lemma_key_index(*self, i as int);
                }
                Some(&self.chunks[i].1)
            },
            None => None,
        }
    }
}

/// The coordinate of the chunk one step from `p` in face direction `d`.
pub open spec fn neighbor_coord(p: Vec3i, d: int) -> Vec3i {
    let n = spec_normal(spec_face_of_index(d));
    Vec3i { x: (p.x + n.x) as i32, y: (p.y + n.y) as i32, z: (p.z + n.z) as i32 }
}

/// Whether two optional grids hold the same cells (or are both absent).
pub open spec fn grid_like(a: Option<VoxelMap>, b: Option<VoxelMap>) -> bool {
    match (a, b) {
        (Some(x), Some(y)) => x.data@ == y.data@,
        (None, None) => true,
        _ => false,
    }
}

/// What a freshly resolved neighbor set of coordinate `p` holds in world
/// `w`: the grid of each resident axis neighbor, nothing for the others.
pub open spec fn neighbors_resolved(w: World, p: Vec3i, ns: NeighborSet) -> bool {
    &&& ns.wf()
    &&& forall|d: int|
        0 <= d < 6 ==> grid_like(
            #[trigger] ns.slot(d),
            if w.resident(neighbor_coord(p, d)) {
                Some(w.chunk_at(neighbor_coord(p, d)).voxels)
            } else {
                Option::<VoxelMap>::None
            },
        )
}

impl World {
    /// The voxel of the world at a world-space position; `Air` when the
    /// owning chunk is not resident.
    pub fn get_voxel(&self, position: Vec3i) -> (r: VoxelType)
        requires
            self.wf(),
        ensures
            r == self.voxel_at(position.x as int, position.y as int, position.z as int),
    {
        let chunk_position = World::world_to_chunk_position(position);
        let voxel_position = World::world_to_chunk_voxel_position(position);
        match self.get_chunk(chunk_position) {
            Some(chunk) => chunk.get_voxel(voxel_position),
            None => VoxelType::Air,
        }
    }

    /// Overwrite the voxel at a world-space position and mark the owning
    /// chunk and its axis neighbors as needing a remesh; dropped silently
    /// when the owning chunk is not resident.
    pub fn set_voxel(&mut self, voxel_type: VoxelType, position: Vec3i)
        requires
            old(self).wf(),
        ensures
            final(self).wf(),
            forall|q: Vec3i| final(self).resident(q) == old(self).resident(q),
            forall|p: Vec3i|
                #[trigger] final(self).voxel_at(p.x as int, p.y as int, p.z as int) == if p
                    == position && old(self).resident(
                    chunk_coord_of(position.x as int, position.y as int, position.z as int),
                ) {
                    voxel_type
                } else {
                    old(self).voxel_at(p.x as int, p.y as int, p.z as int)
                },
            forall|q: Vec3i|
                old(self).resident(q) ==> {
                    let cp = chunk_coord_of(position.x as int, position.y as int, position.z as int);
                    &&& final(self).chunk_at(q).world_position == old(self).chunk_at(
                        q,
                    ).world_position
                    &&& final(self).chunk_at(q).neighbors == old(self).chunk_at(q).neighbors
                    &&& final(self).chunk_at(q).should_regenerate_mesh == (old(self).chunk_at(
                        q,
                    ).should_regenerate_mesh || (old(self).resident(cp) && dist_sq(q, cp) <= 1))
                },
    {
        let chunk_position = World::world_to_chunk_position(position);
        let voxel_position = World::world_to_chunk_voxel_position(position);
        let ghost w_old = *self;
        match self.find_index(chunk_position) {
            Some(i) => {
                proof {
                    lemma_key_index(*self, i as int);
                }
                let (key, mut chunk) = self.chunks.remove(i);
                chunk.set_voxel(voxel_type, voxel_position);
                self.chunks.insert(i, (key, chunk));
                proof {
                    assert(self.chunks@ =~= w_old.chunks@.update(
                        i as int,
                        (chunk_position, chunk),
                    ));
                    lemma_update_slot(w_old, *self, i as int, chunk_position, chunk);
                    lemma_set_voxel_world(
                        w_old,
                        *self,
                        chunk_position,
                        voxel_type,
                        position.x as int,
                        position.y as int,
                        position.z as int,
                    );
                }
                let ghost w_mid = *self;
                self.mark_dirty_around(chunk_position);
                proof {
                    lemma_voxels_preserved_by_flags(w_mid, *self);
                }
            },
            None => {},
        }
    }

    /// Flag every resident chunk at or adjacent to the given chunk
    /// coordinate (its own cell and the six axis neighbors) as needing a
    /// remesh. Nothing else changes.
    pub fn mark_dirty_around(&mut self, position: Vec3i)
        requires
            old(self).wf(),
        ensures
            final(self).wf(),
            forall|q: Vec3i| final(self).resident(q) == old(self).resident(q),
            forall|q: Vec3i|
                old(self).resident(q) ==> {
                    &&& final(self).chunk_at(q).voxels == old(self).chunk_at(q).voxels
                    &&& final(self).chunk_at(q).world_position == old(self).chunk_at(
                        q,
                    ).world_position
                    &&& final(self).chunk_at(q).neighbors == old(self).chunk_at(q).neighbors
                    &&& final(self).chunk_at(q).should_regenerate_mesh == (old(self).chunk_at(
                        q,
                    ).should_regenerate_mesh || dist_sq(q, position) <= 1)
                },
    {
        let n = self.chunks.len();
        let ghost w_old = *self;
        let mut i: usize = 0;
        while i < n
            invariant
                i <= n,
                n == self.chunks.len(),
                n == w_old.chunks.len(),
                w_old.wf(),
                self.wf(),
                forall|k: int| 0 <= k < n ==> #[trigger] self.key_at(k) == w_old.key_at(k),
                forall|k: int|
                    0 <= k < n ==> {
                        &&& (#[trigger] self.val_at(k)).voxels == w_old.val_at(k).voxels
                        &&& self.val_at(k).world_position == w_old.val_at(k).world_position
                        &&& self.val_at(k).neighbors == w_old.val_at(k).neighbors
                    },
                forall|k: int|
                    0 <= k < i ==> (#[trigger] self.val_at(k)).should_regenerate_mesh == (
                    w_old.val_at(k).should_regenerate_mesh || dist_sq(w_old.key_at(k), position)
                        <= 1),
                forall|k: int|
                    i <= k < n ==> (#[trigger] self.val_at(k)).should_regenerate_mesh == w_old.val_at(
                        k,
                    ).should_regenerate_mesh,
            decreases n - i,
        {
            let key = self.chunks[i].0;
            let d = crate::pos::distance_squared(key, position);
            if d <= 1 {
                let ghost w_before = *self;
                proof {
                    assert(w_before.wf());
                    assert(forall|k: int|
                        0 <= k < n ==> #[trigger] w_before.key_at(k) == w_old.key_at(k));
                    assert(forall|k: int|
                        0 <= k < n ==> {
                            &&& (#[trigger] w_before.val_at(k)).voxels == w_old.val_at(k).voxels
                            &&& w_before.val_at(k).world_position == w_old.val_at(
                                k,
                            ).world_position
                            &&& w_before.val_at(k).neighbors == w_old.val_at(k).neighbors
                        });
                    assert(forall|k: int|
                        0 <= k < i ==> (#[trigger] w_before.val_at(k)).should_regenerate_mesh == (
                        w_old.val_at(k).should_regenerate_mesh || dist_sq(w_old.key_at(k), position)
                            <= 1));
                    assert(forall|k: int|
                        i <= k < n ==> (#[trigger] w_before.val_at(k)).should_regenerate_mesh
                            == w_old.val_at(k).should_regenerate_mesh);
                }
                let (k2, mut chunk) = self.chunks.remove(i);
                chunk.should_regenerate_mesh = true;
                self.chunks.insert(i, (k2, chunk));
                proof {
                    assert(k2 == w_before.key_at(i as int));
                    assert(self.chunks@ =~= w_before.chunks@.update(i as int, (k2, chunk)));
                    assert forall|k: int| 0 <= k < n implies #[trigger] self.key_at(k)
                        == w_old.key_at(k) by {
                        if k != i {
                            assert(self.chunks@[k] == w_before.chunks@[k]);
                        }
                        assert(w_before.key_at(k) == w_old.key_at(k));
                    }
                    assert forall|k: int|
                        0 <= k < n implies {
                        &&& (#[trigger] self.val_at(k)).voxels == w_old.val_at(k).voxels
                        &&& self.val_at(k).world_position == w_old.val_at(k).world_position
                        &&& self.val_at(k).neighbors == w_old.val_at(k).neighbors
                        &&& self.val_at(k).wf()
                    } by {
                        if k != i {
                            assert(self.chunks@[k] == w_before.chunks@[k]);
                        } else {
                            assert(self.val_at(k) == chunk);
                            assert(chunk.voxels == w_before.val_at(k).voxels);
                        }
                        assert(w_before.val_at(k).wf());
                        assert(w_before.val_at(k).voxels == w_old.val_at(k).voxels);
                        assert(w_before.val_at(k).world_position == w_old.val_at(
                            k,
                        ).world_position);
                        assert(w_before.val_at(k).neighbors == w_old.val_at(k).neighbors);
                    }
                    assert forall|a: int, b: int|
                        0 <= a < b < n implies #[trigger] self.key_at(a) != #[trigger] self.key_at(
                        b,
                    ) by {
                        assert(self.key_at(a) == w_old.key_at(a));
                        assert(self.key_at(b) == w_old.key_at(b));
                    }
                    assert forall|k: int|
                        0 <= k <= i implies (#[trigger] self.val_at(k)).should_regenerate_mesh == (
                        w_old.val_at(k).should_regenerate_mesh || dist_sq(w_old.key_at(k), position)
                            <= 1) by {
                        if k < i {
                            assert(self.chunks@[k] == w_before.chunks@[k]);
                            assert(self.val_at(k) == w_before.val_at(k));
                            assert(w_before.val_at(k).should_regenerate_mesh == (w_old.val_at(
                                k,
                            ).should_regenerate_mesh || dist_sq(w_old.key_at(k), position) <= 1));
                        } else {
                            assert(self.val_at(k) == chunk);
                            assert(w_before.key_at(k) == w_old.key_at(k));
                            assert(dist_sq(w_old.key_at(k), position) <= 1);
                        }
                    }
                    assert forall|k: int|
                        i + 1 <= k < n implies (#[trigger] self.val_at(k)).should_regenerate_mesh
                        == w_old.val_at(k).should_regenerate_mesh by {
                        assert(self.chunks@[k] == w_before.chunks@[k]);
                        assert(self.val_at(k) == w_before.val_at(k));
                        assert(w_before.val_at(k).should_regenerate_mesh == w_old.val_at(
                            k,
                        ).should_regenerate_mesh);
                    }
                }
            } else {
                proof {
                    assert(self.key_at(i as int) == w_old.key_at(i as int));
                    assert(dist_sq(w_old.key_at(i as int), position) > 1);
                    assert((#[trigger] self.val_at(i as int)).should_regenerate_mesh == w_old.val_at(
                        i as int,
                    ).should_regenerate_mesh);
                }
            }
            i += 1;
        }
        proof {
            lemma_keys_unchanged(w_old, *self);
            assert forall|q: Vec3i| old(self).resident(q) implies {
                &&& final(self).chunk_at(q).voxels == old(self).chunk_at(q).voxels
                &&& final(self).chunk_at(q).world_position == old(self).chunk_at(q).world_position
                &&& final(self).chunk_at(q).neighbors == old(self).chunk_at(q).neighbors
                &&& final(self).chunk_at(q).should_regenerate_mesh == (old(self).chunk_at(
                    q,
                ).should_regenerate_mesh || dist_sq(q, position) <= 1)
            } by {
                let k = w_old.index_of(q);
                lemma_key_index(w_old, k);
                lemma_key_index(*self, k);
            }
        }
    }

    /// Resolve the six axis neighbors of a chunk coordinate through the
    /// registry: the grid of each resident neighbor, nothing for a missing
    /// one.
    pub fn get_chunk_neighbors(&self, position: Vec3i) -> (r: NeighborSet)
        requires
            self.wf(),
            CHUNK_COORD_MIN <= position.x <= CHUNK_COORD_MAX,
            CHUNK_COORD_MIN <= position.y <= CHUNK_COORD_MAX,
            CHUNK_COORD_MIN <= position.z <= CHUNK_COORD_MAX,
        ensures
            neighbors_resolved(*self, position, r),
    {
        let mut grids: Vec<Option<VoxelMap>> = Vec::new();
        let mut d: usize = 0;
        while d < 6
            invariant
                d <= 6,
                self.wf(),
                CHUNK_COORD_MIN <= position.x <= CHUNK_COORD_MAX,
                CHUNK_COORD_MIN <= position.y <= CHUNK_COORD_MAX,
                CHUNK_COORD_MIN <= position.z <= CHUNK_COORD_MAX,
                grids.len() == d,
                forall|e: int|
                    0 <= e < d ==> grid_like(
                        #[trigger] grids[e],
                        if self.resident(neighbor_coord(position, e)) {
                            Some(self.chunk_at(neighbor_coord(position, e)).voxels)
                        } else {
                            Option::<VoxelMap>::None
                        },
                    ),
            decreases 6 - d,
        {
            let face = VoxelFace::from_index(d);
            let normal = face.normal();
            let np = position.offset(normal);
            match self.get_chunk(np) {
                Some(chunk) => {
                    grids.push(Some(chunk.voxels.snapshot()));
                },
                None => {
                    grids.push(None);
                },
            }
            d += 1;
        }
        NeighborSet { grids }
    }

    /// Recompute and store the neighbor set of the chunk at a coordinate;
    /// a no-op when that coordinate is not resident.
    pub fn update_chunk_neighbors(&mut self, position: Vec3i)
        requires
            old(self).wf(),
            CHUNK_COORD_MIN <= position.x <= CHUNK_COORD_MAX,
            CHUNK_COORD_MIN <= position.y <= CHUNK_COORD_MAX,
            CHUNK_COORD_MIN <= position.z <= CHUNK_COORD_MAX,
        ensures
            final(self).wf(),
            forall|q: Vec3i| final(self).resident(q) == old(self).resident(q),
            forall|q: Vec3i|
                q != position && old(self).resident(q) ==> final(self).chunk_at(q) == old(
                    self,
                ).chunk_at(q),
            old(self).resident(position) ==> {
                &&& final(self).chunk_at(position).voxels == old(self).chunk_at(position).voxels
                &&& final(self).chunk_at(position).world_position == old(self).chunk_at(
                    position,
                ).world_position
                &&& final(self).chunk_at(position).should_regenerate_mesh == old(self).chunk_at(
                    position,
                ).should_regenerate_mesh
                &&& neighbors_resolved(*old(self), position, final(self).chunk_at(position).neighbors)
            },
    {
        let neighbors = self.get_chunk_neighbors(position);
        let ghost w_old = *self;
        match self.find_index(position) {
            Some(i) => {
                proof {
                    lemma_key_index(*self, i as int);
                }
                let (key, mut chunk) = self.chunks.remove(i);
                chunk.neighbors = neighbors;
                self.chunks.insert(i, (key, chunk));
                proof {
                    assert(self.chunks@ =~= w_old.chunks@.update(i as int, (position, chunk)));
                    lemma_update_slot(w_old, *self, i as int, position, chunk);
                }
            },
            None => {},
        }
    }

    /// Clear the "needs remesh" flag of the chunk at a coordinate, after
    /// its mesh was rebuilt; a no-op when the coordinate is not resident.
    pub fn clear_regenerate_mesh_flag(&mut self, position: Vec3i)
        requires
            old(self).wf(),
        ensures
            final(self).wf(),
            forall|q: Vec3i| final(self).resident(q) == old(self).resident(q),
            forall|q: Vec3i|
                q != position && old(self).resident(q) ==> final(self).chunk_at(q) == old(
                    self,
                ).chunk_at(q),
            old(self).resident(position) ==> final(self).chunk_at(position) == (Chunk {
                should_regenerate_mesh: false,
                ..old(self).chunk_at(position)
            }),
    {
        let ghost w_old = *self;
        match self.find_index(position) {
            Some(i) => {
                proof {
                    lemma_key_index(*self, i as int);
                }
                let (key, mut chunk) = self.chunks.remove(i);
                chunk.should_regenerate_mesh = false;
                self.chunks.insert(i, (key, chunk));
                proof {
                    assert(self.chunks@ =~= w_old.chunks@.update(i as int, (position, chunk)));
                    lemma_update_slot(w_old, *self, i as int, position, chunk);
                }
            },
            None => {},
        }
    }
}

impl Default for World {
    /// An empty registry.
    fn default() -> (r: World)
        ensures
            r.wf(),
            r.chunks.len() == 0,
    {
        World::new()
    }
}

/// When only one chunk's cells changed, and only at one local position,
/// the world-level voxel field changes only at the corresponding
/// world-space position.
proof fn lemma_set_voxel_world(
    w_old: World,
    w_new: World,
    cp: Vec3i,
    voxel_type: VoxelType,
    px: int,
    py: int,
    pz: int,
)
    requires
        w_old.wf(),
        w_new.wf(),
        i32::MIN <= px <= i32::MAX,
        i32::MIN <= py <= i32::MAX,
        i32::MIN <= pz <= i32::MAX,
        cp == chunk_coord_of(px, py, pz),
        w_old.resident(cp),
        forall|q: Vec3i| w_new.resident(q) <==> w_old.resident(q) || q == cp,
        forall|q: Vec3i| q != cp && w_old.resident(q) ==> w_new.chunk_at(q) == w_old.chunk_at(q),
        forall|x: int, y: int, z: int|
            w_new.chunk_at(cp).voxels.at(x, y, z) == if crate::voxel_map::in_chunk(x, y, z) && x
                == px % 32 && y == py % 32 && z == pz % 32 {
                voxel_type
            } else {
                w_old.chunk_at(cp).voxels.at(x, y, z)
            },
    ensures
        forall|p: Vec3i|
            #[trigger] w_new.voxel_at(p.x as int, p.y as int, p.z as int) == if p.x == px && p.y
                == py && p.z == pz {
                voxel_type
            } else {
                w_old.voxel_at(p.x as int, p.y as int, p.z as int)
            },
{
    vstd::arithmetic::div_mod::lemma_fundamental_div_mod(px, 32);
    lemma_mod_bound(px, 32);
    lemma_mod_bound(py, 32);
    lemma_mod_bound(pz, 32);
    assert forall|p: Vec3i|
        #[trigger] w_new.voxel_at(p.x as int, p.y as int, p.z as int) == if p.x == px && p.y == py
            && p.z == pz {
            voxel_type
        } else {
            w_old.voxel_at(p.x as int, p.y as int, p.z as int)
        } by {
        let x = p.x as int;
        let y = p.y as int;
        let z = p.z as int;
        let c2 = chunk_coord_of(x, y, z);
        lemma_mod_bound(x, 32);
        lemma_mod_bound(y, 32);
        lemma_mod_bound(z, 32);
        if c2 == cp {
            if x == px && y == py && z == pz {
            } else {
                lemma_div_range_i32(x);
                lemma_div_range_i32(y);
                lemma_div_range_i32(z);
                lemma_div_range_i32(px);
                lemma_div_range_i32(py);
                lemma_div_range_i32(pz);
                assert(x / 32 == px / 32 && y / 32 == py / 32 && z / 32 == pz / 32);
                vstd::arithmetic::div_mod::lemma_fundamental_div_mod(x, 32);
                vstd::arithmetic::div_mod::lemma_fundamental_div_mod(y, 32);
                vstd::arithmetic::div_mod::lemma_fundamental_div_mod(z, 32);
                vstd::arithmetic::div_mod::lemma_fundamental_div_mod(px, 32);
                vstd::arithmetic::div_mod::lemma_fundamental_div_mod(py, 32);
                vstd::arithmetic::div_mod::lemma_fundamental_div_mod(pz, 32);
                assert(!(x % 32 == px % 32 && y % 32 == py % 32 && z % 32 == pz % 32));
            }
        }
    }
}

/// Changing only "needs remesh" flags changes no voxel anywhere.
proof fn lemma_voxels_preserved_by_flags(w_mid: World, w_new: World)
    requires
        w_mid.wf(),
        w_new.wf(),
        forall|q: Vec3i| w_new.resident(q) == w_mid.resident(q),
        forall|q: Vec3i|
            w_mid.resident(q) ==> (#[trigger] w_new.chunk_at(q)).voxels == w_mid.chunk_at(
                q,
            ).voxels,
    ensures
        forall|x: int, y: int, z: int|
            #[trigger] w_new.voxel_at(x, y, z) == w_mid.voxel_at(x, y, z),
{
    assert forall|x: int, y: int, z: int|
        #[trigger] w_new.voxel_at(x, y, z) == w_mid.voxel_at(x, y, z) by {
        let c2 = chunk_coord_of(x, y, z);
        if w_mid.resident(c2) {
            assert(w_new.chunk_at(c2).voxels == w_mid.chunk_at(c2).voxels);
        }
    }
}

/// Worlds with the same keys slot for slot have the same residents at the
/// same slots.
proof fn lemma_keys_unchanged(w_old: World, w_new: World)
    requires
        w_old.wf(),
        w_new.wf(),
        w_new.chunks.len() == w_old.chunks.len(),
        forall|k: int|
            0 <= k < w_old.chunks.len() ==> #[trigger] w_new.key_at(k) == w_old.key_at(k),
    ensures
        forall|q: Vec3i| w_new.resident(q) == w_old.resident(q),
        forall|q: Vec3i|
            w_old.resident(q) ==> #[trigger] w_new.index_of(q) == w_old.index_of(q),
{
    assert forall|q: Vec3i| w_new.resident(q) == w_old.resident(q) by {
        if w_old.resident(q) {
            let k = w_old.index_of(q);
            assert(w_new.key_at(k) == q);
            assert(w_new.resident(q));
        }
        if w_new.resident(q) {
            let k = w_new.index_of(q);
            assert(w_old.key_at(k) == q);
            assert(w_old.resident(q));
        }
    }
    assert forall|q: Vec3i| w_old.resident(q) implies #[trigger] w_new.index_of(q) == w_old.index_of(
        q,
    ) by {
        let k = w_old.index_of(q);
        lemma_key_index(w_old, k);
        assert(w_new.key_at(k) == q);
        lemma_key_index(w_new, k);
    }
}

/// A slot's key is resident and is found at exactly that slot.
pub proof fn lemma_key_index(w: World, i: int)
    requires
        w.wf(),
        0 <= i < w.chunks.len(),
    ensures
        w.resident(w.key_at(i)),
        w.index_of(w.key_at(i)) == i,
        w.chunk_at(w.key_at(i)) == w.val_at(i),
{
    let p = w.key_at(i);
    assert(w.resident(p));
    let j = w.index_of(p);
    assert(0 <= j < w.chunks.len() && w.key_at(j) == p);
    if i < j {
        assert(w.key_at(i) != w.key_at(j));
    } else if j < i {
        assert(w.key_at(j) != w.key_at(i));
    }
}

/// Replacing the slot that already held `position` keeps all other
/// residency and content.
proof fn lemma_update_slot(w_old: World, w_new: World, i: int, position: Vec3i, chunk: Chunk)
    requires
        w_old.wf(),
        chunk.wf(),
        0 <= i < w_old.chunks.len(),
        w_old.key_at(i) == position,
        w_new.chunks@ == w_old.chunks@.update(i, (position, chunk)),
    ensures
        w_new.wf(),
        forall|q: Vec3i| w_new.resident(q) <==> w_old.resident(q) || q == position,
        w_new.chunk_at(position) == chunk,
        forall|q: Vec3i|
            q != position && w_old.resident(q) ==> w_new.chunk_at(q) == w_old.chunk_at(q),
{
    assert(forall|k: int|
        0 <= k < w_new.chunks.len() ==> #[trigger] w_new.key_at(k) == w_old.key_at(k));
    assert forall|k: int| 0 <= k < w_new.chunks.len() implies (#[trigger] w_new.val_at(k)).wf() by {
        if k != i {
            assert(w_new.val_at(k) == w_old.val_at(k));
        } else {
            assert(w_new.val_at(k) == chunk);
        }
    }
    assert(w_new.wf());
    assert forall|q: Vec3i| w_new.resident(q) <==> w_old.resident(q) || q == position by {
        if w_old.resident(q) {
            let k = w_old.index_of(q);
            assert(w_new.key_at(k) == q);
            assert(w_new.resident(q));
        }
        if q == position {
            assert(w_new.key_at(i) == q);
            assert(w_new.resident(q));
        }
        if w_new.resident(q) {
            let k = w_new.index_of(q);
            assert(w_old.key_at(k) == q);
            assert(w_old.resident(q));
        }
    }
    lemma_key_index(w_new, i);
    assert forall|q: Vec3i|
        q != position && w_old.resident(q) implies w_new.chunk_at(q) == w_old.chunk_at(q) by {
        let k = w_old.index_of(q);
        lemma_key_index(w_old, k);
        assert(k != i);
        assert(w_new.key_at(k) == q && w_new.val_at(k) == w_old.val_at(k));
        lemma_key_index(w_new, k);
    }
}

/// Appending a coordinate that was not resident registers exactly it.
proof fn lemma_push_slot(w_old: World, w_new: World, position: Vec3i, chunk: Chunk)
    requires
        w_old.wf(),
        chunk.wf(),
        !w_old.resident(position),
        w_new.chunks@ == w_old.chunks@.push((position, chunk)),
    ensures
        w_new.wf(),
        forall|q: Vec3i| w_new.resident(q) <==> w_old.resident(q) || q == position,
        w_new.chunk_at(position) == chunk,
        forall|q: Vec3i|
            q != position && w_old.resident(q) ==> w_new.chunk_at(q) == w_old.chunk_at(q),
{
    let n = w_old.chunks.len() as int;
    assert(forall|k: int| 0 <= k < n ==> #[trigger] w_new.key_at(k) == w_old.key_at(k));
    assert(w_new.key_at(n) == position && w_new.val_at(n) == chunk);
    assert forall|k: int| 0 <= k < n implies #[trigger] w_new.key_at(k) != position by {
        if w_new.key_at(k) == position {
            assert(w_old.key_at(k) == position);
            assert(w_old.resident(position));
        }
    }
    assert forall|a: int, b: int|
        0 <= a < b < w_new.chunks.len() implies #[trigger] w_new.key_at(a)
        != #[trigger] w_new.key_at(b) by {
        if b < n {
            assert(w_old.key_at(a) != w_old.key_at(b));
        } else {
            assert(w_new.key_at(a) != position);
        }
    }
    assert forall|k: int| 0 <= k < w_new.chunks.len() implies (#[trigger] w_new.val_at(k)).wf() by {
        if k < n {
            assert(w_new.val_at(k) == w_old.val_at(k));
        }
    }
    assert(w_new.wf());
    assert forall|q: Vec3i| w_new.resident(q) <==> w_old.resident(q) || q == position by {
        if w_old.resident(q) {
            let k = w_old.index_of(q);
            assert(w_new.key_at(k) == q);
            assert(w_new.resident(q));
        }
        if q == position {
            assert(w_new.key_at(n) == q);
            assert(w_new.resident(q));
        }
        if w_new.resident(q) && q != position {
            let k = w_new.index_of(q);
            assert(k < n);
            assert(w_old.key_at(k) == q);
            assert(w_old.resident(q));
        }
    }
    lemma_key_index(w_new, n);
    assert forall|q: Vec3i|
        q != position && w_old.resident(q) implies w_new.chunk_at(q) == w_old.chunk_at(q) by {
        let k = w_old.index_of(q);
        lemma_key_index(w_old, k);
        assert(w_new.key_at(k) == q && w_new.val_at(k) == w_old.val_at(k));
        lemma_key_index(w_new, k);
    }
}

/// Removing the slot that held `position` keeps all other residency and
/// content.
proof fn lemma_remove_slot(w_old: World, w_new: World, i: int, position: Vec3i)
    requires
        w_old.wf(),
        0 <= i < w_old.chunks.len(),
        w_old.key_at(i) == position,
        w_new.chunks@ == w_old.chunks@.remove(i),
    ensures
        w_new.wf(),
        forall|q: Vec3i| w_new.resident(q) <==> w_old.resident(q) && q != position,
        forall|q: Vec3i|
            q != position && w_old.resident(q) ==> w_new.chunk_at(q) == w_old.chunk_at(q),
{
    let n = w_old.chunks.len() as int;
    assert(w_new.chunks.len() == n - 1);
    assert(forall|k: int| 0 <= k < i ==> #[trigger] w_new.key_at(k) == w_old.key_at(k));
    assert(forall|k: int|
        i <= k < n - 1 ==> #[trigger] w_new.key_at(k) == w_old.key_at(k + 1));
    assert(forall|k: int| 0 <= k < i ==> #[trigger] w_new.val_at(k) == w_old.val_at(k));
    assert(forall|k: int|
        i <= k < n - 1 ==> #[trigger] w_new.val_at(k) == w_old.val_at(k + 1));
    assert forall|a: int, b: int|
        0 <= a < b < w_new.chunks.len() implies #[trigger] w_new.key_at(a) != #[trigger] w_new.key_at(
        b,
    ) by {
        let a_old = if a < i {
            a
        } else {
            a + 1
        };
        let b_old = if b < i {
            b
        } else {
            b + 1
        };
        assert(w_old.key_at(a_old) != w_old.key_at(b_old));
    }
    assert forall|k: int| 0 <= k < w_new.chunks.len() implies (#[trigger] w_new.val_at(k)).wf() by {
        if k < i {
            assert(w_new.val_at(k) == w_old.val_at(k));
        } else {
            assert(w_new.val_at(k) == w_old.val_at(k + 1));
        }
    }
    assert(w_new.wf());
    assert forall|q: Vec3i| w_new.resident(q) <==> w_old.resident(q) && q != position by {
        if w_old.resident(q) && q != position {
            let k = w_old.index_of(q);
            assert(k != i);
            if k < i {
                assert(w_new.key_at(k) == q);
            } else {
                assert(w_new.key_at(k - 1) == q);
            }
            assert(w_new.resident(q));
        }
        if w_new.resident(q) {
            let k = w_new.index_of(q);
            let k_old = if k < i {
                k
            } else {
                k + 1
            };
            assert(w_old.key_at(k_old) == q);
            assert(w_old.resident(q));
            lemma_key_index(w_old, i);
            if q == position {
                lemma_key_index(w_old, k_old);
            }
        }
    }
    assert forall|q: Vec3i|
        q != position && w_old.resident(q) implies w_new.chunk_at(q) == w_old.chunk_at(q) by {
        let k = w_old.index_of(q);
        lemma_key_index(w_old, k);
        assert(k != i);
        let k_new = if k < i {
            k
        } else {
            k - 1
        };
        assert(w_new.key_at(k_new) == q && w_new.val_at(k_new) == w_old.val_at(k));
        lemma_key_index(w_new, k_new);
    }
}

/// Floor-dividing any `i32` by the chunk size stays within `i32`.
proof fn lemma_div_range_i32(x: int)
    requires
        i32::MIN <= x <= i32::MAX,
    ensures
        i32::MIN <= x / 32 <= i32::MAX,
{
    lemma_fundamental_div_mod_converse(-2147483648, 32, -67108864, 0);
    lemma_fundamental_div_mod_converse(2147483647, 32, 67108863, 31);
    lemma_div_is_ordered(-2147483648, x, 32);
    lemma_div_is_ordered(x, 2147483647, 32);
}

/// Converting a chunk coordinate to its world-space origin and back
/// returns the same chunk coordinate.
pub proof fn lemma_world_chunk_round_trip(c: Vec3i, w: Vec3i)
    requires
        w.x == 32 * c.x,
        w.y == 32 * c.y,
        w.z == 32 * c.z,
    ensures
        w.x as int / 32 == c.x,
        w.y as int / 32 == c.y,
        w.z as int / 32 == c.z,
{
    lemma_div_multiples_vanish(c.x as int, 32);
    lemma_div_multiples_vanish(c.y as int, 32);
    lemma_div_multiples_vanish(c.z as int, 32);
}

} // verus!


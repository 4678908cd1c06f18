//! One chunk: a voxel grid at an integer chunk coordinate, a set of up to
//! six non-owning neighbor views (one per axis direction, resolved through
//! the registry), and a "mesh is stale" flag.

use vstd::prelude::*;
use crate::pos::Vec3i;
use crate::voxel::VoxelType;
use crate::voxel_map::{VoxelMap, VoxelIterator, in_chunk, in_chunk_pos, CHUNK_SIZE_I32,
    CHUNK_SIZE};

verus! {

/// Chunk coordinates whose world-space voxel positions stay inside `i32`.
pub const CHUNK_COORD_MIN: i32 = -67108864;

pub const CHUNK_COORD_MAX: i32 = 67108863;

/// Which side of the chunk cube a coordinate overflows: `-1` below,
/// `1` at or above the chunk size, `0` inside.
pub open spec fn spec_wrap(x: int) -> int {
    if x < 0 {
        -1
    } else if x >= 32 {
        1
    } else {
        0
    }
}

/// Which side of the chunk cube a coordinate overflows.
pub fn wrap_position(x: i32) -> (r: i32)
    ensures
        r == spec_wrap(x as int),
{
    if x < 0 {
        -1
    } else if x >= CHUNK_SIZE_I32 {
        1
    } else {
        0
    }
}

/// The face-order index of the axis direction `(wx, wy, wz)`, or `-1` when
/// the offset is not one of the six axis directions.
pub open spec fn spec_face_dir(wx: int, wy: int, wz: int) -> int {
    if wx == -1 && wy == 0 && wz == 0 {
        0
    } else if wx == 1 && wy == 0 && wz == 0 {
        1
    } else if wx == 0 && wy == -1 && wz == 0 {
        2
    } else if wx == 0 && wy == 1 && wz == 0 {
        3
    } else if wx == 0 && wy == 0 && wz == -1 {
        4
    } else if wx == 0 && wy == 0 && wz == 1 {
        5
    } else {
        -1
    }
}

/// The resolved neighbor views of a chunk, one slot per face direction in
/// the fixed face order. A `None` slot is a neighbor that is not resident.
#[derive(Debug, Clone)]
pub struct NeighborSet {
    pub grids: Vec<Option<VoxelMap>>,
}

impl NeighborSet {
    pub open spec fn wf(self) -> bool {
        &&& self.grids.len() == 6
        &&& forall|d: int|
            0 <= d < 6 ==> (#[trigger] self.grids[d] matches Some(m) ==> m.wf())
    }

    /// The neighbor view in face direction `d`, if resident.
    pub open spec fn slot(self, d: int) -> Option<VoxelMap> {
        self.grids[d]
    }

    /// A neighbor set with every slot empty.
    pub fn none() -> (r: NeighborSet)
        ensures
            r.wf(),
            forall|d: int| 0 <= d < 6 ==> r.slot(d) is None,
    {
        let mut grids: Vec<Option<VoxelMap>> = Vec::new();
        let mut i: usize = 0;
        while i < 6
            invariant
                i <= 6,
                grids.len() == i,
                forall|d: int| 0 <= d < i ==> grids[d] is None,
            decreases 6 - i,
        {
            grids.push(None);
            i += 1;
        }
        NeighborSet { grids }
    }

    /// The neighbor view in face direction `d`, if resident.
    pub fn get(&self, d: usize) -> (r: &Option<VoxelMap>)
        requires
            self.wf(),
            d < 6,
        ensures
            *r == self.slot(d as int),
    {
        &self.grids[d]
    }
}

/// One 32x32x32 block of the world.
#[derive(Debug, Clone)]
pub struct Chunk {
    pub voxels: VoxelMap,
    pub world_position: Vec3i,
    pub neighbors: NeighborSet,
    pub should_regenerate_mesh: bool,
}

/// The voxel value classifying one world-space height against a column's
/// terrain height: air above it, grass exactly at it, dirt below it.
pub open spec fn spec_terrain_voxel(world_y: int, h: int) -> VoxelType {
    if world_y > h {
        VoxelType::Air
    } else if world_y == h {
        VoxelType::Grass
    } else {
        VoxelType::Dirt
    }
}

/// Every cell of column `(x, z)` classifies its world height against the
/// single height `h`.
pub open spec fn column_matches(m: VoxelMap, x: int, z: int, world_y0: int, h: int) -> bool {
    forall|y: int| 0 <= y < 32 ==> m.at(x, y, z) == spec_terrain_voxel(world_y0 + y, h)
}

/// Column `(x, z)` was generated: some height in `[12, 20]` (the base
/// height 16 perturbed by an offset in `[-4, 4]`) classifies all its cells.
pub open spec fn column_generated(m: VoxelMap, x: int, z: int, world_y0: int) -> bool {
    exists|h: int| 12 <= h <= 20 && column_matches(m, x, z, world_y0, h)
}

/// A column keeps its generated shape if none of its cells changed.
proof fn lemma_column_preserved(m_old: VoxelMap, m_new: VoxelMap, x: int, z: int, world_y0: int)
    requires
        column_generated(m_old, x, z, world_y0),
        forall|y: int| 0 <= y < 32 ==> m_new.at(x, y, z) == m_old.at(x, y, z),
    ensures
        column_generated(m_new, x, z, world_y0),
{
    let h = choose|h: int| 12 <= h <= 20 && column_matches(m_old, x, z, world_y0, h);
    assert(column_matches(m_new, x, z, world_y0, h));
}

/// Relies on `rand::thread_rng` and `rand::Rng::gen_range`: a sample from
/// the non-empty range `-4..=4` lies within it. Nothing more is assumed of
/// the sample.
#[verifier::external_body]
fn random_height_offset() -> (r: i32)
    ensures
        -4 <= r <= 4,
{
    let mut rng = rand::thread_rng();
    rand::Rng::gen_range(&mut rng, -4..=4)
}

/// Whether a chunk's own transparency field (its grid and its resolved
/// neighbor views) reports the local position `(x, y, z)` as transparent.
/// Inside the cube this reads the chunk's grid; one step outside it reads
/// the neighbor in that face direction at the wrapped-in position; a
/// missing neighbor, or an offset that is not a face direction, defaults
/// to transparent.
pub open spec fn spec_transparent_at(c: Chunk, x: int, y: int, z: int) -> bool {
    if in_chunk(x, y, z) {
        c.voxels.at(x, y, z) is Air
    } else {
        let d = spec_face_dir(spec_wrap(x), spec_wrap(y), spec_wrap(z));
        if d == -1 {
            true
        } else {
            match c.neighbors.slot(d) {
                Some(m) => m.at(
                    x - 32 * spec_wrap(x),
                    y - 32 * spec_wrap(y),
                    z - 32 * spec_wrap(z),
                ) is Air,
                None => true,
            }
        }
    }
}

impl Chunk {
    /// Grid, neighbor slots and neighbor grids are all well-formed.
    pub open spec fn wf(self) -> bool {
        self.voxels.wf() && self.neighbors.wf()
    }

    /// An all-air chunk at the given chunk coordinate, with no resolved
    /// neighbors and a stale mesh.
    pub fn new(position: Vec3i) -> (r: Chunk)
        ensures
            r.wf(),
            r.world_position == position,
            forall|x: int, y: int, z: int| r.voxels.at(x, y, z) == VoxelType::Air,
            forall|d: int| 0 <= d < 6 ==> r.neighbors.slot(d) is None,
            r.should_regenerate_mesh,
    {
        Chunk {
            voxels: VoxelMap::new(),
            world_position: position,
            neighbors: NeighborSet::none(),
            should_regenerate_mesh: true,
        }
    }

    /// The chunk coordinate (immutable after creation).
    pub fn position(&self) -> (r: Vec3i)
        ensures
            r == self.world_position,
    {
        self.world_position
    }

    /// The world-space voxel coordinate of this chunk's origin corner.
    pub fn world_origin(&self) -> (r: Vec3i)
        requires
            CHUNK_COORD_MIN <= self.world_position.x <= CHUNK_COORD_MAX,
            CHUNK_COORD_MIN <= self.world_position.y <= CHUNK_COORD_MAX,
            CHUNK_COORD_MIN <= self.world_position.z <= CHUNK_COORD_MAX,
        ensures
            r.x == 32 * self.world_position.x,
            r.y == 32 * self.world_position.y,
            r.z == 32 * self.world_position.z,
    {
        Vec3i {
            x: self.world_position.x * CHUNK_SIZE_I32,
            y: self.world_position.y * CHUNK_SIZE_I32,
            z: self.world_position.z * CHUNK_SIZE_I32,
        }
    }

    /// Fill a fresh chunk at the given chunk coordinate: every column gets
    /// a terrain height — the base height 16 perturbed by a random offset
    /// in `[-4, 4]` — and every cell classifies its world height against
    /// it. Always succeeds.
    pub fn generate_at(world_position: Vec3i) -> (r: Option<Chunk>)
        requires
            CHUNK_COORD_MIN <= world_position.y <= CHUNK_COORD_MAX,
        ensures
            r matches Some(c),
            r matches Some(c) ==> {
                &&& c.wf()
                &&& c.world_position == world_position
                &&& forall|d: int| 0 <= d < 6 ==> c.neighbors.slot(d) is None
                &&& c.should_regenerate_mesh
                &&& forall|x: int, z: int|
                    0 <= x < 32 && 0 <= z < 32 ==> #[trigger] column_generated(
                        c.voxels,
                        x,
                        z,
                        32 * world_position.y,
                    )
            },
    {
        let mut chunk = Chunk::new(world_position);
        let world_y0: i32 = world_position.y * CHUNK_SIZE_I32;
        let ghost wy0: int = world_y0 as int;

        let mut x: usize = 0;
        while x < CHUNK_SIZE
            invariant
                x <= 32,
                CHUNK_COORD_MIN <= world_position.y <= CHUNK_COORD_MAX,
                world_y0 == 32 * world_position.y,
                wy0 == world_y0 as int,
                chunk.wf(),
                chunk.world_position == world_position,
                forall|d: int| 0 <= d < 6 ==> chunk.neighbors.slot(d) is None,
                chunk.should_regenerate_mesh,
                forall|cx: int, cz: int|
                    0 <= cx < x && 0 <= cz < 32 ==> column_generated(chunk.voxels, cx, cz, wy0),
            decreases 32 - x,
        {
            let mut z: usize = 0;
            while z < CHUNK_SIZE
                invariant
                    x < 32,
                    z <= 32,
                    CHUNK_COORD_MIN <= world_position.y <= CHUNK_COORD_MAX,
                    world_y0 == 32 * world_position.y,
                    wy0 == world_y0 as int,
                    chunk.wf(),
                    chunk.world_position == world_position,
                    forall|d: int| 0 <= d < 6 ==> chunk.neighbors.slot(d) is None,
                    chunk.should_regenerate_mesh,
                    forall|cx: int, cz: int|
                        0 <= cx < x && 0 <= cz < 32 ==> column_generated(chunk.voxels, cx, cz, wy0),
                    forall|cz: int|
                        0 <= cz < z ==> column_generated(chunk.voxels, x as int, cz, wy0),
                decreases 32 - z,
            {
                let h: i32 = 16 + random_height_offset();
                let ghost voxels_at_col_start = chunk.voxels;
                let mut y: usize = 0;
                while y < CHUNK_SIZE
                    invariant
                        x < 32,
                        z < 32,
                        y <= 32,
                        12 <= h <= 20,
                        chunk.wf(),
                        chunk.world_position == world_position,
                        forall|d: int| 0 <= d < 6 ==> chunk.neighbors.slot(d) is None,
                        chunk.should_regenerate_mesh,
                        CHUNK_COORD_MIN <= world_position.y <= CHUNK_COORD_MAX,
                        world_y0 == 32 * world_position.y,
                        wy0 == world_y0 as int,
                        forall|cx: int, cz: int, cy: int|
                            0 <= cx < 32 && 0 <= cz < 32 && 0 <= cy < 32 && !(cx == x && cz == z)
                                ==> chunk.voxels.at(cx, cy, cz) == voxels_at_col_start.at(
                                cx,
                                cy,
                                cz,
                            ),
                        forall|cx: int, cz: int|
                            0 <= cx < x && 0 <= cz < 32 ==> column_generated(
                                voxels_at_col_start,
                                cx,
                                cz,
                                wy0,
                            ),
                        forall|cz: int|
                            0 <= cz < z ==> column_generated(
                                voxels_at_col_start,
                                x as int,
                                cz,
                                wy0,
                            ),
                        forall|cy: int|
                            0 <= cy < y ==> chunk.voxels.at(x as int, cy, z as int)
                                == spec_terrain_voxel(wy0 + cy, h as int),
                    decreases 32 - y,
                {
                    let wy: i32 = world_y0 + y as i32;
                    let v = if wy > h {
                        VoxelType::Air
                    } else if wy == h {
                        VoxelType::Grass
                    } else {
                        VoxelType::Dirt
                    };
                    let p = Vec3i { x: x as i32, y: y as i32, z: z as i32 };
                    chunk.set_voxel(v, p);
                    y += 1;
                }
                proof {
                    assert(column_matches(chunk.voxels, x as int, z as int, wy0, h as int));
                    assert forall|cx: int, cz: int|
                        0 <= cx < x && 0 <= cz < 32 implies column_generated(
                        chunk.voxels,
                        cx,
                        cz,
                        wy0,
                    ) by {
                        lemma_column_preserved(voxels_at_col_start, chunk.voxels, cx, cz, wy0);
                    }
                    assert forall|cz: int| 0 <= cz < z implies column_generated(
                        chunk.voxels,
                        x as int,
                        cz,
                        wy0,
                    ) by {
                        lemma_column_preserved(
                            voxels_at_col_start,
                            chunk.voxels,
                            x as int,
                            cz,
                            wy0,
                        );
                    }
                }
                z += 1;
            }
            x += 1;
        }
        Some(chunk)
    }

    /// A fresh scan over all local positions.
    pub fn iter_voxels(&self) -> (r: VoxelIterator)
        ensures
            r.index == 0,
    {
        self.voxels.iter()
    }

    /// The voxel at a local position of this chunk's own grid; `Air`
    /// outside the cube. No neighbor fallback.
    pub fn get_voxel(&self, position: Vec3i) -> (r: VoxelType)
        requires
            self.wf(),
        ensures
            r == self.voxels.at_pos(position),
    {
        self.voxels.get_at(position)
    }

    /// Whether the voxel field is transparent at a local position,
    /// consulting the resolved neighbor view when the position steps one
    /// chunk over; a missing neighbor counts as transparent.
    pub fn is_transparent_at(&self, position: Vec3i) -> (r: bool)
        requires
            self.wf(),
        ensures
            r == spec_transparent_at(*self, position.x as int, position.y as int, position.z as int),
    {
        if VoxelMap::is_within_bounds(position) {
            self.voxels.get_at(position).is_transparent()
        } else {
            let wx = wrap_position(position.x);
            let wy = wrap_position(position.y);
            let wz = wrap_position(position.z);
            let d: i32 = if wx == -1 && wy == 0 && wz == 0 {
                0
            } else if wx == 1 && wy == 0 && wz == 0 {
                1
            } else if wx == 0 && wy == -1 && wz == 0 {
                2
            } else if wx == 0 && wy == 1 && wz == 0 {
                3
            } else if wx == 0 && wy == 0 && wz == -1 {
                4
            } else if wx == 0 && wy == 0 && wz == 1 {
                5
            } else {
                -1
            };
            if d < 0 {
                true
            } else {
                match self.neighbors.get(d as usize) {
                    Some(m) => {
                        let local = Vec3i {
                            x: position.x - 32 * wx,
                            y: position.y - 32 * wy,
                            z: position.z - 32 * wz,
                        };
                        m.get_at(local).is_transparent()
                    },
                    None => true,
                }
            }
        }
    }

    /// Overwrite the voxel at a local position of this chunk's own grid; a
    /// no-op outside the cube. No neighbor fallback.
    pub fn set_voxel(&mut self, voxel: VoxelType, position: Vec3i)
        requires
            old(self).wf(),
        ensures
            final(self).wf(),
            final(self).world_position == old(self).world_position,
            final(self).neighbors == old(self).neighbors,
            final(self).should_regenerate_mesh == old(self).should_regenerate_mesh,
            forall|x: int, y: int, z: int|
                final(self).voxels.at(x, y, z) == if in_chunk_pos(position) && x == position.x && y
                    == position.y && z == position.z {
                    voxel
                } else {
                    old(self).voxels.at(x, y, z)
                },
    {
        self.voxels.set_at(voxel, position)
    }
}

} // verus!

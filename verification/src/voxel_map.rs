//! Dense fixed-size per-chunk cell storage with packed coordinate
//! addressing: 32x32x32 voxels per chunk, flattened into one vector by
//! power-of-two shifts (5 bits per axis).

use vstd::prelude::*;
use vstd::arithmetic::div_mod::{lemma_fundamental_div_mod_converse, lemma_small_mod};
use crate::pos::Vec3i;
use crate::voxel::VoxelType;

verus! {

pub const CHUNK_SIZE: usize = 32;

pub const CHUNK_SIZE_I32: i32 = 32;

pub const CHUNK_SIZE_CUBED: usize = 32768;

pub const X_SHIFT: usize = 10;

pub const Z_SHIFT: usize = 5;

pub const X_MASK: usize = 0x7c00;

pub const Z_MASK: usize = 0x3e0;

pub const Y_MASK: usize = 0x1f;

/// Whether a local position lies inside the chunk cube.
pub open spec fn in_chunk(x: int, y: int, z: int) -> bool {
    0 <= x < 32 && 0 <= y < 32 && 0 <= z < 32
}

pub open spec fn in_chunk_pos(p: Vec3i) -> bool {
    in_chunk(p.x as int, p.y as int, p.z as int)
}

/// The packed storage index of a local position: x in the high bit field,
/// z in the middle, y in the low one.
pub open spec fn flat_index(x: int, y: int, z: int) -> int {
    1024 * x + 32 * z + y
}

/// Map a local position inside the chunk cube to its storage index.
pub fn flatten(position: Vec3i) -> (r: usize)
    requires
        in_chunk_pos(position),
    ensures
        r == flat_index(position.x as int, position.y as int, position.z as int),
        r < 32768,
{
    let xu = position.x as usize;
    let yu = position.y as usize;
    let zu = position.z as usize;
    let r = (xu << X_SHIFT) | (zu << Z_SHIFT) | yu;
    assert(r == 1024 * xu + 32 * zu + yu && r < 32768) by (bit_vector)
        requires
            xu < 32,
            yu < 32,
            zu < 32,
            r == (xu << 10) | (zu << 5) | yu,
    ;
    r
}

/// Recover the local position whose storage index is `index`; bits beyond
/// the three 5-bit fields are ignored.
pub fn unflatten(index: usize) -> (r: Vec3i)
    ensures
        r.x == (index as int / 1024) % 32,
        r.y == index as int % 32,
        r.z == (index as int / 32) % 32,
        in_chunk_pos(r),
{
    let xu = (index & X_MASK) >> X_SHIFT;
    let yu = index & Y_MASK;
    let zu = (index & Z_MASK) >> Z_SHIFT;
    assert((index & 0x7c00usize) >> 10 == (index / 1024) % 32 && index & 0x1fusize == index % 32
        && (index & 0x3e0usize) >> 5 == (index / 32) % 32 && (index & 0x7c00usize) >> 10 < 32
        && index & 0x1fusize < 32 && (index & 0x3e0usize) >> 5 < 32) by (bit_vector);
    Vec3i { x: xu as i32, y: yu as i32, z: zu as i32 }
}

/// Packing and unpacking are mutual inverses: the three bit fields of a
/// packed index recover exactly the position that was packed.
pub proof fn lemma_flatten_unflatten(x: int, y: int, z: int)
    requires
        in_chunk(x, y, z),
    ensures
        0 <= flat_index(x, y, z) < 32768,
        (flat_index(x, y, z) / 1024) % 32 == x,
        flat_index(x, y, z) % 32 == y,
        (flat_index(x, y, z) / 32) % 32 == z,
{
    let f = flat_index(x, y, z);
    lemma_fundamental_div_mod_converse(f, 32, 32 * x + z, y);
    lemma_fundamental_div_mod_converse(f, 1024, x, 32 * z + y);
    lemma_fundamental_div_mod_converse(32 * x + z, 32, x, z);
    lemma_small_mod(x as nat, 32);
}

/// Yields every local position of a chunk once, in ascending storage-index
/// order (y varies fastest, then z, then x).
#[derive(Debug, Clone)]
pub struct VoxelIterator {
    pub index: usize,
}

impl VoxelIterator {
    /// The next position in scan order, or `None` once all 32768 positions
    /// have been produced.
    pub fn next(&mut self) -> (r: Option<Vec3i>)
        ensures
            old(self).index < 32768 ==> {
                &&& r matches Some(p)
                &&& p.x == (old(self).index as int / 1024) % 32
                &&& p.y == old(self).index as int % 32
                &&& p.z == (old(self).index as int / 32) % 32
                &&& final(self).index == old(self).index + 1
            },
            old(self).index >= 32768 ==> r is None && *final(self) == *old(self),
    {
        if self.index >= CHUNK_SIZE_CUBED {
            None
        } else {
            let xyz = unflatten(self.index);
            self.index += 1;
            Some(xyz)
        }
    }
}

/// Fixed storage for one chunk's worth of voxels.
#[derive(Debug, Clone)]
pub struct VoxelMap {
    pub data: Vec<VoxelType>,
}

impl VoxelMap {
    /// The storage always holds exactly one cell per position of the cube.
    pub open spec fn wf(self) -> bool {
        self.data.len() == 32768
    }

    /// The voxel stored at a local position, `Air` outside the cube.
    pub open spec fn at(self, x: int, y: int, z: int) -> VoxelType {
        if in_chunk(x, y, z) {
            self.data[flat_index(x, y, z)]
        } else {
            VoxelType::Air
        }
    }

    pub open spec fn at_pos(self, p: Vec3i) -> VoxelType {
        self.at(p.x as int, p.y as int, p.z as int)
    }

    /// A grid with every cell `Air`.
    pub fn new() -> (r: VoxelMap)
        ensures
            r.wf(),
            forall|x: int, y: int, z: int| r.at(x, y, z) == VoxelType::Air,
    {
        let mut data: Vec<VoxelType> = Vec::new();
        let mut i: usize = 0;
        while i < CHUNK_SIZE_CUBED
            invariant
                i <= 32768,
                data.len() == i,
                forall|j: int| 0 <= j < i ==> data[j] == VoxelType::Air,
            decreases 32768 - i,
        {
            data.push(VoxelType::Air);
            i += 1;
        }
        VoxelMap { data }
    }

    /// An owned copy of this grid with the same cells.
    pub fn snapshot(&self) -> (r: VoxelMap)
        ensures
            r.data@ == self.data@,
    {
        let n = self.data.len();
        let mut data: Vec<VoxelType> = Vec::new();
        let mut i: usize = 0;
        while i < n
            invariant
                i <= n,
                n == self.data.len(),
                data.len() == i,
                forall|j: int| 0 <= j < i ==> data[j] == self.data[j],
            decreases n - i,
        {
            data.push(self.data[i]);
            i += 1;
        }
        let r = VoxelMap { data };
        proof {
            assert(r.data@ =~= self.data@);
        }
        r
    }

    /// Whether a local position lies inside the chunk cube.
    pub fn is_within_bounds(local: Vec3i) -> (r: bool)
        ensures
            r == in_chunk_pos(local),
    {
        local.x >= 0 && local.x < CHUNK_SIZE_I32 && local.z >= 0 && local.z < CHUNK_SIZE_I32
            && local.y >= 0 && local.y < CHUNK_SIZE_I32
    }

    /// A fresh scan over all local positions, always in the same order.
    pub fn iter(&self) -> (r: VoxelIterator)
        ensures
            r.index == 0,
    {
        VoxelIterator { index: 0 }
    }

    /// The voxel at a local position; `Air` for any position outside the
    /// cube, never a failure.
    pub fn get_at(&self, position: Vec3i) -> (r: VoxelType)
        requires
            self.wf(),
        ensures
            r == self.at_pos(position),
    {
        if !VoxelMap::is_within_bounds(position) {
            VoxelType::Air
        } else {
            proof {
                lemma_flatten_unflatten(position.x as int, position.y as int, position.z as int);
            }
            self.data[flatten(position)]
        }
    }

    /// Overwrite the voxel at a local position; a no-op for any position
    /// outside the cube.
    pub fn set_at(&mut self, voxel: VoxelType, position: Vec3i)
        requires
            old(self).wf(),
        ensures
            final(self).wf(),
            forall|x: int, y: int, z: int|
                final(self).at(x, y, z) == if in_chunk_pos(position) && x == position.x && y
                    == position.y && z == position.z {
                    voxel
                } else {
                    old(self).at(x, y, z)
                },
    {
        if VoxelMap::is_within_bounds(position) {
            proof {
                lemma_flatten_unflatten(position.x as int, position.y as int, position.z as int);
            }
            let i = flatten(position);
            self.data.set(i, voxel);
            proof {
                assert forall|x: int, y: int, z: int|
                    !(x == position.x && y == position.y && z == position.z) implies self.at(
                    x,
                    y,
                    z,
                ) == old(self).at(x, y, z) by {
                    if in_chunk(x, y, z) {
                        lemma_flatten_unflatten(x, y, z);
                        lemma_flatten_unflatten(
                            position.x as int,
                            position.y as int,
                            position.z as int,
                        );
                    }
                }
            }
        }
    }
}

} // verus!

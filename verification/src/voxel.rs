//! Voxel cell types: a small closed tag set with `Air` as the sole
//! transparent value.

use vstd::prelude::*;
use crate::face::VoxelFace;

verus! {

/// The material tag held by one voxel cell.
#[derive(Debug, Clone, Copy, PartialEq, Eq, Structural)]
pub enum VoxelType {
    Air,
    Grass,
    Dirt,
}

/// Which texture a voxel type shows on a given face.
pub open spec fn spec_face_index(v: VoxelType, face: VoxelFace) -> u32 {
    match v {
        VoxelType::Grass => if crate::face::spec_is_side_face(face) {
            1u32
        } else if face is Top {
            0u32
        } else {
            2u32
        },
        VoxelType::Dirt => 2u32,
        VoxelType::Air => 0u32,
    }
}

impl VoxelType {
    /// Only `Air` lets light (and face culling) through.
    pub fn is_transparent(&self) -> (r: bool)
        ensures
            r <==> *self is Air,
    {
        *self == VoxelType::Air
    }

    /// Texture index for this voxel type on the given face.
    pub fn get_face_index(&self, face: VoxelFace) -> (r: u32)
        ensures
            r == spec_face_index(*self, face),
            r <= 2,
    {
        match self {
            VoxelType::Grass => {
                if face.is_side_face() {
                    1
                } else {
                    match face {
                        VoxelFace::Top => 0,
                        _ => 2,
                    }
                }
            },
            VoxelType::Dirt => 2,
            _ => 0,
        }
    }
}

} // verus!

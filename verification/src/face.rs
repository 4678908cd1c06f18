//! The six axis-aligned faces of a unit voxel cube, with their normals,
//! shading intensities, vertex corner tables and index winding pattern.
//!
//! Vertex corner offsets are kept in half-voxel units so that the cube
//! corners at `±0.5` around a cell stay on an integer grid: a corner of the
//! cell at local position `p` lies at `(2*p + offset) / 2` world units.

use vstd::prelude::*;
use crate::pos::Vec3i;

verus! {

/// One of the six axis-aligned faces of a voxel cube.
#[derive(Debug, Clone, Copy, PartialEq, Eq, Structural)]
pub enum VoxelFace {
    Left,
    Right,
    Bottom,
    Top,
    Back,
    Front,
}

pub open spec fn spec_face_index_of(face: VoxelFace) -> int {
    match face {
        VoxelFace::Left => 0,
        VoxelFace::Right => 1,
        VoxelFace::Bottom => 2,
        VoxelFace::Top => 3,
        VoxelFace::Back => 4,
        VoxelFace::Front => 5,
    }
}

/// The face listed at position `i` of the fixed face order.
pub open spec fn spec_face_of_index(i: int) -> VoxelFace {
    if i == 0 {
        VoxelFace::Left
    } else if i == 1 {
        VoxelFace::Right
    } else if i == 2 {
        VoxelFace::Bottom
    } else if i == 3 {
        VoxelFace::Top
    } else if i == 4 {
        VoxelFace::Back
    } else {
        VoxelFace::Front
    }
}

/// The outward unit normal of a face.
pub open spec fn spec_normal(face: VoxelFace) -> Vec3i {
    match face {
        VoxelFace::Left => Vec3i { x: -1i32, y: 0, z: 0 },
        VoxelFace::Right => Vec3i { x: 1, y: 0, z: 0 },
        VoxelFace::Bottom => Vec3i { x: 0, y: -1i32, z: 0 },
        VoxelFace::Top => Vec3i { x: 0, y: 1, z: 0 },
        VoxelFace::Back => Vec3i { x: 0, y: 0, z: -1i32 },
        VoxelFace::Front => Vec3i { x: 0, y: 0, z: 1 },
    }
}

/// The constant directional shading value of a face.
pub open spec fn spec_color_intensity(face: VoxelFace) -> u32 {
    match face {
        VoxelFace::Left => 3u32,
        VoxelFace::Right => 3u32,
        VoxelFace::Bottom => 2u32,
        VoxelFace::Top => 5u32,
        VoxelFace::Back => 4u32,
        VoxelFace::Front => 4u32,
    }
}

pub open spec fn spec_is_side_face(face: VoxelFace) -> bool {
    face is Left || face is Right || face is Front || face is Back
}

/// Corner `c` of a face's quad, as a half-voxel-unit offset from the cell
/// center; each component is `-1` or `1` (that is, `±0.5` voxel units).
pub open spec fn spec_vertex_offset(face: VoxelFace, c: int) -> Vec3i {
    match face {
        VoxelFace::Left => if c == 0 {
            Vec3i { x: -1i32, y: 1, z: -1i32 }
        } else if c == 1 {
            Vec3i { x: -1i32, y: 1, z: 1 }
        } else if c == 2 {
            Vec3i { x: -1i32, y: -1i32, z: -1i32 }
        } else {
            Vec3i { x: -1i32, y: -1i32, z: 1 }
        },
        VoxelFace::Right => if c == 0 {
            Vec3i { x: 1, y: 1, z: 1 }
        } else if c == 1 {
            Vec3i { x: 1, y: 1, z: -1i32 }
        } else if c == 2 {
            Vec3i { x: 1, y: -1i32, z: 1 }
        } else {
            Vec3i { x: 1, y: -1i32, z: -1i32 }
        },
        VoxelFace::Bottom => if c == 0 {
            Vec3i { x: -1i32, y: -1i32, z: 1 }
        } else if c == 1 {
            Vec3i { x: 1, y: -1i32, z: 1 }
        } else if c == 2 {
            Vec3i { x: -1i32, y: -1i32, z: -1i32 }
        } else {
            Vec3i { x: 1, y: -1i32, z: -1i32 }
        },
        VoxelFace::Top => if c == 0 {
            Vec3i { x: -1i32, y: 1, z: -1i32 }
        } else if c == 1 {
            Vec3i { x: 1, y: 1, z: -1i32 }
        } else if c == 2 {
            Vec3i { x: -1i32, y: 1, z: 1 }
        } else {
            Vec3i { x: 1, y: 1, z: 1 }
        },
        VoxelFace::Back => if c == 0 {
            Vec3i { x: 1, y: 1, z: -1i32 }
        } else if c == 1 {
            Vec3i { x: -1i32, y: 1, z: -1i32 }
        } else if c == 2 {
            Vec3i { x: 1, y: -1i32, z: -1i32 }
        } else {
            Vec3i { x: -1i32, y: -1i32, z: -1i32 }
        },
        VoxelFace::Front => if c == 0 {
            Vec3i { x: -1i32, y: 1, z: 1 }
        } else if c == 1 {
            Vec3i { x: 1, y: 1, z: 1 }
        } else if c == 2 {
            Vec3i { x: -1i32, y: -1i32, z: 1 }
        } else {
            Vec3i { x: 1, y: -1i32, z: 1 }
        },
    }
}

/// Position `j` of the fixed two-triangle winding pattern of a quad,
/// as an offset into its four corners.
pub open spec fn spec_quad_index_offset(j: int) -> u32 {
    if j == 0 {
        2u32
    } else if j == 1 {
        1u32
    } else if j == 2 {
        0u32
    } else if j == 3 {
        2u32
    } else if j == 4 {
        3u32
    } else {
        1u32
    }
}

/// The UV corner selector of corner `c`: corners run left-to-right then
/// top-to-bottom over the unit texture square.
pub open spec fn spec_uv(c: int) -> (u32, u32) {
    if c == 0 {
        (0u32, 0u32)
    } else if c == 1 {
        (1u32, 0u32)
    } else if c == 2 {
        (0u32, 1u32)
    } else {
        (1u32, 1u32)
    }
}

impl VoxelFace {
    /// Whether this face is one of the four vertical sides.
    pub fn is_side_face(&self) -> (r: bool)
        ensures
            r == spec_is_side_face(*self),
    {
        matches!(
            self,
            VoxelFace::Left | VoxelFace::Right | VoxelFace::Front | VoxelFace::Back
        )
    }

    /// The outward unit normal of this face.
    pub fn normal(&self) -> (r: Vec3i)
        ensures
            r == spec_normal(*self),
    {
        match self {
            VoxelFace::Left => Vec3i { x: -1i32, y: 0, z: 0 },
            VoxelFace::Right => Vec3i { x: 1, y: 0, z: 0 },
            VoxelFace::Bottom => Vec3i { x: 0, y: -1i32, z: 0 },
            VoxelFace::Top => Vec3i { x: 0, y: 1, z: 0 },
            VoxelFace::Back => Vec3i { x: 0, y: 0, z: -1i32 },
            VoxelFace::Front => Vec3i { x: 0, y: 0, z: 1 },
        }
    }

    /// The constant directional shading value of this face.
    pub fn color_intensity(&self) -> (r: u32)
        ensures
            r == spec_color_intensity(*self),
    {
        match self {
            VoxelFace::Left => 3,
            VoxelFace::Right => 3,
            VoxelFace::Bottom => 2,
            VoxelFace::Top => 5,
            VoxelFace::Back => 4,
            VoxelFace::Front => 4,
        }
    }

    /// This face's position in the fixed face order.
    pub fn index(&self) -> (r: usize)
        ensures
            r == spec_face_index_of(*self),
    {
        match self {
            VoxelFace::Left => 0,
            VoxelFace::Right => 1,
            VoxelFace::Bottom => 2,
            VoxelFace::Top => 3,
            VoxelFace::Back => 4,
            VoxelFace::Front => 5,
        }
    }

    /// The face at position `i` of the fixed face order.
    pub fn from_index(i: usize) -> (r: VoxelFace)
        requires
            i < 6,
        ensures
            r == spec_face_of_index(i as int),
    {
        if i == 0 {
            VoxelFace::Left
        } else if i == 1 {
            VoxelFace::Right
        } else if i == 2 {
            VoxelFace::Bottom
        } else if i == 3 {
            VoxelFace::Top
        } else if i == 4 {
            VoxelFace::Back
        } else {
            VoxelFace::Front
        }
    }

    /// Corner `c` of this face's quad, in half-voxel units from the cell
    /// center.
    pub fn vertex_offset(&self, c: usize) -> (r: Vec3i)
        requires
            c < 4,
        ensures
            r == spec_vertex_offset(*self, c as int),
    {
        let on_axis_high = c == 1 || c == 3;
        let off_axis_high = c >= 2;
        match self {
            VoxelFace::Left => Vec3i {
                x: -1i32,
                y: if off_axis_high { -1 } else { 1 },
                z: if on_axis_high { 1 } else { -1 },
            },
            VoxelFace::Right => Vec3i {
                x: 1,
                y: if off_axis_high { -1 } else { 1 },
                z: if on_axis_high { -1 } else { 1 },
            },
            VoxelFace::Bottom => Vec3i {
                x: if on_axis_high { 1 } else { -1 },
                y: -1i32,
                z: if off_axis_high { -1 } else { 1 },
            },
            VoxelFace::Top => Vec3i {
                x: if on_axis_high { 1 } else { -1 },
                y: 1,
                z: if off_axis_high { 1 } else { -1 },
            },
            VoxelFace::Back => Vec3i {
                x: if on_axis_high { -1 } else { 1 },
                y: if off_axis_high { -1 } else { 1 },
                z: -1i32,
            },
            VoxelFace::Front => Vec3i {
                x: if on_axis_high { 1 } else { -1 },
                y: if off_axis_high { -1 } else { 1 },
                z: 1,
            },
        }
    }
}

/// Position `j` of the fixed two-triangle winding pattern of a quad.
pub fn quad_index_offset(j: usize) -> (r: u32)
    requires
        j < 6,
    ensures
        r == spec_quad_index_offset(j as int),
{
    if j == 0 {
        2
    } else if j == 1 {
        1
    } else if j == 2 {
        0
    } else if j == 3 {
        2
    } else if j == 4 {
        3
    } else {
        1
    }
}

/// The UV corner selector of corner `c`.
pub fn uv_corner(c: usize) -> (r: (u32, u32))
    requires
        c < 4,
    ensures
        r == spec_uv(c as int),
{
    if c == 0 {
        (0, 0)
    } else if c == 1 {
        (1, 0)
    } else if c == 2 {
        (0, 1)
    } else {
        (1, 1)
    }
}

} // verus!

//! A voxel-world core: fixed-size chunks of typed cells, a coordinate-keyed
//! chunk registry, terrain generation, face-culled mesh building, and
//! distance-ordered streaming queues.

pub mod chunk;
pub mod face;
pub mod meshing;
pub mod pos;
pub mod streaming;
pub mod voxel;
pub mod voxel_map;
pub mod world;

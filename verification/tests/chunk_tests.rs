use voxel_world::chunk::{wrap_position, Chunk, NeighborSet};
use voxel_world::pos::Vec3i;
use voxel_world::voxel::VoxelType;
use voxel_world::voxel_map::VoxelMap;

#[test]
fn wrap_position_classifies_overflow() {
    assert_eq!(wrap_position(-1), -1);
    assert_eq!(wrap_position(-100), -1);
    assert_eq!(wrap_position(0), 0);
    assert_eq!(wrap_position(31), 0);
    assert_eq!(wrap_position(32), 1);
    assert_eq!(wrap_position(100), 1);
}

#[test]
fn new_chunk_is_all_air_and_dirty() {
    let chunk = Chunk::new(Vec3i::new(2, -3, 4));
    assert_eq!(chunk.position(), Vec3i::new(2, -3, 4));
    assert!(chunk.should_regenerate_mesh);
    assert_eq!(chunk.get_voxel(Vec3i::new(0, 0, 0)), VoxelType::Air);
    assert_eq!(chunk.get_voxel(Vec3i::new(31, 31, 31)), VoxelType::Air);
}

#[test]
fn world_origin_scales_by_chunk_size() {
    let chunk = Chunk::new(Vec3i::new(1, -2, 3));
    assert_eq!(chunk.world_origin(), Vec3i::new(32, -64, 96));
}

#[test]
fn generated_terrain_classifies_columns() {
    let chunk = Chunk::generate_at(Vec3i::new(0, 0, 0)).unwrap();
    for x in 0..32 {
        for z in 0..32 {
            // Find the topmost non-air cell of the column.
            let mut top: Option<i32> = None;
            for y in (0..32).rev() {
                if chunk.get_voxel(Vec3i::new(x, y, z)) != VoxelType::Air {
                    top = Some(y);
                    break;
                }
            }
            let h = top.expect("chunk at height zero has ground in every column");
            assert!(12 <= h && h <= 20, "terrain height {} out of range", h);
            assert_eq!(chunk.get_voxel(Vec3i::new(x, h, z)), VoxelType::Grass);
            for y in 0..h {
                assert_eq!(chunk.get_voxel(Vec3i::new(x, y, z)), VoxelType::Dirt);
            }
            for y in (h + 1)..32 {
                assert_eq!(chunk.get_voxel(Vec3i::new(x, y, z)), VoxelType::Air);
            }
        }
    }
}

#[test]
fn generated_terrain_above_ground_is_air_and_below_is_dirt() {
    let high = Chunk::generate_at(Vec3i::new(0, 1, 0)).unwrap();
    let mut it = high.iter_voxels();
    while let Some(p) = it.next() {
        assert_eq!(high.get_voxel(p), VoxelType::Air);
    }
    let deep = Chunk::generate_at(Vec3i::new(0, -1, 0)).unwrap();
    let mut it = deep.iter_voxels();
    while let Some(p) = it.next() {
        assert_eq!(deep.get_voxel(p), VoxelType::Dirt);
    }
}

#[test]
fn transparency_inside_the_chunk_reads_its_grid() {
    let mut chunk = Chunk::new(Vec3i::new(0, 0, 0));
    chunk.set_voxel(VoxelType::Dirt, Vec3i::new(5, 6, 7));
    assert!(!chunk.is_transparent_at(Vec3i::new(5, 6, 7)));
    assert!(chunk.is_transparent_at(Vec3i::new(5, 6, 8)));
}

#[test]
fn transparency_defaults_to_transparent_without_a_neighbor() {
    let chunk = Chunk::new(Vec3i::new(0, 0, 0));
    assert!(chunk.is_transparent_at(Vec3i::new(-1, 0, 0)));
    assert!(chunk.is_transparent_at(Vec3i::new(32, 0, 0)));
    // A diagonal overflow is not one of the six face directions.
    assert!(chunk.is_transparent_at(Vec3i::new(-1, -1, 0)));
}

#[test]
fn transparency_consults_the_resolved_neighbor() {
    let mut solid = VoxelMap::new();
    let mut it = VoxelMap::new().iter();
    while let Some(p) = it.next() {
        solid.set_at(VoxelType::Dirt, p);
    }
    let mut chunk = Chunk::new(Vec3i::new(0, 0, 0));
    // Slot 0 is the Left (negative x) neighbor.
    chunk.neighbors.grids[0] = Some(solid);
    assert!(!chunk.is_transparent_at(Vec3i::new(-1, 4, 9)));
    // The Right neighbor is still missing.
    assert!(chunk.is_transparent_at(Vec3i::new(32, 4, 9)));
}

#[test]
fn neighbor_set_starts_empty() {
    let ns = NeighborSet::none();
    for d in 0..6 {
        assert!(ns.get(d).is_none());
    }
}

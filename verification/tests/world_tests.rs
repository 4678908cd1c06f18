use voxel_world::chunk::Chunk;
use voxel_world::pos::Vec3i;
use voxel_world::voxel::VoxelType;
use voxel_world::world::World;

#[test]
fn chunk_to_world_scales_each_axis() {
    let w = World::chunk_to_world_position(Vec3i::new(1, -2, 3));
    assert_eq!(w, Vec3i::new(32, -64, 96));
}

#[test]
fn world_to_chunk_uses_floor_division() {
    assert_eq!(World::world_to_chunk_position(Vec3i::new(0, 0, 0)), Vec3i::new(0, 0, 0));
    assert_eq!(World::world_to_chunk_position(Vec3i::new(31, 31, 31)), Vec3i::new(0, 0, 0));
    assert_eq!(World::world_to_chunk_position(Vec3i::new(32, 33, 64)), Vec3i::new(1, 1, 2));
    assert_eq!(World::world_to_chunk_position(Vec3i::new(-1, -32, -33)), Vec3i::new(-1, -1, -2));
}

#[test]
fn world_to_local_uses_euclidean_remainder() {
    assert_eq!(
        World::world_to_chunk_voxel_position(Vec3i::new(-1, -32, 33)),
        Vec3i::new(31, 0, 1)
    );
    assert_eq!(
        World::world_to_chunk_voxel_position(Vec3i::new(0, 31, 64)),
        Vec3i::new(0, 31, 0)
    );
}

#[test]
fn chunk_coordinate_round_trip() {
    for c in [-5, -1, 0, 1, 7, 1000, -1000] {
        let coord = Vec3i::new(c, -c, 2 * c);
        let world = World::chunk_to_world_position(coord);
        assert_eq!(World::world_to_chunk_position(world), coord);
    }
}

#[test]
fn registry_lookup_distinguishes_not_found_from_empty() {
    let mut world = World::new();
    assert!(!world.chunk_exists(Vec3i::new(0, 0, 0)));
    assert!(world.get_chunk(Vec3i::new(0, 0, 0)).is_none());

    // A resident chunk with default (all-air) content is found.
    world.set_chunk(Vec3i::new(0, 0, 0), Chunk::new(Vec3i::new(0, 0, 0)));
    assert!(world.chunk_exists(Vec3i::new(0, 0, 0)));
    let found = world.get_chunk(Vec3i::new(0, 0, 0)).unwrap();
    assert_eq!(found.get_voxel(Vec3i::new(0, 0, 0)), VoxelType::Air);
    assert!(world.get_chunk(Vec3i::new(1, 0, 0)).is_none());
}

#[test]
fn set_chunk_replaces_and_remove_chunk_drops() {
    let mut world = World::new();
    let mut chunk = Chunk::new(Vec3i::new(4, 0, 0));
    chunk.set_voxel(VoxelType::Grass, Vec3i::new(1, 1, 1));
    world.set_chunk(Vec3i::new(4, 0, 0), chunk);
    world.set_chunk(Vec3i::new(4, 0, 0), Chunk::new(Vec3i::new(4, 0, 0)));
    let replaced = world.get_chunk(Vec3i::new(4, 0, 0)).unwrap();
    assert_eq!(replaced.get_voxel(Vec3i::new(1, 1, 1)), VoxelType::Air);
    assert_eq!(world.chunks().len(), 1);

    world.remove_chunk(Vec3i::new(4, 0, 0));
    assert!(!world.chunk_exists(Vec3i::new(4, 0, 0)));
    world.remove_chunk(Vec3i::new(4, 0, 0));
    assert_eq!(world.chunks().len(), 0);
}

#[test]
fn voxel_read_of_unloaded_chunk_is_air_and_write_is_dropped() {
    let mut world = World::new();
    assert_eq!(world.get_voxel(Vec3i::new(100, 5, -7)), VoxelType::Air);
    world.set_voxel(VoxelType::Dirt, Vec3i::new(100, 5, -7));
    assert_eq!(world.get_voxel(Vec3i::new(100, 5, -7)), VoxelType::Air);
    assert_eq!(world.chunks().len(), 0);
}

#[test]
fn voxel_write_reaches_the_owning_chunk() {
    let mut world = World::new();
    world.set_chunk(Vec3i::new(-1, 0, 0), Chunk::new(Vec3i::new(-1, 0, 0)));
    // World position (-1, 3, 4) lives in chunk (-1, 0, 0) at local (31, 3, 4).
    world.set_voxel(VoxelType::Grass, Vec3i::new(-1, 3, 4));
    assert_eq!(world.get_voxel(Vec3i::new(-1, 3, 4)), VoxelType::Grass);
    let chunk = world.get_chunk(Vec3i::new(-1, 0, 0)).unwrap();
    assert_eq!(chunk.get_voxel(Vec3i::new(31, 3, 4)), VoxelType::Grass);
}

#[test]
fn voxel_write_marks_the_owner_and_axis_neighbors_dirty() {
    let mut world = World::new();
    for c in [
        Vec3i::new(0, 0, 0),
        Vec3i::new(1, 0, 0),
        Vec3i::new(0, 0, -1),
        Vec3i::new(1, 1, 0),
    ] {
        world.set_chunk(c, Chunk::new(c));
        world.clear_regenerate_mesh_flag(c);
    }
    world.set_voxel(VoxelType::Dirt, Vec3i::new(5, 5, 5));
    let dirty = |c: Vec3i| world.get_chunk(c).unwrap().should_regenerate_mesh;
    assert!(dirty(Vec3i::new(0, 0, 0)));
    assert!(dirty(Vec3i::new(1, 0, 0)));
    assert!(dirty(Vec3i::new(0, 0, -1)));
    // A diagonal neighbor is not adjacent.
    assert!(!dirty(Vec3i::new(1, 1, 0)));
}

#[test]
fn neighbors_resolve_through_the_registry() {
    let mut world = World::new();
    world.set_chunk(Vec3i::new(0, 0, 0), Chunk::new(Vec3i::new(0, 0, 0)));
    let mut right = Chunk::new(Vec3i::new(1, 0, 0));
    right.set_voxel(VoxelType::Dirt, Vec3i::new(0, 7, 7));
    world.set_chunk(Vec3i::new(1, 0, 0), right);

    let ns = world.get_chunk_neighbors(Vec3i::new(0, 0, 0));
    // Slot 1 is the Right (positive x) neighbor; slot 0 (Left) is missing.
    assert!(ns.get(0).is_none());
    let right_grid = ns.get(1).as_ref().unwrap();
    assert_eq!(right_grid.get_at(Vec3i::new(0, 7, 7)), VoxelType::Dirt);

    world.update_chunk_neighbors(Vec3i::new(0, 0, 0));
    let chunk = world.get_chunk(Vec3i::new(0, 0, 0)).unwrap();
    assert!(!chunk.is_transparent_at(Vec3i::new(32, 7, 7)));
    assert!(chunk.is_transparent_at(Vec3i::new(32, 7, 8)));
}

#[test]
fn clear_regenerate_mesh_flag_resets_only_that_chunk() {
    let mut world = World::new();
    world.set_chunk(Vec3i::new(0, 0, 0), Chunk::new(Vec3i::new(0, 0, 0)));
    world.set_chunk(Vec3i::new(5, 0, 0), Chunk::new(Vec3i::new(5, 0, 0)));
    world.clear_regenerate_mesh_flag(Vec3i::new(0, 0, 0));
    assert!(!world.get_chunk(Vec3i::new(0, 0, 0)).unwrap().should_regenerate_mesh);
    assert!(world.get_chunk(Vec3i::new(5, 0, 0)).unwrap().should_regenerate_mesh);
}

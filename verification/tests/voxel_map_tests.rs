use voxel_world::pos::Vec3i;
use voxel_world::voxel::VoxelType;
use voxel_world::voxel_map::{flatten, unflatten, VoxelMap};

#[test]
fn test() {
    println!("{}", flatten(Vec3i::new(31, 0, 0)));
    println!("{:?}", unflatten(18446744073709550592));
}

#[test]
fn flatten_unflatten_round_trip_all_positions() {
    for i in 0..32768usize {
        let p = unflatten(i);
        assert_eq!(flatten(p), i);
        let q = unflatten(flatten(p));
        assert_eq!(q, p);
    }
}

#[test]
fn flatten_packs_bit_fields() {
    assert_eq!(flatten(Vec3i::new(0, 0, 0)), 0);
    assert_eq!(flatten(Vec3i::new(1, 0, 0)), 1024);
    assert_eq!(flatten(Vec3i::new(0, 1, 0)), 1);
    assert_eq!(flatten(Vec3i::new(0, 0, 1)), 32);
    assert_eq!(flatten(Vec3i::new(31, 31, 31)), 32767);
}

#[test]
fn unflatten_ignores_high_bits() {
    assert_eq!(unflatten(18446744073709550592), Vec3i::new(31, 0, 0));
    assert_eq!(unflatten(32768), Vec3i::new(0, 0, 0));
}

#[test]
fn out_of_bounds_get_returns_air() {
    let map = VoxelMap::new();
    assert_eq!(map.get_at(Vec3i::new(-1, 0, 0)), VoxelType::Air);
    assert_eq!(map.get_at(Vec3i::new(32, 0, 0)), VoxelType::Air);
    assert_eq!(map.get_at(Vec3i::new(0, -1, 0)), VoxelType::Air);
    assert_eq!(map.get_at(Vec3i::new(0, 0, 100)), VoxelType::Air);
}

#[test]
fn out_of_bounds_set_is_a_no_op() {
    let mut map = VoxelMap::new();
    map.set_at(VoxelType::Dirt, Vec3i::new(-1, 0, 0));
    map.set_at(VoxelType::Dirt, Vec3i::new(0, 32, 0));
    assert_eq!(map.get_at(Vec3i::new(-1, 0, 0)), VoxelType::Air);
    assert_eq!(map.get_at(Vec3i::new(0, 32, 0)), VoxelType::Air);
    // No in-bounds cell was touched either.
    let mut it = map.iter();
    while let Some(p) = it.next() {
        assert_eq!(map.get_at(p), VoxelType::Air);
    }
}

#[test]
fn set_then_get_in_bounds() {
    let mut map = VoxelMap::new();
    map.set_at(VoxelType::Grass, Vec3i::new(3, 4, 5));
    assert_eq!(map.get_at(Vec3i::new(3, 4, 5)), VoxelType::Grass);
    assert_eq!(map.get_at(Vec3i::new(5, 4, 3)), VoxelType::Air);
    map.set_at(VoxelType::Dirt, Vec3i::new(3, 4, 5));
    assert_eq!(map.get_at(Vec3i::new(3, 4, 5)), VoxelType::Dirt);
}

#[test]
fn iterator_scans_all_positions_in_fixed_order() {
    let map = VoxelMap::new();
    let mut it = map.iter();
    let mut count = 0usize;
    let mut previous_index: Option<usize> = None;
    while let Some(p) = it.next() {
        let idx = flatten(p);
        if let Some(prev) = previous_index {
            assert_eq!(idx, prev + 1);
        } else {
            assert_eq!(idx, 0);
        }
        previous_index = Some(idx);
        count += 1;
    }
    assert_eq!(count, 32768);
    // A fresh scan yields the same first position again.
    let mut it2 = map.iter();
    assert_eq!(it2.next(), Some(Vec3i::new(0, 0, 0)));
}

use voxel_world::chunk::Chunk;
use voxel_world::pos::{distance_squared, Vec3i};
use voxel_world::streaming::{
    contains_position, enqueue_invalid_chunks, enqueue_valid_chunks, get_valid_chunk_positions,
    recompute_chunk_queues, sort_chunk_queues, WorldQueues,
};
use voxel_world::world::World;

fn assert_sorted_by_distance(base: Vec3i, queue: &Vec<Vec3i>) {
    for w in queue.windows(2) {
        assert!(
            distance_squared(base, w[0]) <= distance_squared(base, w[1]),
            "queue not sorted by distance at {:?} -> {:?}",
            w[0],
            w[1]
        );
    }
}

#[test]
fn wanted_set_is_a_cylinder_without_duplicates() {
    let player = Vec3i::new(10, -2, 5);
    let valid = get_valid_chunk_positions(player, 4, 2);
    // dx*dx + dz*dz < 16 gives 45 horizontal offsets; 5 vertical layers.
    assert_eq!(valid.len(), 45 * 5);
    for (i, a) in valid.iter().enumerate() {
        let dx = a.x - player.x;
        let dy = a.y - player.y;
        let dz = a.z - player.z;
        assert!(dx * dx + dz * dz < 16);
        assert!(-2 <= dy && dy <= 2);
        for b in &valid[(i + 1)..] {
            assert_ne!(a, b);
        }
    }
    assert!(contains_position(&valid, player));
    assert!(!contains_position(&valid, Vec3i::new(14, -2, 5)));
}

#[test]
fn load_queue_gets_wanted_missing_chunks_and_drops_stale_ones() {
    let mut world = World::new();
    world.set_chunk(Vec3i::new(0, 0, 0), Chunk::new(Vec3i::new(0, 0, 0)));
    let mut queues = WorldQueues::new();
    // A stale queued load far outside the wanted set.
    queues.chunk_load_queue.push(Vec3i::new(50, 0, 0));

    let valid = get_valid_chunk_positions(Vec3i::new(0, 0, 0), 2, 1);
    enqueue_valid_chunks(&mut queues, &world, &valid);

    // The resident chunk is not queued, the stale entry is gone, wanted
    // missing chunks are queued exactly once.
    assert!(!contains_position(&queues.chunk_load_queue, Vec3i::new(0, 0, 0)));
    assert!(!contains_position(&queues.chunk_load_queue, Vec3i::new(50, 0, 0)));
    assert!(contains_position(&queues.chunk_load_queue, Vec3i::new(1, 0, 0)));
    assert_eq!(queues.chunk_load_queue.len(), valid.len() - 1);
}

#[test]
fn unload_queue_gets_resident_unwanted_chunks_once() {
    let mut world = World::new();
    for c in [Vec3i::new(0, 0, 0), Vec3i::new(40, 0, 0), Vec3i::new(41, 0, 0)] {
        world.set_chunk(c, Chunk::new(c));
    }
    let mut queues = WorldQueues::new();
    queues.chunk_unload_queue.push(Vec3i::new(41, 0, 0));

    let valid = get_valid_chunk_positions(Vec3i::new(0, 0, 0), 2, 1);
    enqueue_invalid_chunks(&mut queues, &world, &valid);

    assert!(!contains_position(&queues.chunk_unload_queue, Vec3i::new(0, 0, 0)));
    assert!(contains_position(&queues.chunk_unload_queue, Vec3i::new(40, 0, 0)));
    assert_eq!(queues.chunk_unload_queue.len(), 2);
}

#[test]
fn queues_sort_by_non_decreasing_distance() {
    let base = Vec3i::new(0, 0, 0);
    let mut queues = WorldQueues::new();
    for c in [
        Vec3i::new(5, 0, 0),
        Vec3i::new(0, 0, 1),
        Vec3i::new(-3, 2, 0),
        Vec3i::new(0, 0, 0),
        Vec3i::new(1, 1, 1),
    ] {
        queues.chunk_load_queue.push(c);
        queues.chunk_unload_queue.push(c);
    }
    sort_chunk_queues(&mut queues, base);
    assert_sorted_by_distance(base, &queues.chunk_load_queue);
    assert_sorted_by_distance(base, &queues.chunk_unload_queue);
    assert_eq!(queues.chunk_load_queue[0], Vec3i::new(0, 0, 0));
    assert_eq!(queues.chunk_load_queue.len(), 5);
}

#[test]
fn recompute_orders_both_queues_by_distance() {
    let mut world = World::new();
    // One resident chunk in view, one far outside it.
    world.set_chunk(Vec3i::new(1, 0, 0), Chunk::new(Vec3i::new(1, 0, 0)));
    world.set_chunk(Vec3i::new(100, 0, 0), Chunk::new(Vec3i::new(100, 0, 0)));
    let mut queues = WorldQueues::new();
    let player = Vec3i::new(0, 0, 0);

    recompute_chunk_queues(&mut queues, &world, player);

    assert_sorted_by_distance(player, &queues.chunk_load_queue);
    assert_sorted_by_distance(player, &queues.chunk_unload_queue);
    // The nearest missing chunk is loaded first.
    assert_eq!(queues.chunk_load_queue[0], player);
    assert!(!contains_position(&queues.chunk_load_queue, Vec3i::new(1, 0, 0)));
    assert_eq!(queues.chunk_unload_queue, vec![Vec3i::new(100, 0, 0)]);
}

#[test]
fn pops_drain_from_the_front() {
    let mut queues = WorldQueues::new();
    queues.chunk_load_queue.push(Vec3i::new(1, 0, 0));
    queues.chunk_load_queue.push(Vec3i::new(2, 0, 0));
    queues.chunk_unload_queue.push(Vec3i::new(3, 0, 0));

    assert_eq!(queues.pop_next_load(), Some(Vec3i::new(1, 0, 0)));
    assert_eq!(queues.pop_next_load(), Some(Vec3i::new(2, 0, 0)));
    assert_eq!(queues.pop_next_load(), None);
    assert_eq!(queues.pop_next_unload(), Some(Vec3i::new(3, 0, 0)));
    assert_eq!(queues.pop_next_unload(), None);
}

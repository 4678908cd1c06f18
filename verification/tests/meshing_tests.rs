use voxel_world::chunk::Chunk;
use voxel_world::face::VoxelFace;
use voxel_world::meshing::{add_face, generate_chunk_mesh, generate_empty_chunk_mesh, MeshData};
use voxel_world::pos::Vec3i;
use voxel_world::voxel::VoxelType;
use voxel_world::voxel_map::VoxelMap;

fn solid_chunk(voxel: VoxelType) -> Chunk {
    let mut chunk = Chunk::new(Vec3i::new(0, 0, 0));
    let mut it = chunk.iter_voxels();
    while let Some(p) = it.next() {
        chunk.set_voxel(voxel, p);
    }
    chunk
}

const FACES: [VoxelFace; 6] = [
    VoxelFace::Left,
    VoxelFace::Right,
    VoxelFace::Bottom,
    VoxelFace::Top,
    VoxelFace::Back,
    VoxelFace::Front,
];

#[test]
fn t() {
    let mut chunk = Chunk::new(Vec3i::new(0, 0, 0));
    let mut it = chunk.iter_voxels();
    while let Some(position) = it.next() {
        chunk.set_voxel(VoxelType::Dirt, position);
    }

    let mut mesh_data = MeshData::new();

    let mut it = chunk.iter_voxels();
    while let Some(position) = it.next() {
        let voxel_type = chunk.get_voxel(position);

        for face in FACES {
            add_face(&mut mesh_data, voxel_type, position, face);
        }
    }

    println!("{}", mesh_data.positions.len());
    println!("{}", mesh_data.indices.len());
    println!("{}", mesh_data.data.len());
}

#[test]
fn empty_chunk_meshes_to_nothing() {
    let chunk = Chunk::new(Vec3i::new(0, 0, 0));
    let mesh = generate_chunk_mesh(&chunk);
    assert_eq!(mesh.positions.len(), 0);
    assert_eq!(mesh.indices.len(), 0);
    assert_eq!(mesh.data.len(), 0);

    let placeholder = generate_empty_chunk_mesh();
    assert_eq!(placeholder.positions.len(), 0);
    assert_eq!(placeholder.indices.len(), 0);
    assert_eq!(placeholder.data.len(), 0);
}

#[test]
fn solid_chunk_without_neighbors_emits_exactly_the_boundary_faces() {
    let chunk = solid_chunk(VoxelType::Dirt);
    let mesh = generate_chunk_mesh(&chunk);
    // 6 sides x 32 x 32 boundary faces; every interior face is culled.
    assert_eq!(mesh.positions.len(), 6144 * 4);
    assert_eq!(mesh.indices.len(), 6144 * 6);
    assert_eq!(mesh.data.len(), 6144 * 4);
}

#[test]
fn rebuilding_an_unchanged_chunk_gives_identical_buffers() {
    let chunk = solid_chunk(VoxelType::Grass);
    let first = generate_chunk_mesh(&chunk);
    let second = generate_chunk_mesh(&chunk);
    assert_eq!(first.positions, second.positions);
    assert_eq!(first.indices, second.indices);
    assert_eq!(first.data, second.data);
}

#[test]
fn missing_neighbor_meshes_like_an_all_air_neighbor() {
    let absent = solid_chunk(VoxelType::Dirt);
    let mut with_air_neighbor = solid_chunk(VoxelType::Dirt);
    // Slot 1 is the Right (positive x) neighbor: present and entirely air.
    with_air_neighbor.neighbors.grids[1] = Some(VoxelMap::new());

    let mesh_absent = generate_chunk_mesh(&absent);
    let mesh_with_air = generate_chunk_mesh(&with_air_neighbor);
    assert_eq!(mesh_absent.positions, mesh_with_air.positions);
    assert_eq!(mesh_absent.indices, mesh_with_air.indices);
    assert_eq!(mesh_absent.data, mesh_with_air.data);
}

#[test]
fn solid_neighbor_suppresses_the_shared_boundary_faces() {
    let mut chunk = solid_chunk(VoxelType::Dirt);
    let mut solid = VoxelMap::new();
    let mut it = VoxelMap::new().iter();
    while let Some(p) = it.next() {
        solid.set_at(VoxelType::Dirt, p);
    }
    // Slot 1 is the Right (positive x) neighbor: present and solid.
    chunk.neighbors.grids[1] = Some(solid);
    let mesh = generate_chunk_mesh(&chunk);
    // One of the six boundary sides (32 x 32 faces) is now culled.
    assert_eq!(mesh.positions.len(), (6144 - 1024) * 4);
}

#[test]
fn single_voxel_emits_six_faces_with_exact_buffers() {
    let mut chunk = Chunk::new(Vec3i::new(0, 0, 0));
    chunk.set_voxel(VoxelType::Grass, Vec3i::new(1, 2, 3));
    let mesh = generate_chunk_mesh(&chunk);
    assert_eq!(mesh.positions.len(), 24);
    assert_eq!(mesh.indices.len(), 36);
    assert_eq!(mesh.data.len(), 24);

    // The first quad is the Left face; its corner 0 offset is (-1, 1, -1)
    // in half-voxel units around cell (1, 2, 3).
    assert_eq!(mesh.positions[0], Vec3i::new(1, 5, 5));
    // Winding pattern of the first quad over vertex base 0.
    assert_eq!(&mesh.indices[0..6], &[2, 1, 0, 2, 3, 1]);
    // Grass on a side face: texture 1, intensity 3, UV corner (0, 0):
    // (1 << 6) | (3 << 2) | 0 = 76.
    assert_eq!(mesh.data[0], 76);
    // Fourth quad is the Top face: texture 0, intensity 5, corner (1, 1):
    // (0 << 6) | (5 << 2) | (1 << 1) | 1 = 23.
    assert_eq!(mesh.data[3 * 4 + 3], 23);
    // Second quad's indices are offset by its vertex base 4.
    assert_eq!(&mesh.indices[6..12], &[6, 5, 4, 6, 7, 5]);
}

#[test]
fn add_face_appends_one_quad() {
    let mut mesh = MeshData::new();
    add_face(&mut mesh, VoxelType::Dirt, Vec3i::new(0, 0, 0), VoxelFace::Top);
    assert_eq!(mesh.positions.len(), 4);
    assert_eq!(mesh.indices.len(), 6);
    assert_eq!(mesh.data.len(), 4);
    assert_eq!(mesh.positions[0], Vec3i::new(-1, 1, -1));
    // Dirt everywhere: texture 2, top intensity 5, corner (0, 0):
    // (2 << 6) | (5 << 2) = 148.
    assert_eq!(mesh.data[0], 148);
}

use voxel_world::face::{quad_index_offset, uv_corner, VoxelFace};
use voxel_world::pos::Vec3i;
use voxel_world::voxel::VoxelType;

const FACES: [VoxelFace; 6] = [
    VoxelFace::Left,
    VoxelFace::Right,
    VoxelFace::Bottom,
    VoxelFace::Top,
    VoxelFace::Back,
    VoxelFace::Front,
];

#[test]
fn normals_are_the_axis_directions() {
    assert_eq!(VoxelFace::Left.normal(), Vec3i::new(-1, 0, 0));
    assert_eq!(VoxelFace::Right.normal(), Vec3i::new(1, 0, 0));
    assert_eq!(VoxelFace::Bottom.normal(), Vec3i::new(0, -1, 0));
    assert_eq!(VoxelFace::Top.normal(), Vec3i::new(0, 1, 0));
    assert_eq!(VoxelFace::Back.normal(), Vec3i::new(0, 0, -1));
    assert_eq!(VoxelFace::Front.normal(), Vec3i::new(0, 0, 1));
}

#[test]
fn color_intensities_shade_by_direction() {
    let intensities: Vec<u32> = FACES.iter().map(|f| f.color_intensity()).collect();
    assert_eq!(intensities, vec![3, 3, 2, 5, 4, 4]);
}

#[test]
fn side_faces_are_the_four_verticals() {
    assert!(VoxelFace::Left.is_side_face());
    assert!(VoxelFace::Right.is_side_face());
    assert!(VoxelFace::Back.is_side_face());
    assert!(VoxelFace::Front.is_side_face());
    assert!(!VoxelFace::Top.is_side_face());
    assert!(!VoxelFace::Bottom.is_side_face());
}

#[test]
fn face_order_round_trips_through_indices() {
    for (i, face) in FACES.iter().enumerate() {
        assert_eq!(face.index(), i);
        assert_eq!(VoxelFace::from_index(i), *face);
    }
}

#[test]
fn vertex_offsets_are_cube_corners_on_the_face() {
    for face in FACES {
        let n = face.normal();
        for c in 0..4 {
            let off = face.vertex_offset(c);
            // Each component is a half-unit corner offset.
            for v in [off.x, off.y, off.z] {
                assert!(v == -1 || v == 1);
            }
            // The corner lies on the face's plane.
            assert_eq!(off.x * n.x + off.y * n.y + off.z * n.z, 1);
        }
    }
}

#[test]
fn winding_pattern_and_uv_corners() {
    let pattern: Vec<u32> = (0..6).map(quad_index_offset).collect();
    assert_eq!(pattern, vec![2, 1, 0, 2, 3, 1]);
    assert_eq!(uv_corner(0), (0, 0));
    assert_eq!(uv_corner(1), (1, 0));
    assert_eq!(uv_corner(2), (0, 1));
    assert_eq!(uv_corner(3), (1, 1));
}

#[test]
fn texture_indices_per_voxel_type_and_face() {
    assert!(VoxelType::Air.is_transparent());
    assert!(!VoxelType::Grass.is_transparent());
    assert!(!VoxelType::Dirt.is_transparent());

    assert_eq!(VoxelType::Grass.get_face_index(VoxelFace::Left), 1);
    assert_eq!(VoxelType::Grass.get_face_index(VoxelFace::Top), 0);
    assert_eq!(VoxelType::Grass.get_face_index(VoxelFace::Bottom), 2);
    for face in FACES {
        assert_eq!(VoxelType::Dirt.get_face_index(face), 2);
        assert_eq!(VoxelType::Air.get_face_index(face), 0);
    }
}

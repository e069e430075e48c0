use block_mesh::{Axis, OrientedBlockFace, RIGHT_HANDED_Y_UP_CONFIG};
use voxel_mesher::{Face, Quad, UnorientedQuad};

fn all_faces() -> [Face; 6] {
    [Face::NegX, Face::NegY, Face::NegZ, Face::PosX, Face::PosY, Face::PosZ]
}

fn rects() -> Vec<UnorientedQuad> {
    vec![
        UnorientedQuad { minimum: [1, 1, 1], width: 1, height: 1 },
        UnorientedQuad { minimum: [2, 3, 4], width: 5, height: 7 },
        UnorientedQuad { minimum: [0, 0, 0], width: 3, height: 1 },
        UnorientedQuad { minimum: [30, 1, 17], width: 1, height: 32 },
    ]
}

fn outside_face(face: Face) -> OrientedBlockFace {
    RIGHT_HANDED_Y_UP_CONFIG.faces[face.index()]
}

fn outside_quad(rect: &UnorientedQuad) -> block_mesh::UnorientedQuad {
    block_mesh::UnorientedQuad { minimum: rect.minimum, width: rect.width, height: rect.height }
}

#[test]
fn faces_are_numbered_in_meshing_order() {
    for (i, face) in all_faces().into_iter().enumerate() {
        assert_eq!(face.index(), i);
        assert_eq!(Face::from_index(i), face);
    }
}

#[test]
fn face_axes_and_signs() {
    assert_eq!(Face::NegX.sign(), -1);
    assert_eq!(Face::PosZ.sign(), 1);
    assert_eq!((Face::NegX.normal_axis(), Face::NegX.u_axis(), Face::NegX.v_axis()), (0, 2, 1));
    assert_eq!((Face::PosX.normal_axis(), Face::PosX.u_axis(), Face::PosX.v_axis()), (0, 2, 1));
    assert_eq!((Face::NegY.normal_axis(), Face::NegY.u_axis(), Face::NegY.v_axis()), (1, 2, 0));
    assert_eq!((Face::PosY.normal_axis(), Face::PosY.u_axis(), Face::PosY.v_axis()), (1, 2, 0));
    assert_eq!((Face::NegZ.normal_axis(), Face::NegZ.u_axis(), Face::NegZ.v_axis()), (2, 0, 1));
    assert_eq!((Face::PosZ.normal_axis(), Face::PosZ.u_axis(), Face::PosZ.v_axis()), (2, 0, 1));
}

#[test]
fn signed_normals_are_unit_vectors() {
    assert_eq!(Face::NegX.signed_normal(), [-1, 0, 0]);
    assert_eq!(Face::NegY.signed_normal(), [0, -1, 0]);
    assert_eq!(Face::NegZ.signed_normal(), [0, 0, -1]);
    assert_eq!(Face::PosX.signed_normal(), [1, 0, 0]);
    assert_eq!(Face::PosY.signed_normal(), [0, 1, 0]);
    assert_eq!(Face::PosZ.signed_normal(), [0, 0, 1]);
}

#[test]
fn signed_normals_agree_with_block_mesh() {
    for face in all_faces() {
        assert_eq!(face.signed_normal(), outside_face(face).signed_normal().to_array());
        let normals = face.quad_mesh_normals();
        let outside = outside_face(face).quad_mesh_normals();
        for k in 0..4 {
            for axis in 0..3 {
                assert_eq!(normals[k][axis] as f32, outside[k][axis]);
            }
        }
    }
}

#[test]
fn corners_of_a_quad_on_each_side_of_x() {
    let rect = UnorientedQuad { minimum: [2, 3, 4], width: 5, height: 7 };
    assert_eq!(Face::NegX.quad_corners(&rect), [[2, 3, 4], [2, 3, 9], [2, 10, 4], [2, 10, 9]]);
    assert_eq!(Face::PosX.quad_corners(&rect), [[3, 3, 4], [3, 3, 9], [3, 10, 4], [3, 10, 9]]);
}

#[test]
fn corners_of_a_quad_on_y_and_z_faces() {
    let rect = UnorientedQuad { minimum: [2, 3, 4], width: 5, height: 7 };
    assert_eq!(Face::NegY.quad_corners(&rect), [[2, 3, 4], [2, 3, 9], [9, 3, 4], [9, 3, 9]]);
    assert_eq!(Face::PosY.quad_corners(&rect), [[2, 4, 4], [2, 4, 9], [9, 4, 4], [9, 4, 9]]);
    assert_eq!(Face::NegZ.quad_corners(&rect), [[2, 3, 4], [7, 3, 4], [2, 10, 4], [7, 10, 4]]);
    assert_eq!(Face::PosZ.quad_corners(&rect), [[2, 3, 5], [7, 3, 5], [2, 10, 5], [7, 10, 5]]);
}

#[test]
fn corners_agree_with_block_mesh() {
    for face in all_faces() {
        for rect in rects() {
            let corners = face.quad_corners(&rect);
            let outside = outside_face(face).quad_corners(&outside_quad(&rect));
            for k in 0..4 {
                assert_eq!(corners[k], outside[k].to_array());
            }
            let positions = outside_face(face).quad_mesh_positions(&outside_quad(&rect), 1.0);
            for k in 0..4 {
                for axis in 0..3 {
                    assert_eq!(corners[k][axis] as f32, positions[k][axis]);
                }
            }
        }
    }
}

#[test]
fn indices_of_a_quad_wound_either_way() {
    assert_eq!(Face::NegX.quad_mesh_indices(8), [8, 9, 10, 9, 11, 10]);
    assert_eq!(Face::PosY.quad_mesh_indices(0), [0, 1, 2, 1, 3, 2]);
    assert_eq!(Face::PosZ.quad_mesh_indices(4), [4, 5, 6, 5, 7, 6]);
    assert_eq!(Face::PosX.quad_mesh_indices(8), [8, 10, 9, 9, 10, 11]);
    assert_eq!(Face::NegY.quad_mesh_indices(0), [0, 2, 1, 1, 2, 3]);
    assert_eq!(Face::NegZ.quad_mesh_indices(4), [4, 6, 5, 5, 6, 7]);
    assert_eq!(
        Face::PosX.quad_mesh_indices(u32::MAX - 3),
        [u32::MAX - 3, u32::MAX - 1, u32::MAX - 2, u32::MAX - 2, u32::MAX - 1, u32::MAX]
    );
}

#[test]
fn indices_agree_with_block_mesh() {
    for face in all_faces() {
        for start in [0u32, 4, 8, 1000, 4_000_000] {
            assert_eq!(face.quad_mesh_indices(start), outside_face(face).quad_mesh_indices(start));
        }
    }
}

#[test]
fn tex_coords_span_the_quad() {
    let rect = UnorientedQuad { minimum: [2, 3, 4], width: 5, height: 7 };
    assert_eq!(Face::NegX.tex_coords(false, &rect), [[0, 0], [5, 0], [0, 7], [5, 7]]);
    assert_eq!(Face::PosX.tex_coords(false, &rect), [[5, 0], [0, 0], [5, 7], [0, 7]]);
    assert_eq!(Face::NegX.tex_coords(true, &rect), [[0, 7], [5, 7], [0, 0], [5, 0]]);
    assert_eq!(Face::PosX.tex_coords(true, &rect), [[5, 7], [0, 7], [5, 0], [0, 0]]);
}

#[test]
fn tex_coords_agree_with_block_mesh() {
    assert!(RIGHT_HANDED_Y_UP_CONFIG.u_flip_face == Axis::X);
    for face in all_faces() {
        for rect in rects() {
            for flip_v in [false, true] {
                let coords = face.tex_coords(flip_v, &rect);
                let outside = outside_face(face).tex_coords(
                    RIGHT_HANDED_Y_UP_CONFIG.u_flip_face,
                    flip_v,
                    &outside_quad(&rect),
                );
                for k in 0..4 {
                    assert_eq!(coords[k][0] as f32, outside[k][0]);
                    assert_eq!(coords[k][1] as f32, outside[k][1]);
                }
            }
        }
    }
}

#[test]
fn a_quad_keeps_its_rectangle() {
    let quad = Quad { face: Face::PosY, minimum: [1, 2, 3], width: 4, height: 5, merge_value: 9 };
    assert_eq!(quad.unoriented(), UnorientedQuad { minimum: [1, 2, 3], width: 4, height: 5 });
}

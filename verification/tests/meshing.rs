use std::cell::RefCell;

use block_mesh::ndshape::RuntimeShape;
use block_mesh::{GreedyQuadsBuffer, RIGHT_HANDED_Y_UP_CONFIG};
use voxel_mesher::{
    assemble_mesh, generate_greedy_mesh, greedy_quads, mesh_samples, sample_grid, Face, GridShape,
    MeshBuffers, Quad, VoxelState,
};

fn grid_with(shape: &GridShape, cells: &[([u32; 3], u16)]) -> Vec<VoxelState> {
    let mut samples = vec![VoxelState::empty(); shape.size() as usize];
    for (p, state) in cells {
        samples[shape.linearize(*p) as usize] = VoxelState(*state);
    }
    samples
}

fn quads_on(quads: &[Quad], face: Face) -> Vec<Quad> {
    quads.iter().filter(|q| q.face == face).copied().collect()
}

fn sphere(p: [u32; 3]) -> VoxelState {
    let unit = |c: u32| (2.0 / 32.0) * c as f32 - 1.0;
    let (x, y, z) = (unit(p[0]), unit(p[1]), unit(p[2]));
    VoxelState(if (x * x + y * y + z * z).sqrt() < 0.9 { 1 } else { 0 })
}

#[test]
fn the_sampler_is_called_once_for_every_cell() {
    let shape = GridShape::new(2).unwrap();
    let calls: RefCell<Vec<[u32; 3]>> = RefCell::new(Vec::new());
    let sampler = |p: [u32; 3]| {
        calls.borrow_mut().push(p);
        VoxelState((p[0] + 4 * p[1] + 16 * p[2]) as u16)
    };
    let samples = sample_grid(&shape, &sampler);
    assert_eq!(samples.len(), 64);
    assert_eq!(calls.borrow().len(), 64);
    for z in 0..4 {
        for y in 0..4 {
            for x in 0..4 {
                let p = [x, y, z];
                assert_eq!(calls.borrow().iter().filter(|c| **c == p).count(), 1);
                assert_eq!(samples[shape.linearize(p) as usize], VoxelState((x + 4 * y + 16 * z) as u16));
            }
        }
    }
}

#[test]
fn border_cells_are_sampled_like_the_others() {
    let shape = GridShape::new(1).unwrap();
    let samples = sample_grid(&shape, &|p: [u32; 3]| VoxelState(if p == [0, 0, 0] { 5 } else { 0 }));
    assert_eq!(samples.len(), 27);
    assert_eq!(samples[0], VoxelState(5));
    assert_eq!(samples.iter().filter(|s| **s != VoxelState(0)).count(), 1);
}

#[test]
fn a_single_cell_gives_one_unit_quad_on_each_face() {
    let shape = GridShape::new(3).unwrap();
    let samples = grid_with(&shape, &[([2, 2, 2], 1)]);
    let quads = greedy_quads(&shape, &samples);
    assert_eq!(quads.len(), 6);
    let faces = [Face::NegX, Face::NegY, Face::NegZ, Face::PosX, Face::PosY, Face::PosZ];
    for (quad, face) in quads.iter().zip(faces) {
        assert_eq!(*quad, Quad { face, minimum: [2, 2, 2], width: 1, height: 1, merge_value: 1 });
    }
    let mesh = assemble_mesh(&quads);
    assert_eq!(mesh.positions.len(), 24);
    assert_eq!(mesh.normals.len(), 24);
    assert_eq!(mesh.tex_coords.len(), 24);
    assert_eq!(mesh.layers.len(), 24);
    assert_eq!(mesh.indices.len(), 36);
}

#[test]
fn a_single_cell_is_meshed_as_a_unit_cube() {
    let shape = GridShape::new(3).unwrap();
    let mesh = generate_greedy_mesh(&shape, |p: [u32; 3]| VoxelState(if p == [2, 2, 2] { 1 } else { 0 }));
    assert_eq!(mesh.positions.len(), 24);
    assert_eq!(mesh.indices.len(), 36);
    assert_eq!(&mesh.positions[0..4], &[[2, 2, 2], [2, 2, 3], [2, 3, 2], [2, 3, 3]]);
    assert_eq!(&mesh.positions[12..16], &[[3, 2, 2], [3, 2, 3], [3, 3, 2], [3, 3, 3]]);
    assert_eq!(&mesh.positions[20..24], &[[2, 2, 3], [3, 2, 3], [2, 3, 3], [3, 3, 3]]);
    assert_eq!(&mesh.normals[0..4], &[[-1, 0, 0]; 4]);
    assert_eq!(&mesh.normals[16..20], &[[0, 1, 0]; 4]);
    assert_eq!(&mesh.tex_coords[0..4], &[[0, 1], [1, 1], [0, 0], [1, 0]]);
    assert_eq!(&mesh.tex_coords[12..16], &[[1, 1], [0, 1], [1, 0], [0, 0]]);
    assert_eq!(&mesh.indices[0..6], &[0, 1, 2, 1, 3, 2]);
    assert_eq!(&mesh.indices[6..12], &[4, 6, 5, 5, 6, 7]);
    assert_eq!(&mesh.indices[30..36], &[20, 21, 22, 21, 23, 22]);
    assert!(mesh.layers.iter().all(|l| *l == 1));
    for p in mesh.positions.iter() {
        for axis in 0..3 {
            assert!(p[axis] == 2 || p[axis] == 3);
        }
    }
    for quad in 0..6 {
        let normal = mesh.normals[4 * quad];
        let mut dot = 0.0f32;
        for axis in 0..3 {
            let centroid: f32 = (0..4).map(|k| mesh.positions[4 * quad + k][axis] as f32).sum::<f32>() / 4.0;
            dot += normal[axis] as f32 * (centroid - 2.5);
        }
        assert!(dot > 0.0);
    }
}

#[test]
fn an_empty_grid_gives_an_empty_mesh() {
    for interior in [0u32, 1, 3, 8] {
        let shape = GridShape::new(interior).unwrap();
        let samples = vec![VoxelState::empty(); shape.size() as usize];
        assert_eq!(greedy_quads(&shape, &samples).len(), 0);
        let mesh = generate_greedy_mesh(&shape, |_p: [u32; 3]| VoxelState::empty());
        assert!(mesh.positions.is_empty());
        assert!(mesh.normals.is_empty());
        assert!(mesh.tex_coords.is_empty());
        assert!(mesh.layers.is_empty());
        assert!(mesh.indices.is_empty());
    }
}

#[test]
fn a_grid_without_empty_cells_has_no_surface() {
    let shape = GridShape::new(4).unwrap();
    let mesh = generate_greedy_mesh(&shape, |_p: [u32; 3]| VoxelState(3));
    assert!(mesh.positions.is_empty());
    assert!(mesh.indices.is_empty());
}

#[test]
fn no_quads_assemble_to_no_buffers() {
    let mesh = assemble_mesh(&Vec::new());
    assert_eq!(
        mesh,
        MeshBuffers {
            positions: vec![],
            normals: vec![],
            tex_coords: vec![],
            layers: vec![],
            indices: vec![],
        }
    );
}

#[test]
fn a_solid_block_is_meshed_as_a_closed_shell() {
    for interior in [1u32, 2, 3, 5] {
        let shape = GridShape::new(interior).unwrap();
        let side = shape.side();
        let inside = |c: u32| 1 <= c && c < side - 1;
        let samples =
            sample_grid(&shape, &|p: [u32; 3]| VoxelState(if inside(p[0]) && inside(p[1]) && inside(p[2]) { 4 } else { 0 }));
        let quads = greedy_quads(&shape, &samples);
        assert_eq!(quads.len(), 6);
        let area: u32 = quads.iter().map(|q| q.width * q.height).sum();
        assert_eq!(area, 6 * interior * interior);
        for quad in quads.iter() {
            assert_eq!((quad.width, quad.height, quad.merge_value), (interior, interior, 4));
        }
        let mesh = assemble_mesh(&quads);
        let middle = side as f32 / 2.0;
        for quad in 0..quads.len() {
            let normal = mesh.normals[4 * quad];
            let mut dot = 0.0f32;
            for axis in 0..3 {
                let centroid: f32 =
                    (0..4).map(|k| mesh.positions[4 * quad + k][axis] as f32).sum::<f32>() / 4.0;
                dot += normal[axis] as f32 * (centroid - middle);
            }
            assert!(dot > 0.0);
        }
    }
}

#[test]
fn two_adjacent_cells_of_one_material_are_merged() {
    let shape = GridShape::new(3).unwrap();
    for (axis, second) in [(0usize, [2u32, 1, 1]), (1, [1, 2, 1]), (2, [1, 1, 2])] {
        let samples = grid_with(&shape, &[([1, 1, 1], 2), (second, 2)]);
        let quads = greedy_quads(&shape, &samples);
        assert_eq!(quads.len(), 6);
        for quad in quads.iter() {
            assert_eq!(quad.merge_value, 2);
            if quad.face.normal_axis() == axis {
                assert_eq!((quad.width, quad.height), (1, 1));
            } else if quad.face.u_axis() == axis {
                assert_eq!((quad.width, quad.height), (2, 1));
                assert_eq!(quad.minimum, [1, 1, 1]);
            } else {
                assert_eq!(quad.face.v_axis(), axis);
                assert_eq!((quad.width, quad.height), (1, 2));
                assert_eq!(quad.minimum, [1, 1, 1]);
            }
        }
    }
}

#[test]
fn a_cell_of_another_material_splits_the_quad() {
    let shape = GridShape::new(3).unwrap();
    let samples = grid_with(&shape, &[([1, 1, 1], 2), ([2, 1, 1], 7), ([3, 1, 1], 2)]);
    let quads = greedy_quads(&shape, &samples);
    let top = quads_on(&quads, Face::PosY);
    assert_eq!(
        top,
        vec![
            Quad { face: Face::PosY, minimum: [1, 1, 1], width: 1, height: 1, merge_value: 2 },
            Quad { face: Face::PosY, minimum: [2, 1, 1], width: 1, height: 1, merge_value: 7 },
            Quad { face: Face::PosY, minimum: [3, 1, 1], width: 1, height: 1, merge_value: 2 },
        ]
    );
    for face in [Face::NegY, Face::NegZ, Face::PosZ] {
        assert_eq!(quads_on(&quads, face).len(), 3);
    }
    assert_eq!(quads_on(&quads, Face::NegX).len(), 1);
    assert_eq!(quads_on(&quads, Face::PosX).len(), 1);
    let one_material = grid_with(&shape, &[([1, 1, 1], 2), ([2, 1, 1], 2), ([3, 1, 1], 2)]);
    let merged = quads_on(&greedy_quads(&shape, &one_material), Face::PosY);
    assert_eq!(
        merged,
        vec![Quad { face: Face::PosY, minimum: [1, 1, 1], width: 1, height: 3, merge_value: 2 }]
    );
}

#[test]
fn an_empty_cell_between_two_cells_splits_the_quad() {
    let shape = GridShape::new(3).unwrap();
    let samples = grid_with(&shape, &[([1, 2, 2], 1), ([3, 2, 2], 1)]);
    let quads = greedy_quads(&shape, &samples);
    assert_eq!(quads.len(), 12);
    for quad in quads.iter() {
        assert_eq!((quad.width, quad.height), (1, 1));
    }
    assert_eq!(quads_on(&quads, Face::NegX).len(), 2);
    assert_eq!(quads_on(&quads, Face::PosX).len(), 2);
}

#[test]
fn the_layer_of_a_vertex_is_the_material_of_its_quad() {
    let shape = GridShape::new(3).unwrap();
    let samples = grid_with(&shape, &[([1, 1, 1], 300), ([3, 3, 3], 9)]);
    let mesh = mesh_samples(&shape, &samples);
    assert_eq!(mesh.layers.len(), 48);
    for quad in 0..12 {
        let corner = mesh.positions[4 * quad];
        let expected = if corner[0] <= 2 { 300 } else { 9 };
        for k in 0..4 {
            assert_eq!(mesh.layers[4 * quad + k], expected);
        }
    }
}

#[test]
fn quads_come_grouped_by_face_in_meshing_order() {
    let shape = GridShape::new(32).unwrap();
    let samples = sample_grid(&shape, &sphere);
    let quads = greedy_quads(&shape, &samples);
    assert!(quads.len() > 6);
    for pair in quads.windows(2) {
        assert!(pair[0].face.index() <= pair[1].face.index());
    }
    for face in [Face::NegX, Face::NegY, Face::NegZ, Face::PosX, Face::PosY, Face::PosZ] {
        assert!(!quads_on(&quads, face).is_empty());
    }
}

#[test]
fn quads_are_those_of_block_mesh() {
    let shape = GridShape::new(32).unwrap();
    let samples = sample_grid(&shape, &sphere);
    let quads = greedy_quads(&shape, &samples);
    let mut buffer = GreedyQuadsBuffer::new(samples.len());
    block_mesh::greedy_quads(
        &samples,
        &RuntimeShape::<u32, 3>::new([34; 3]),
        [0; 3],
        [33; 3],
        &RIGHT_HANDED_Y_UP_CONFIG.faces,
        &mut buffer,
    );
    assert_eq!(quads.len(), buffer.quads.num_quads());
    let mut next = 0;
    for (f, group) in buffer.quads.groups.iter().enumerate() {
        for outside in group.iter() {
            let quad = quads[next];
            assert_eq!(quad.face.index(), f);
            assert_eq!(quad.minimum, outside.minimum);
            assert_eq!(quad.width, outside.width);
            assert_eq!(quad.height, outside.height);
            assert_eq!(quad.merge_value, 1);
            next += 1;
        }
    }
}

#[test]
fn the_mesh_of_a_sphere_is_that_of_block_mesh() {
    let shape = GridShape::new(32).unwrap();
    let mesh = generate_greedy_mesh(&shape, sphere);
    let samples = sample_grid(&shape, &sphere);
    let mut buffer = GreedyQuadsBuffer::new(samples.len());
    block_mesh::greedy_quads(
        &samples,
        &RuntimeShape::<u32, 3>::new([34; 3]),
        [0; 3],
        [33; 3],
        &RIGHT_HANDED_Y_UP_CONFIG.faces,
        &mut buffer,
    );
    let mut indices: Vec<u32> = Vec::new();
    let mut positions: Vec<[f32; 3]> = Vec::new();
    let mut normals: Vec<[f32; 3]> = Vec::new();
    let mut tex_coords: Vec<[f32; 2]> = Vec::new();
    for (group, face) in buffer.quads.groups.iter().zip(RIGHT_HANDED_Y_UP_CONFIG.faces.iter()) {
        for quad in group.iter() {
            indices.extend_from_slice(&face.quad_mesh_indices(positions.len() as u32));
            positions.extend_from_slice(&face.quad_mesh_positions(quad, 1.0));
            normals.extend_from_slice(&face.quad_mesh_normals());
            tex_coords.extend_from_slice(&face.tex_coords(RIGHT_HANDED_Y_UP_CONFIG.u_flip_face, true, quad));
        }
    }
    assert!(positions.len() > 24);
    assert_eq!(mesh.indices, indices);
    assert_eq!(mesh.positions.len(), positions.len());
    for i in 0..positions.len() {
        for axis in 0..3 {
            assert_eq!(mesh.positions[i][axis] as f32, positions[i][axis]);
            assert_eq!(mesh.normals[i][axis] as f32, normals[i][axis]);
        }
        assert_eq!(mesh.tex_coords[i][0] as f32, tex_coords[i][0]);
        assert_eq!(mesh.tex_coords[i][1] as f32, tex_coords[i][1]);
        assert_eq!(mesh.layers[i], 1);
    }
}

#[test]
fn every_index_of_a_mesh_is_that_of_a_vertex() {
    let shape = GridShape::new(32).unwrap();
    let samples = sample_grid(&shape, &sphere);
    let quads = greedy_quads(&shape, &samples);
    let mesh = assemble_mesh(&quads);
    assert_eq!(mesh.positions.len(), 4 * quads.len());
    assert_eq!(mesh.normals.len(), 4 * quads.len());
    assert_eq!(mesh.tex_coords.len(), 4 * quads.len());
    assert_eq!(mesh.layers.len(), 4 * quads.len());
    assert_eq!(mesh.indices.len(), 6 * quads.len());
    for index in mesh.indices.iter() {
        assert!((*index as usize) < mesh.positions.len());
    }
    for (j, triangle_pair) in mesh.indices.chunks(6).enumerate() {
        for index in triangle_pair {
            assert_eq!(*index as usize / 4, j);
        }
    }
}

#[test]
fn meshing_twice_gives_the_same_buffers() {
    let shape = GridShape::new(32).unwrap();
    let first = generate_greedy_mesh(&shape, sphere);
    let second = generate_greedy_mesh(&shape, sphere);
    assert_eq!(first, second);
    assert!(!first.positions.is_empty());
    let samples = sample_grid(&shape, &sphere);
    assert_eq!(mesh_samples(&shape, &samples), first);
}

fn assert_cuts_surface(shape: &GridShape, samples: &[VoxelState], quads: &[Quad]) {
    let side = shape.side();
    for face in [Face::NegX, Face::NegY, Face::NegZ, Face::PosX, Face::PosY, Face::PosZ] {
        let mut covered = vec![0u32; samples.len()];
        for quad in quads_on(quads, face) {
            assert!(quad.width >= 1 && quad.height >= 1);
            for a in 0..quad.width {
                for b in 0..quad.height {
                    let mut c = quad.minimum;
                    c[face.u_axis()] += a;
                    c[face.v_axis()] += b;
                    covered[shape.linearize(c) as usize] += 1;
                    assert_eq!(samples[shape.linearize(c) as usize].merge_value(), quad.merge_value);
                }
            }
        }
        for z in 0..side {
            for y in 0..side {
                for x in 0..side {
                    let c = [x, y, z];
                    let interior = c.iter().all(|v| 1 <= *v && *v < side - 1);
                    let visible = interior && {
                        let mut n = c;
                        n[face.normal_axis()] = (n[face.normal_axis()] as i32 + face.sign()) as u32;
                        samples[shape.linearize(c) as usize] != VoxelState(0)
                            && samples[shape.linearize(n) as usize] == VoxelState(0)
                    };
                    assert_eq!(covered[shape.linearize(c) as usize], if visible { 1 } else { 0 });
                }
            }
        }
    }
}

#[test]
fn the_quads_of_a_sphere_cut_its_surface() {
    let shape = GridShape::new(8).unwrap();
    let unit = |c: u32| (2.0 / 8.0) * c as f32 - 1.25;
    let ball = |p: [u32; 3]| {
        let (x, y, z) = (unit(p[0]), unit(p[1]), unit(p[2]));
        VoxelState(if x * x + y * y + z * z < 0.8 { 1 + (p[1] % 2) as u16 } else { 0 })
    };
    let samples = sample_grid(&shape, &ball);
    let quads = greedy_quads(&shape, &samples);
    assert!(quads.len() > 6);
    assert_cuts_surface(&shape, &samples, &quads);
}

#[test]
fn the_quads_of_scattered_cells_cut_their_surface() {
    let mut seed: u64 = 0x2545_f491_4f6c_dd1d;
    for round in 0..40u32 {
        let shape = GridShape::new(1 + round % 6).unwrap();
        let mut samples = Vec::new();
        for _ in 0..shape.size() {
            seed = seed.wrapping_mul(6364136223846793005).wrapping_add(1442695040888963407);
            let draw = (seed >> 33) % 8;
            samples.push(VoxelState(if draw < 3 { 0 } else { (draw % 3 + 1) as u16 }));
        }
        let quads = greedy_quads(&shape, &samples);
        assert_cuts_surface(&shape, &samples, &quads);
        let mesh = mesh_samples(&shape, &samples);
        assert_eq!(mesh, assemble_mesh(&quads));
        assert_eq!(mesh.indices.len(), 6 * quads.len());
    }
}

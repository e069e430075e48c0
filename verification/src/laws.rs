//! Laws of meshing: what holds of every grid and every sampler.

use vstd::prelude::*;
use crate::counting::{
    box_cells, lemma_box_len, lemma_partition_face_area, lemma_total_area_by_face, total_area,
    visible_cells,
};
use crate::face::{along, Face, Quad};
use crate::mesh::{is_greedy_mesh, is_greedy_mesh_of, mesh_of, MeshModel};
use crate::sampling::{coords_of, is_sampling};
use crate::shape::{
    cell_of, in_grid, in_interior, lemma_linearize_bound, lemma_linearize_delinearize,
    spec_delinearize, spec_volume, Cell, GridShape,
};
use crate::surface::{face_visible, is_patch, is_surface_partition, lemma_patch_in_interior, state_at};
use crate::voxel::VoxelState;

verus! {

/// Whether `sampler` returns one state only for each cell of a grid of the
/// given side.
pub open spec fn is_pure<F: Fn([u32; 3]) -> VoxelState>(side: int, sampler: F) -> bool {
    forall|p: [u32; 3], a: VoxelState, b: VoxelState|
        in_grid(side, cell_of(p)) && #[trigger] call_ensures(sampler, (p,), a) && #[trigger] call_ensures(
            sampler,
            (p,),
            b,
        ) ==> a == b
}

/// Meshing is deterministic: two greedy meshes of grids filled by one pure
/// sampler are equal, buffer by buffer.
pub proof fn lemma_meshing_is_deterministic<F: Fn([u32; 3]) -> VoxelState>(
    shape: GridShape,
    sampler: F,
    first: MeshModel,
    second: MeshModel,
)
    requires
        shape.wf(),
        is_pure(shape.side() as int, sampler),
        is_greedy_mesh(shape.side() as int, sampler, first),
        is_greedy_mesh(shape.side() as int, sampler, second),
    ensures
        first == second,
{
    let side = shape.side() as int;
    shape.lemma_wf();
    let a = choose|samples: Seq<VoxelState>| #[trigger]
        is_sampling(side, sampler, samples) && is_greedy_mesh_of(samples, side, first);
    let b = choose|samples: Seq<VoxelState>| #[trigger]
        is_sampling(side, sampler, samples) && is_greedy_mesh_of(samples, side, second);
    assert forall|i: int| 0 <= i < a.len() implies a[i] == b[i] by {
        lemma_linearize_delinearize(side, i);
        let p = coords_of(spec_delinearize(side, i));
        assert(cell_of(p) == spec_delinearize(side, i));
        assert(call_ensures(sampler, (p,), a[i]));
        assert(call_ensures(sampler, (p,), b[i]));
    }
    assert(a =~= b);
}

/// A grid of empty cells has no surface: a partition of it has no quads,
/// and their mesh has no vertex and no index.
pub proof fn lemma_empty_grid_has_no_quads(samples: Seq<VoxelState>, side: int, quads: Seq<Quad>)
    requires
        samples.len() == spec_volume(side),
        forall|i: int| 0 <= i < samples.len() ==> (#[trigger] samples[i]).is_empty(),
        is_surface_partition(samples, side, quads),
    ensures
        quads.len() == 0,
        mesh_of(quads).is_empty(),
{
    if quads.len() > 0 {
        let quad = quads[0];
        assert(is_patch(samples, side, quad));
        lemma_patch_in_interior(samples, side, quad);
        lemma_linearize_bound(side, quad.origin());
        assert(state_at(samples, side, quad.origin()).is_empty());
    }
}

/// A sampler that returns the empty state for every cell gives the empty
/// mesh: no vertex and no index.
pub proof fn lemma_empty_sampler_gives_empty_mesh<F: Fn([u32; 3]) -> VoxelState>(
    shape: GridShape,
    sampler: F,
    mesh: MeshModel,
)
    requires
        shape.wf(),
        forall|p: [u32; 3], state: VoxelState|
            in_grid(shape.side() as int, cell_of(p)) && #[trigger] call_ensures(sampler, (p,), state)
                ==> state.is_empty(),
        is_greedy_mesh(shape.side() as int, sampler, mesh),
    ensures
        mesh.is_empty(),
{
    let side = shape.side() as int;
    shape.lemma_wf();
    let samples = choose|samples: Seq<VoxelState>| #[trigger]
        is_sampling(side, sampler, samples) && is_greedy_mesh_of(samples, side, mesh);
    assert forall|i: int| 0 <= i < samples.len() implies (#[trigger] samples[i]).is_empty() by {
        lemma_linearize_delinearize(side, i);
        let p = coords_of(spec_delinearize(side, i));
        assert(cell_of(p) == spec_delinearize(side, i));
        assert(call_ensures(sampler, (p,), samples[i]));
    }
    lemma_empty_grid_has_no_quads(samples, side, crate::greedy::greedy_quads_of(samples, side));
}

/// The layer of a vertex names a material. In the mesh of a partition of
/// the surface every vertex has as its layer the merge value of the cells
/// of its quad, and that is never `0`, the value of the empty cell.
pub proof fn lemma_layers_are_materials(samples: Seq<VoxelState>, side: int, quads: Seq<Quad>)
    requires
        is_surface_partition(samples, side, quads),
    ensures
        forall|i: int|
            0 <= i < mesh_of(quads).layers.len() ==> {
                &&& #[trigger] mesh_of(quads).layers[i] != 0
                &&& mesh_of(quads).layers[i] == state_at(
                    samples,
                    side,
                    quads[i / 4].origin(),
                ).merge_value()
            },
{
    assert forall|i: int| 0 <= i < mesh_of(quads).layers.len() implies {
        &&& #[trigger] mesh_of(quads).layers[i] != 0
        &&& mesh_of(quads).layers[i] == state_at(samples, side, quads[i / 4].origin()).merge_value()
    } by {
        let quad = quads[i / 4];
        assert(is_patch(samples, side, quad));
        lemma_patch_in_interior(samples, side, quad);
    }
}

/// Whether the grid is a solid block: every interior cell has the state
/// `key`, and every border cell is empty.
pub open spec fn is_solid_block(samples: Seq<VoxelState>, side: int, key: u16) -> bool {
    &&& samples.len() == spec_volume(side)
    &&& forall|c: Cell|
        in_grid(side, c) ==> #[trigger] state_at(samples, side, c) == if in_interior(side, c) {
            VoxelState(key)
        } else {
            VoxelState::empty()
        }
}

/// The sum of the four corners of a quad: four times its centroid.
pub open spec fn corner_sum(quad: Quad) -> Cell {
    let a = quad.corner(0);
    let b = quad.corner(1);
    let c = quad.corner(2);
    let d = quad.corner(3);
    (a.0 + b.0 + c.0 + d.0, a.1 + b.1 + c.1 + d.1, a.2 + b.2 + c.2 + d.2)
}

/// The dot product of two vectors.
pub open spec fn dot(a: Cell, b: Cell) -> int {
    a.0 * b.0 + a.1 * b.1 + a.2 * b.2
}

/// Whether the normal of `quad` points away from the middle of the grid:
/// the dot product of the normal with the vector from the middle of the
/// grid to the centroid of the quad is positive. Both points are taken
/// four times, to stay with integers: the middle of a grid of side `side`
/// is at `side / 2` on every axis.
pub open spec fn points_outward(side: int, quad: Quad) -> bool {
    let sum = corner_sum(quad);
    dot(quad.face.spec_signed_normal(), (sum.0 - 2 * side, sum.1 - 2 * side, sum.2 - 2 * side)) > 0
}

/// The interior cells of the outermost layer in the direction of `face`.
pub open spec fn outer_layer(side: int, face: Face) -> Set<Cell> {
    Set::new(
        |c: Cell|
            in_interior(side, c) && along(c, face.spec_normal_axis()) == if face.spec_sign() > 0 {
                side - 2
            } else {
                1
            },
    )
}

/// In a solid block the visible faces of each direction are those of the
/// outermost layer of interior cells, and there are as many as the square
/// of the interior size.
pub proof fn lemma_solid_block_surface(samples: Seq<VoxelState>, side: int, key: u16, face: Face)
    requires
        side >= 2,
        key != 0,
        is_solid_block(samples, side, key),
    ensures
        visible_cells(samples, side, face) == outer_layer(side, face),
        outer_layer(side, face).finite(),
        outer_layer(side, face).len() == (side - 2) * (side - 2),
{
    let n = side - 2;
    let layer = outer_layer(side, face);
    assert forall|c: Cell| face_visible(samples, side, face, c) <==> layer.contains(c) by {
        if in_interior(side, c) {
            assert(in_grid(side, c));
            assert(in_grid(side, face.neighbor(c)));
            assert(state_at(samples, side, c) == VoxelState(key));
        }
    }
    assert(visible_cells(samples, side, face) =~= layer);
    match face {
        Face::NegX => {
            lemma_box_len((1, 1, 1), 1, n, n);
            assert(layer =~= box_cells((1, 1, 1), 1, n, n));
        },
        Face::PosX => {
            lemma_box_len((side - 2, 1, 1), 1, n, n);
            assert(layer =~= box_cells((side - 2, 1, 1), 1, n, n));
        },
        Face::NegY => {
            lemma_box_len((1, 1, 1), n, 1, n);
            assert(layer =~= box_cells((1, 1, 1), n, 1, n));
        },
        Face::PosY => {
            lemma_box_len((1, side - 2, 1), n, 1, n);
            assert(layer =~= box_cells((1, side - 2, 1), n, 1, n));
        },
        Face::NegZ => {
            lemma_box_len((1, 1, 1), n, n, 1);
            assert(layer =~= box_cells((1, 1, 1), n, n, 1));
        },
        Face::PosZ => {
            lemma_box_len((1, 1, side - 2), n, n, 1);
            assert(layer =~= box_cells((1, 1, side - 2), n, n, 1));
        },
    }
    assert(1 * n * n == n * n && n * 1 * n == n * n && n * n * 1 == n * n) by (nonlinear_arith);
}

/// A solid block is meshed as a closed shell. Whatever quads cut its
/// surface into patches, their total area is the surface area of the
/// interior cube, six times the square of its size, and every quad has a
/// normal that points away from the middle of the block.
pub proof fn lemma_solid_block_is_closed_shell(
    samples: Seq<VoxelState>,
    side: int,
    key: u16,
    quads: Seq<Quad>,
)
    requires
        side >= 2,
        key != 0,
        is_solid_block(samples, side, key),
        is_surface_partition(samples, side, quads),
    ensures
        total_area(quads) == 6 * ((side - 2) * (side - 2)),
        forall|k: int| 0 <= k < quads.len() ==> points_outward(side, #[trigger] quads[k]),
{
    lemma_total_area_by_face(quads);
    lemma_partition_face_area(samples, side, Face::NegX, quads);
    lemma_partition_face_area(samples, side, Face::NegY, quads);
    lemma_partition_face_area(samples, side, Face::NegZ, quads);
    lemma_partition_face_area(samples, side, Face::PosX, quads);
    lemma_partition_face_area(samples, side, Face::PosY, quads);
    lemma_partition_face_area(samples, side, Face::PosZ, quads);
    lemma_solid_block_surface(samples, side, key, Face::NegX);
    lemma_solid_block_surface(samples, side, key, Face::NegY);
    lemma_solid_block_surface(samples, side, key, Face::NegZ);
    lemma_solid_block_surface(samples, side, key, Face::PosX);
    lemma_solid_block_surface(samples, side, key, Face::PosY);
    lemma_solid_block_surface(samples, side, key, Face::PosZ);
    assert forall|k: int| 0 <= k < quads.len() implies points_outward(side, #[trigger] quads[k]) by {
        let quad = quads[k];
        assert(is_patch(samples, side, quad));
        lemma_patch_in_interior(samples, side, quad);
        assert(quad.covers(quad.origin()));
        assert(face_visible(samples, side, quad.face, quad.origin()));
        lemma_solid_block_surface(samples, side, key, quad.face);
        assert(outer_layer(side, quad.face).contains(quad.origin()));
        let axis = quad.face.spec_normal_axis();
        let level = along(quad.origin(), axis) + if quad.face.spec_sign() > 0 { 1int } else { 0 };
        assert(forall|i: int| 0 <= i < 4 ==> along(#[trigger] quad.corner(i), axis) == level);
        assert(along(quad.corner(0), axis) == level);
        assert(along(quad.corner(1), axis) == level);
        assert(along(quad.corner(2), axis) == level);
        assert(along(quad.corner(3), axis) == level);
        assert(along(corner_sum(quad), axis) == 4 * level);
        let normal = quad.face.spec_signed_normal();
        let sum = corner_sum(quad);
        let from_middle = (sum.0 - 2 * side, sum.1 - 2 * side, sum.2 - 2 * side);
        let sign = quad.face.spec_sign();
        assert(normal == crate::face::shifted((0, 0, 0), axis, sign));
        assert(dot(normal, from_middle) == sign * along(from_middle, axis)) by (nonlinear_arith)
            requires
                0 <= axis <= 2,
                normal == (
                    if axis == 0 { sign } else { 0 },
                    if axis == 1 { sign } else { 0 },
                    if axis == 2 { sign } else { 0 },
                ),
                dot(normal, from_middle) == normal.0 * from_middle.0 + normal.1 * from_middle.1
                    + normal.2 * from_middle.2,
                along(from_middle, axis) == if axis == 0 {
                    from_middle.0
                } else if axis == 1 {
                    from_middle.1
                } else {
                    from_middle.2
                },
        ;
        assert(sign * (4 * level - 2 * side) > 0) by (nonlinear_arith)
            requires
                side > 2,
                (sign == 1 && level == side - 1) || (sign == -1 && level == 1),
        ;
    }
}

/// Whether `mid` lies strictly between `a` and `b` on a line along the
/// axis `axis`.
pub open spec fn lies_between(a: Cell, mid: Cell, b: Cell, axis: int) -> bool {
    &&& 0 <= axis < 3
    &&& along(a, axis) < along(mid, axis) < along(b, axis)
    &&& forall|other: int|
        0 <= other < 3 && other != axis ==> along(a, other) == along(mid, other) && along(mid, other)
            == along(b, other)
}

/// A cell that differs splits a quad. Where two cell faces of one direction
/// lie in quads of a partition, and between the two cells lies a cell whose
/// face is not visible or whose merge value is another, the two faces lie
/// in two different quads.
pub proof fn lemma_dissimilar_cell_splits(
    samples: Seq<VoxelState>,
    side: int,
    quads: Seq<Quad>,
    j: int,
    k: int,
    a: Cell,
    mid: Cell,
    b: Cell,
    axis: int,
)
    requires
        is_surface_partition(samples, side, quads),
        0 <= j < quads.len(),
        0 <= k < quads.len(),
        quads[j].face == quads[k].face,
        quads[j].covers(a),
        quads[k].covers(b),
        lies_between(a, mid, b, axis),
        !face_visible(samples, side, quads[j].face, mid) || state_at(samples, side, mid).merge_value()
            != state_at(samples, side, a).merge_value(),
    ensures
        j != k,
{
    if j == k {
        let quad = quads[j];
        assert(is_patch(samples, side, quad));
        assert(along(a, 0) == a.0 && along(a, 1) == a.1 && along(a, 2) == a.2);
        assert(along(mid, 0) == mid.0 && along(mid, 1) == mid.1 && along(mid, 2) == mid.2);
        assert(along(b, 0) == b.0 && along(b, 1) == b.1 && along(b, 2) == b.2);
        assert(quad.covers(mid));
    }
}

} // verus!

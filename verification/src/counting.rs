//! Counting cell faces: the area of a partition of the surface is the
//! number of visible cell faces, whatever quads it is made of.

use vstd::prelude::*;
use vstd::set_lib::{lemma_len_subset, lemma_set_disjoint_lens};
use crate::face::{Face, Quad};
use crate::shape::Cell;
use crate::surface::{face_visible, is_patch, is_surface_partition, pairwise_disjoint};
use crate::voxel::VoxelState;

verus! {

/// The cells of a box: `dx`, `dy` and `dz` cells along the axes, starting
/// at `lo`.
pub open spec fn box_cells(lo: Cell, dx: int, dy: int, dz: int) -> Set<Cell> {
    Set::new(
        |c: Cell|
            lo.0 <= c.0 < lo.0 + dx && lo.1 <= c.1 < lo.1 + dy && lo.2 <= c.2 < lo.2 + dz,
    )
}

/// A box has as many cells as the product of its sides.
pub proof fn lemma_box_len(lo: Cell, dx: int, dy: int, dz: int)
    requires
        dx >= 0,
        dy >= 0,
        dz >= 0,
    ensures
        box_cells(lo, dx, dy, dz).finite(),
        box_cells(lo, dx, dy, dz).len() == dx * dy * dz,
    decreases dz, dy, dx,
{
    let b = box_cells(lo, dx, dy, dz);
    if dx == 0 || dy == 0 || dz == 0 {
        assert(b =~= Set::<Cell>::empty());
        assert(dx * dy * dz == 0) by (nonlinear_arith)
            requires
                dx == 0 || dy == 0 || dz == 0,
        ;
    } else if dz > 1 {
        let below = box_cells(lo, dx, dy, dz - 1);
        let top = box_cells((lo.0, lo.1, lo.2 + dz - 1), dx, dy, 1);
        lemma_box_len(lo, dx, dy, dz - 1);
        lemma_box_len((lo.0, lo.1, lo.2 + dz - 1), dx, dy, 1);
        assert(b =~= below + top);
        assert(below.disjoint(top));
        lemma_set_disjoint_lens(below, top);
        assert(dx * dy * (dz - 1) + dx * dy * 1 == dx * dy * dz) by (nonlinear_arith);
    } else if dy > 1 {
        let before = box_cells(lo, dx, dy - 1, 1);
        let row = box_cells((lo.0, lo.1 + dy - 1, lo.2), dx, 1, 1);
        lemma_box_len(lo, dx, dy - 1, 1);
        lemma_box_len((lo.0, lo.1 + dy - 1, lo.2), dx, 1, 1);
        assert(b =~= before + row);
        assert(before.disjoint(row));
        lemma_set_disjoint_lens(before, row);
        assert(dx * (dy - 1) * 1 + dx * 1 * 1 == dx * dy * 1) by (nonlinear_arith);
    } else if dx > 1 {
        let before = box_cells(lo, dx - 1, 1, 1);
        let last = (lo.0 + dx - 1, lo.1, lo.2);
        lemma_box_len(lo, dx - 1, 1, 1);
        assert(b =~= before.insert(last));
        assert((dx - 1) * 1 * 1 + 1 == dx * 1 * 1) by (nonlinear_arith);
    } else {
        assert(b =~= Set::<Cell>::empty().insert(lo));
    }
}

/// The cells that have a face in `quad`.
pub open spec fn quad_cells(quad: Quad) -> Set<Cell> {
    Set::new(|c: Cell| quad.covers(c))
}

/// A quad covers as many cell faces as its area.
pub proof fn lemma_quad_cells_len(quad: Quad)
    ensures
        quad_cells(quad).finite(),
        quad_cells(quad).len() == quad.area(),
{
    let m = quad.origin();
    let w = quad.width as int;
    let h = quad.height as int;
    match quad.face {
        Face::NegX | Face::PosX => {
            lemma_box_len(m, 1, h, w);
            assert(quad_cells(quad) =~= box_cells(m, 1, h, w));
            assert(1 * h * w == w * h) by (nonlinear_arith);
        },
        Face::NegY | Face::PosY => {
            lemma_box_len(m, h, 1, w);
            assert(quad_cells(quad) =~= box_cells(m, h, 1, w));
            assert(h * 1 * w == w * h) by (nonlinear_arith);
        },
        Face::NegZ | Face::PosZ => {
            lemma_box_len(m, w, h, 1);
            assert(quad_cells(quad) =~= box_cells(m, w, h, 1));
            assert(w * h * 1 == w * h) by (nonlinear_arith);
        },
    }
}

/// The sum of the areas of the quads.
pub open spec fn total_area(quads: Seq<Quad>) -> int
    decreases quads.len(),
{
    if quads.len() == 0 {
        0
    } else {
        total_area(quads.drop_last()) + quads.last().area()
    }
}

/// The sum of the areas of the quads on `face`.
pub open spec fn face_area(face: Face, quads: Seq<Quad>) -> int
    decreases quads.len(),
{
    if quads.len() == 0 {
        0
    } else {
        face_area(face, quads.drop_last()) + if quads.last().face == face {
            quads.last().area()
        } else {
            0
        }
    }
}

/// The total area is the sum of the areas on the six faces.
pub proof fn lemma_total_area_by_face(quads: Seq<Quad>)
    ensures
        total_area(quads) == face_area(Face::NegX, quads) + face_area(Face::NegY, quads)
            + face_area(Face::NegZ, quads) + face_area(Face::PosX, quads) + face_area(
            Face::PosY,
            quads,
        ) + face_area(Face::PosZ, quads),
    decreases quads.len(),
{
    if quads.len() > 0 {
        lemma_total_area_by_face(quads.drop_last());
    }
}

/// The cells whose face `face` lies in one of the quads.
pub open spec fn covered_cells(face: Face, quads: Seq<Quad>) -> Set<Cell> {
    Set::new(
        |c: Cell|
            exists|k: int|
                0 <= k < quads.len() && quads[k].face == face && #[trigger] quads[k].covers(c),
    )
}

/// Quads that do not overlap cover, on each face, as many cell faces as
/// the sum of their areas there.
pub proof fn lemma_disjoint_quads_area(face: Face, quads: Seq<Quad>)
    requires
        pairwise_disjoint(quads),
    ensures
        covered_cells(face, quads).finite(),
        covered_cells(face, quads).len() == face_area(face, quads),
    decreases quads.len(),
{
    let all = covered_cells(face, quads);
    if quads.len() == 0 {
        assert(all =~= Set::<Cell>::empty());
    } else {
        let front = quads.drop_last();
        let last = quads.last();
        assert(pairwise_disjoint(front)) by {
            assert forall|j: int, k: int, c: Cell|
                0 <= j < k < front.len() && front[j].face == front[k].face && #[trigger] front[j].covers(
                    c,
                ) implies !#[trigger] front[k].covers(c) by {
                assert(quads[j].covers(c));
                assert(!quads[k].covers(c));
            }
        }
        lemma_disjoint_quads_area(face, front);
        let before = covered_cells(face, front);
        if last.face == face {
            lemma_quad_cells_len(last);
            let added = quad_cells(last);
            assert forall|c: Cell| all.contains(c) <==> (before + added).contains(c) by {
                if all.contains(c) {
                    let k = choose|k: int|
                        0 <= k < quads.len() && quads[k].face == face && #[trigger] quads[k].covers(c);
                    if k < front.len() {
                        assert(front[k].covers(c));
                    }
                }
                if before.contains(c) {
                    let k = choose|k: int|
                        0 <= k < front.len() && front[k].face == face && #[trigger] front[k].covers(c);
                    assert(quads[k].covers(c));
                }
                if added.contains(c) {
                    assert(quads[quads.len() - 1].covers(c));
                }
            }
            assert(all =~= before + added);
            assert(before.disjoint(added)) by {
                assert forall|c: Cell| before.contains(c) implies !added.contains(c) by {
                    let k = choose|k: int|
                        0 <= k < front.len() && front[k].face == face && #[trigger] front[k].covers(c);
                    assert(quads[k].covers(c));
                    assert(!quads[quads.len() - 1].covers(c));
                }
            }
            lemma_set_disjoint_lens(before, added);
        } else {
            assert forall|c: Cell| all.contains(c) <==> before.contains(c) by {
                if all.contains(c) {
                    let k = choose|k: int|
                        0 <= k < quads.len() && quads[k].face == face && #[trigger] quads[k].covers(c);
                    assert(front[k].covers(c));
                }
                if before.contains(c) {
                    let k = choose|k: int|
                        0 <= k < front.len() && front[k].face == face && #[trigger] front[k].covers(c);
                    assert(quads[k].covers(c));
                }
            }
            assert(all =~= before);
        }
    }
}

/// The cells whose face `face` is visible.
pub open spec fn visible_cells(samples: Seq<VoxelState>, side: int, face: Face) -> Set<Cell> {
    Set::new(|c: Cell| face_visible(samples, side, face, c))
}

/// The number of visible cell faces of the grid, over all six directions.
pub open spec fn visible_count(samples: Seq<VoxelState>, side: int) -> nat {
    visible_cells(samples, side, Face::NegX).len() + visible_cells(samples, side, Face::NegY).len()
        + visible_cells(samples, side, Face::NegZ).len() + visible_cells(
        samples,
        side,
        Face::PosX,
    ).len() + visible_cells(samples, side, Face::PosY).len() + visible_cells(
        samples,
        side,
        Face::PosZ,
    ).len()
}

/// There are at least as many cell faces in a list of patches as there are
/// patches.
pub proof fn lemma_patches_area(samples: Seq<VoxelState>, side: int, quads: Seq<Quad>)
    requires
        forall|k: int| 0 <= k < quads.len() ==> is_patch(samples, side, #[trigger] quads[k]),
    ensures
        quads.len() <= total_area(quads),
    decreases quads.len(),
{
    if quads.len() > 0 {
        let front = quads.drop_last();
        assert forall|k: int| 0 <= k < front.len() implies is_patch(
            samples,
            side,
            #[trigger] front[k],
        ) by {
            assert(front[k] == quads[k]);
        }
        lemma_patches_area(samples, side, front);
        let last = quads.last();
        assert(is_patch(samples, side, quads[quads.len() - 1]));
        assert(last.width * last.height >= 1) by (nonlinear_arith)
            requires
                last.width >= 1,
                last.height >= 1,
        ;
    }
}

/// In a partition of the surface, the quads on a face have together as
/// many cell faces as are visible in that direction, and there are no more
/// of those than interior cells.
pub proof fn lemma_partition_face_area(
    samples: Seq<VoxelState>,
    side: int,
    face: Face,
    quads: Seq<Quad>,
)
    requires
        side >= 2,
        is_surface_partition(samples, side, quads),
    ensures
        visible_cells(samples, side, face).finite(),
        face_area(face, quads) == visible_cells(samples, side, face).len(),
        face_area(face, quads) <= (side - 2) * (side - 2) * (side - 2),
{
    let visible = visible_cells(samples, side, face);
    let covered = covered_cells(face, quads);
    lemma_disjoint_quads_area(face, quads);
    assert forall|c: Cell| covered.contains(c) <==> visible.contains(c) by {
        if covered.contains(c) {
            let k = choose|k: int|
                0 <= k < quads.len() && quads[k].face == face && #[trigger] quads[k].covers(c);
            assert(is_patch(samples, side, quads[k]));
        }
    }
    assert(covered =~= visible);
    let n = side - 2;
    let interior = box_cells((1, 1, 1), n, n, n);
    lemma_box_len((1, 1, 1), n, n, n);
    assert(visible.subset_of(interior));
    lemma_len_subset(visible, interior);
}

/// The area of a partition of the surface is the number of visible cell
/// faces. So a partition has no more quads than there are visible faces,
/// and of those there are no more than six for each interior cell.
pub proof fn lemma_partition_area(samples: Seq<VoxelState>, side: int, quads: Seq<Quad>)
    requires
        side >= 2,
        is_surface_partition(samples, side, quads),
    ensures
        total_area(quads) == visible_count(samples, side),
        quads.len() <= total_area(quads) <= 6 * ((side - 2) * (side - 2) * (side - 2)),
{
    lemma_total_area_by_face(quads);
    lemma_partition_face_area(samples, side, Face::NegX, quads);
    lemma_partition_face_area(samples, side, Face::NegY, quads);
    lemma_partition_face_area(samples, side, Face::NegZ, quads);
    lemma_partition_face_area(samples, side, Face::PosX, quads);
    lemma_partition_face_area(samples, side, Face::PosY, quads);
    lemma_partition_face_area(samples, side, Face::PosZ, quads);
    lemma_patches_area(samples, side, quads);
}

} // verus!

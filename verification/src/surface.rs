//! What the surface of a sampled grid is, and when a list of quads cuts it
//! into patches.

use vstd::prelude::*;
use crate::face::{Face, Quad};
use crate::shape::{in_interior, spec_linearize, Cell};
use crate::voxel::VoxelState;

verus! {

/// The state of the cell `c` in a grid stored by linear index.
pub open spec fn state_at(samples: Seq<VoxelState>, side: int, c: Cell) -> VoxelState {
    samples[spec_linearize(side, c)]
}

/// Whether the face `face` of the cell `c` is part of the surface: `c` is an
/// interior cell that is not empty, and the cell it looks at is empty.
pub open spec fn face_visible(samples: Seq<VoxelState>, side: int, face: Face, c: Cell) -> bool {
    &&& in_interior(side, c)
    &&& !state_at(samples, side, c).is_empty()
    &&& state_at(samples, side, face.neighbor(c)).is_empty()
}

/// Whether `quad` is a patch of the surface: it is not degenerate, every
/// cell face in it is visible, and every cell in it has the quad's merge
/// value.
pub open spec fn is_patch(samples: Seq<VoxelState>, side: int, quad: Quad) -> bool {
    &&& quad.width >= 1
    &&& quad.height >= 1
    &&& forall|c: Cell| #[trigger]
        quad.covers(c) ==> {
            &&& face_visible(samples, side, quad.face, c)
            &&& state_at(samples, side, c).merge_value() == quad.merge_value
        }
}

/// Whether no cell face lies in two of the quads.
pub open spec fn pairwise_disjoint(quads: Seq<Quad>) -> bool {
    forall|j: int, k: int, c: Cell|
        0 <= j < k < quads.len() && quads[j].face == quads[k].face && #[trigger] quads[j].covers(c)
            ==> !#[trigger] quads[k].covers(c)
}

/// Whether `quads` cut the surface of the grid into patches: every quad is
/// a patch, no cell face lies in two quads, and every visible cell face
/// lies in one.
pub open spec fn is_surface_partition(samples: Seq<VoxelState>, side: int, quads: Seq<Quad>) -> bool {
    &&& forall|k: int| 0 <= k < quads.len() ==> is_patch(samples, side, #[trigger] quads[k])
    &&& pairwise_disjoint(quads)
    &&& forall|face: Face, c: Cell| #[trigger]
        face_visible(samples, side, face, c) ==> exists|k: int|
            0 <= k < quads.len() && quads[k].face == face && #[trigger] quads[k].covers(c)
}

/// Whether the quads come grouped by face, in meshing order.
pub open spec fn in_face_order(quads: Seq<Quad>) -> bool {
    forall|j: int, k: int|
        0 <= j <= k < quads.len() ==> (#[trigger] quads[j]).face.spec_index() <= (
        #[trigger] quads[k]).face.spec_index()
}

/// The least cell of a patch is an interior cell, and the patch ends
/// before the border.
pub proof fn lemma_patch_in_interior(samples: Seq<VoxelState>, side: int, quad: Quad)
    requires
        is_patch(samples, side, quad),
    ensures
        in_interior(side, quad.origin()),
        state_at(samples, side, quad.origin()).merge_value() == quad.merge_value,
        quad.merge_value != 0,
        quad.width <= side - 2,
        quad.height <= side - 2,
        side <= u32::MAX ==> quad.unoriented().fits(quad.face),
{
    let m = quad.origin();
    assert(quad.covers(m));
    let far = crate::face::shifted(
        crate::face::shifted(m, quad.face.spec_u_axis(), quad.width - 1),
        quad.face.spec_v_axis(),
        quad.height - 1,
    );
    assert(quad.covers(far));
}

} // verus!

//! Greedy merging of visible cell faces into quads.
//!
//! The merging itself is done by the `block_mesh` crate. This module calls
//! it, puts each quad it finds on its face, and reads the quad's merge
//! value from the grid.

use vstd::prelude::*;
use crate::face::{Face, Quad, UnorientedQuad};
use crate::shape::{spec_volume, GridShape, MAX_INTERIOR};
use crate::surface::{in_face_order, is_patch, is_surface_partition, lemma_patch_in_interior, state_at};
use crate::voxel::{Visibility, VoxelState};

verus! {

/// The groups of rectangles as sequences.
pub open spec fn groups_view(groups: Vec<Vec<UnorientedQuad>>) -> Seq<Seq<UnorientedQuad>> {
    Seq::new(groups.len() as nat, |f: int| groups[f]@)
}

/// The rectangle `rect` as a quad on `face`, with the merge value of its
/// least cell.
pub open spec fn oriented(
    samples: Seq<VoxelState>,
    side: int,
    face: Face,
    rect: UnorientedQuad,
) -> Quad {
    Quad {
        face,
        minimum: rect.minimum,
        width: rect.width,
        height: rect.height,
        merge_value: state_at(samples, side, rect.origin()).merge_value(),
    }
}

/// The rectangles of one group as quads on `face`.
pub open spec fn oriented_group(
    samples: Seq<VoxelState>,
    side: int,
    face: Face,
    rects: Seq<UnorientedQuad>,
) -> Seq<Quad> {
    Seq::new(rects.len(), |k: int| oriented(samples, side, face, rects[k]))
}

/// The first `upto` groups laid end to end, group `f` on the face at place
/// `f` of the meshing order.
pub open spec fn oriented_groups(
    samples: Seq<VoxelState>,
    side: int,
    groups: Seq<Seq<UnorientedQuad>>,
    upto: int,
) -> Seq<Quad>
    decreases upto,
{
    if upto <= 0 {
        Seq::empty()
    } else {
        oriented_groups(samples, side, groups, upto - 1) + oriented_group(
            samples,
            side,
            Face::spec_from_index(upto - 1),
            groups[upto - 1],
        )
    }
}

/// The rectangles that `block_mesh::greedy_quads` finds in a grid, one group
/// per face in meshing order. Which of the possible partitions of the
/// surface they are is decided by the scan order of that function.
pub uninterp spec fn greedy_quad_groups(samples: Seq<VoxelState>, side: int) -> Seq<Seq<UnorientedQuad>>;

/// The quads of the greedy mesh of a grid, in meshing order.
pub open spec fn greedy_quads_of(samples: Seq<VoxelState>, side: int) -> Seq<Quad> {
    oriented_groups(samples, side, greedy_quad_groups(samples, side), 6)
}

/// Makes `block_mesh::VoxelVisibility` known to the verifier, with its
/// three variants `Empty`, `Translucent` and `Opaque`.
#[verifier::external_type_specification]
pub struct ExVoxelVisibility(block_mesh::VoxelVisibility);

/// How `block_mesh` sees a cell: as empty or as opaque, never as
/// translucent.
impl block_mesh::Voxel for VoxelState {
    fn get_visibility(&self) -> (seen: block_mesh::VoxelVisibility)
        ensures seen == outside_visibility(*self),
    {
        match self.visibility() {
            Visibility::Empty => block_mesh::VoxelVisibility::Empty,
            Visibility::Opaque => block_mesh::VoxelVisibility::Opaque,
        }
    }
}

/// `block_mesh` merges the faces of cells that have one merge value.
impl block_mesh::MergeVoxel for VoxelState {
    fn merge_value(&self) -> (key: u16)
        ensures
            key == self.spec_merge_value(),
    {
        VoxelState::merge_value(self)
    }

    type MergeValue = u16;
}

/// The visibility that `block_mesh` is told of a cell: `Empty` for the
/// empty cell, `Opaque` for every other, never `Translucent`.
pub open spec fn outside_visibility(state: VoxelState) -> block_mesh::VoxelVisibility {
    if state.is_empty() {
        block_mesh::VoxelVisibility::Empty
    } else {
        block_mesh::VoxelVisibility::Opaque
    }
}

/// Calls `block_mesh::greedy_quads` on the whole grid, from cell `0` to
/// cell `last` on every axis, with the faces of
/// `block_mesh::RIGHT_HANDED_Y_UP_CONFIG`, and hands back the six groups of
/// rectangles it found.
///
/// Believed, not proved:
/// - the groups are a function of the samples and the side;
/// - there are six of them, one for each face of the configuration, in its
///   order;
/// - each put on its face, they cut the surface into patches. That function
///   scans the interior cells of every slice, starts a rectangle at each
///   cell whose face is visible and not yet in a rectangle, lets it grow
///   only over such faces of cells that have the merge value of the first,
///   and marks what it took. Its documentation promises that all visible
///   faces are part of some quad, and that a quad has one merge value.
///
/// The demands keep that function from its panics: the samples fill the
/// shape, the shape is not empty, and its size fits in 32 bits.
#[verifier::external_body]
fn run_greedy_quads(samples: &Vec<VoxelState>, side: u32, last: u32) -> (groups: Vec<
    Vec<UnorientedQuad>,
>)
    requires
        2 <= side <= MAX_INTERIOR + 2,
        last == side - 1,
        samples.len() == spec_volume(side as int),
    ensures
        groups_view(groups) == greedy_quad_groups(samples@, side as int),
        groups.len() == 6,
        is_surface_partition(
            samples@,
            side as int,
            oriented_groups(samples@, side as int, groups_view(groups), 6),
        ),
{
    let shape = block_mesh::ndshape::RuntimeShape::<u32, 3>::new([side; 3]);
    let mut buffer = block_mesh::GreedyQuadsBuffer::new(samples.len());
    let faces = &block_mesh::RIGHT_HANDED_Y_UP_CONFIG.faces;
    block_mesh::greedy_quads(samples.as_slice(), &shape, [0; 3], [last; 3], faces, &mut buffer);
    let convert = |q: &block_mesh::UnorientedQuad| {
        UnorientedQuad { minimum: q.minimum, width: q.width, height: q.height }
    };
    buffer.quads.groups.iter().map(|group| group.iter().map(convert).collect()).collect()
}

/// Every quad of the first `upto` groups is a quad of the first `more`
/// groups, at the same place.
pub proof fn lemma_oriented_groups_prefix(
    samples: Seq<VoxelState>,
    side: int,
    groups: Seq<Seq<UnorientedQuad>>,
    upto: int,
    more: int,
)
    requires
        0 <= upto <= more,
    ensures
        oriented_groups(samples, side, groups, upto).len() <= oriented_groups(
            samples,
            side,
            groups,
            more,
        ).len(),
        forall|i: int|
            0 <= i < oriented_groups(samples, side, groups, upto).len() ==> oriented_groups(
                samples,
                side,
                groups,
                upto,
            )[i] == #[trigger] oriented_groups(samples, side, groups, more)[i],
    decreases more - upto,
{
    if upto < more {
        lemma_oriented_groups_prefix(samples, side, groups, upto, more - 1);
    }
}

/// The quads of the first `upto` groups come in face order, and none has a
/// face at place `upto` or later.
pub proof fn lemma_oriented_groups_order(
    samples: Seq<VoxelState>,
    side: int,
    groups: Seq<Seq<UnorientedQuad>>,
    upto: int,
)
    requires
        0 <= upto <= 6,
    ensures
        in_face_order(oriented_groups(samples, side, groups, upto)),
        forall|i: int|
            0 <= i < oriented_groups(samples, side, groups, upto).len() ==> (#[trigger] oriented_groups(
                samples,
                side,
                groups,
                upto,
            )[i]).face.spec_index() < upto,
    decreases upto,
{
    if upto > 0 {
        lemma_oriented_groups_order(samples, side, groups, upto - 1);
    }
}

/// Cuts the surface of a sampled grid into quads by greedy merging. The
/// quads come grouped by face, in meshing order.
pub fn greedy_quads(shape: &GridShape, samples: &Vec<VoxelState>) -> (quads: Vec<Quad>)
    requires
        samples.len() == shape.size(),
    ensures
        quads@ == greedy_quads_of(samples@, shape.side() as int),
        is_surface_partition(samples@, shape.side() as int, quads@),
        in_face_order(quads@),
{
    let side = shape.side();
    proof {
        use_type_invariant(shape);
        shape.lemma_wf();
    }
    let groups = run_greedy_quads(samples, side, side - 1);
    let ghost all = oriented_groups(samples@, side as int, groups_view(groups), 6);
    let mut quads: Vec<Quad> = Vec::new();
    let mut f: usize = 0;
    while f < 6
        invariant
            0 <= f <= 6,
            groups.len() == 6,
            side == shape.side(),
            samples.len() == shape.size(),
            all == oriented_groups(samples@, side as int, groups_view(groups), 6),
            is_surface_partition(samples@, side as int, all),
            quads@ == oriented_groups(samples@, side as int, groups_view(groups), f as int),
        decreases 6 - f,
    {
        let face = Face::from_index(f);
        let group = &groups[f];
        let ghost done = quads@;
        let ghost whole = oriented_group(samples@, side as int, face, group@);
        let mut k: usize = 0;
        while k < group.len()
            invariant
                0 <= k <= group.len(),
                0 <= f < 6,
                groups.len() == 6,
                group@ == groups_view(groups)[f as int],
                face == Face::spec_from_index(f as int),
                    side == shape.side(),
                samples.len() == shape.size(),
                all == oriented_groups(samples@, side as int, groups_view(groups), 6),
                is_surface_partition(samples@, side as int, all),
                done == oriented_groups(samples@, side as int, groups_view(groups), f as int),
                whole == oriented_group(samples@, side as int, face, group@),
                quads@ == done + whole.take(k as int),
            decreases group.len() - k,
        {
            let rect = group[k];
            proof {
                let next = oriented_groups(samples@, side as int, groups_view(groups), f + 1);
                assert(next == done + whole);
                lemma_oriented_groups_prefix(samples@, side as int, groups_view(groups), f + 1, 6);
                let i = done.len() + k;
                assert(next[i] == whole[k as int]);
                assert(all[i] == whole[k as int]);
                assert(is_patch(samples@, side as int, all[i]));
                lemma_patch_in_interior(samples@, side as int, all[i]);
            }
            let index = shape.linearize(rect.minimum);
            let merge_value = samples[index as usize].merge_value();
            quads.push(
                Quad {
                    face,
                    minimum: rect.minimum,
                    width: rect.width,
                    height: rect.height,
                    merge_value,
                },
            );
            proof {
                assert(quads@ =~= done + whole.take(k + 1));
            }
            k += 1;
        }
        proof {
            assert(whole.take(k as int) =~= whole);
        }
        f += 1;
    }
    proof {
        lemma_oriented_groups_order(samples@, side as int, groups_view(groups), 6);
    }
    quads
}

} // verus!

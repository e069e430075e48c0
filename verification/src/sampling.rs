//! Filling a grid from a sampler: a function from a cell's coordinates to
//! the state of that cell.

use vstd::prelude::*;
use crate::shape::{cell_of, in_grid, spec_delinearize, spec_volume, Cell, GridShape};
use crate::voxel::VoxelState;

verus! {

/// The coordinate array of a cell.
pub open spec fn coords_of(c: Cell) -> [u32; 3] {
    [c.0 as u32, c.1 as u32, c.2 as u32]
}

/// Whether `samples` is a grid of the given side, stored by linear index,
/// that holds at every cell a state that `sampler` returns for the
/// coordinates of that cell.
pub open spec fn is_sampling<F: Fn([u32; 3]) -> VoxelState>(
    side: int,
    sampler: F,
    samples: Seq<VoxelState>,
) -> bool {
    &&& samples.len() == spec_volume(side)
    &&& forall|i: int|
        0 <= i < samples.len() ==> call_ensures(
            sampler,
            (coords_of(spec_delinearize(side, i)),),
            #[trigger] samples[i],
        )
}

/// Whether `sampler` can be called on every cell of a grid of the given
/// side.
pub open spec fn accepts_grid<F: Fn([u32; 3]) -> VoxelState>(side: int, sampler: F) -> bool {
    forall|p: [u32; 3]| in_grid(side, cell_of(p)) ==> call_requires(sampler, (p,))
}

/// Calls `sampler` once for every cell of the grid, border cells included,
/// and stores the states by linear index.
pub fn sample_grid<F: Fn([u32; 3]) -> VoxelState>(shape: &GridShape, sampler: &F) -> (samples: Vec<
    VoxelState,
>)
    requires
        accepts_grid(shape.side() as int, *sampler),
    ensures
        is_sampling(shape.side() as int, *sampler, samples@),
        samples.len() == shape.size(),
{
    let size = shape.size();
    let mut samples: Vec<VoxelState> = Vec::with_capacity(size as usize);
    let mut i: u32 = 0;
    while i < size
        invariant
            0 <= i <= size,
            size == shape.size(),
            accepts_grid(shape.side() as int, *sampler),
            samples.len() == i,
            forall|j: int|
                0 <= j < i ==> call_ensures(
                    *sampler,
                    (coords_of(spec_delinearize(shape.side() as int, j)),),
                    #[trigger] samples[j],
                ),
        decreases size - i,
    {
        let p = shape.delinearize(i);
        assert(p =~= coords_of(spec_delinearize(shape.side() as int, i as int)));
        let state = sampler(p);
        samples.push(state);
        i += 1;
    }
    samples
}

} // verus!

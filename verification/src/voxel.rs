//! The state of a single grid cell.

use vstd::prelude::*;

verus! {

/// How a cell takes part in meshing.
#[derive(Clone, Copy, Debug, PartialEq, Eq, Hash, Structural)]
pub enum Visibility {
    /// The cell produces no geometry.
    Empty,
    /// The cell is solid: its faces towards empty cells are meshed.
    Opaque,
}

/// The state of one cell: `0` is the empty cell, every other value names a
/// material.
#[derive(Clone, Copy, Debug, PartialEq, Eq, Hash, Structural)]
pub struct VoxelState(pub u16);

impl VoxelState {
    /// The empty cell, as a specification value.
    pub open spec fn spec_empty() -> VoxelState {
        VoxelState(0)
    }

    /// The empty cell.
    #[verifier::when_used_as_spec(spec_empty)]
    pub fn empty() -> (state: VoxelState)
        ensures
            state == VoxelState(0),
    {
        VoxelState(0)
    }

    /// Whether this is the empty cell.
    pub open spec fn is_empty(&self) -> bool {
        self.0 == 0
    }

    pub open spec fn spec_visibility(&self) -> Visibility {
        if self.0 == 0 {
            Visibility::Empty
        } else {
            Visibility::Opaque
        }
    }

    /// The empty cell is `Empty`, every other state is `Opaque`.
    #[verifier::when_used_as_spec(spec_visibility)]
    pub fn visibility(&self) -> (visibility: Visibility)
        ensures
            visibility == self.visibility(),
            visibility == Visibility::Empty <==> *self == VoxelState::empty(),
    {
        if self.0 == 0 {
            Visibility::Empty
        } else {
            Visibility::Opaque
        }
    }

    pub open spec fn spec_merge_value(&self) -> u16 {
        self.0
    }

    /// The key that decides which faces may share a quad: the material.
    /// It is also the texture layer of the quad's vertices.
    #[verifier::when_used_as_spec(spec_merge_value)]
    pub fn merge_value(&self) -> (key: u16)
        ensures
            key == self.spec_merge_value(),
    {
        self.0
    }
}

} // verus!

//! Addressing of the padded grid: cells as coordinates and as linear indices.

use vstd::prelude::*;
use vstd::arithmetic::div_mod::{lemma_fundamental_div_mod, lemma_fundamental_div_mod_converse};

verus! {

/// The largest interior size of a grid. Up to it every linear index fits
/// in 32 bits, and so do the lengths of the buffers of a mesh of the grid:
/// a mesh has at most six quads for each interior cell, and six indices
/// for each quad.
pub const MAX_INTERIOR: u32 = 492;

/// A cell of the grid as a mathematical triple `(x, y, z)`.
pub type Cell = (int, int, int);

/// The triple that a coordinate array stands for.
pub open spec fn cell_of(p: [u32; 3]) -> Cell {
    (p[0] as int, p[1] as int, p[2] as int)
}

/// Whether every component of `c` lies in `[0, side)`.
pub open spec fn in_grid(side: int, c: Cell) -> bool {
    0 <= c.0 < side && 0 <= c.1 < side && 0 <= c.2 < side
}

/// Whether `c` is none of the border cells: every component in
/// `[1, side - 1)`.
pub open spec fn in_interior(side: int, c: Cell) -> bool {
    1 <= c.0 < side - 1 && 1 <= c.1 < side - 1 && 1 <= c.2 < side - 1
}

/// The linear index of a cell: `x` runs fastest, then `y`, then `z`.
pub open spec fn spec_linearize(side: int, c: Cell) -> int {
    c.0 + side * c.1 + side * side * c.2
}

/// The cell of a linear index.
pub open spec fn spec_delinearize(side: int, i: int) -> Cell {
    (i % side, (i / side) % side, (i / side) / side)
}

/// The number of cells of a grid of the given side.
pub open spec fn spec_volume(side: int) -> int {
    side * side * side
}

/// A cell of the grid has a linear index below the grid's volume.
pub proof fn lemma_linearize_bound(side: int, c: Cell)
    requires
        in_grid(side, c),
    ensures
        0 <= spec_linearize(side, c) < spec_volume(side),
{
    assert(side * c.1 <= side * (side - 1) && 0 <= side * c.1) by (nonlinear_arith)
        requires
            0 <= c.1 <= side - 1,
            side > 0,
    ;
    assert(side * side * c.2 <= side * side * (side - 1) && 0 <= side * side * c.2)
        by (nonlinear_arith)
        requires
            0 <= c.2 <= side - 1,
            side > 0,
    ;
    assert(side * (side - 1) == side * side - side) by (nonlinear_arith);
    assert(side * side * (side - 1) == side * side * side - side * side) by (nonlinear_arith);
}

/// Addressing round trip, from a cell: the index of a cell of the grid
/// leads back to that cell.
pub proof fn lemma_delinearize_linearize(side: int, c: Cell)
    requires
        in_grid(side, c),
    ensures
        spec_delinearize(side, spec_linearize(side, c)) == c,
{
    let i = spec_linearize(side, c);
    let q = c.1 + side * c.2;
    assert(i == q * side + c.0) by (nonlinear_arith)
        requires
            i == c.0 + side * c.1 + side * side * c.2,
            q == c.1 + side * c.2,
    ;
    assert(q == c.2 * side + c.1) by (nonlinear_arith)
        requires
            q == c.1 + side * c.2,
    ;
    lemma_fundamental_div_mod_converse(i, side, q, c.0);
    lemma_fundamental_div_mod_converse(q, side, c.2, c.1);
}

/// Addressing round trip, from an index: for every linear index `i` of the
/// grid, the cell of `i` is a cell of the grid and its index is `i` again.
pub proof fn lemma_linearize_delinearize(side: int, i: int)
    requires
        side > 0,
        0 <= i < spec_volume(side),
    ensures
        in_grid(side, spec_delinearize(side, i)),
        spec_linearize(side, spec_delinearize(side, i)) == i,
{
    let q = i / side;
    lemma_fundamental_div_mod(i, side);
    lemma_fundamental_div_mod(q, side);
    let z = q / side;
    assert(side * side * z == side * (side * z)) by (nonlinear_arith);
    assert(side * q == side * (side * z) + side * (q % side)) by (nonlinear_arith)
        requires
            q == side * z + q % side,
    ;
    assert(0 <= q < side * side) by (nonlinear_arith)
        requires
            i == side * q + i % side,
            0 <= i % side < side,
            0 <= i < side * side * side,
            side > 0,
    ;
    assert(0 <= z < side) by (nonlinear_arith)
        requires
            q == side * z + q % side,
            0 <= q % side < side,
            0 <= q < side * side,
            side > 0,
    ;
}

/// The shape of a cubic grid: an interior of `interior` cells along each
/// axis, with one border cell before and one after it.
#[derive(Clone, Copy, Debug)]
pub struct GridShape {
    interior: u32,
    side: u32,
    stride_z: u32,
    size: u32,
}

impl GridShape {
    /// The strides and the size are those of the padded side, and all of
    /// them fit in 32 bits.
    #[verifier::type_invariant]
    pub closed spec fn wf(&self) -> bool {
        &&& self.interior <= MAX_INTERIOR
        &&& self.side == self.interior + 2
        &&& self.stride_z == self.side * self.side
        &&& self.size == self.side * self.side * self.side
    }

    pub closed spec fn spec_interior(&self) -> u32 {
        self.interior
    }

    pub closed spec fn spec_side(&self) -> u32 {
        self.side
    }

    pub closed spec fn spec_size(&self) -> u32 {
        self.size
    }

    pub open spec fn spec_contains(&self, p: [u32; 3]) -> bool {
        in_grid(self.side() as int, cell_of(p))
    }

    /// What well-formedness says of the three sizes.
    pub proof fn lemma_wf(&self)
        requires
            self.wf(),
        ensures
            self.interior() <= MAX_INTERIOR,
            self.side() == self.interior() + 2,
            self.size() == spec_volume(self.side() as int),
    {
    }

    /// The grid with the given interior size, or `None` where the size is
    /// above `MAX_INTERIOR`.
    pub fn new(interior: u32) -> (shape: Option<GridShape>)
        ensures
            shape.is_some() <==> interior <= MAX_INTERIOR,
            shape matches Some(s) ==> {
                &&& s.wf()
                &&& s.interior() == interior
                &&& s.side() == interior + 2
                &&& s.size() == spec_volume(interior + 2)
            },
    {
        if interior > MAX_INTERIOR {
            return None;
        }
        let side: u32 = interior + 2;
        assert(side * side <= 494 * 494 && side * side * side <= 494 * 494 * 494)
            by (nonlinear_arith)
            requires
                0 <= side <= 494,
        ;
        let stride_z: u32 = side * side;
        let size: u32 = stride_z * side;
        Some(GridShape { interior, side, stride_z, size })
    }

    /// The number of interior cells along each axis.
    #[verifier::when_used_as_spec(spec_interior)]
    pub fn interior(&self) -> (n: u32)
        ensures
            n == self.interior(),
            n <= MAX_INTERIOR,
    {
        proof {
            use_type_invariant(self);
        }
        self.interior
    }

    /// The number of cells along each axis, border included.
    #[verifier::when_used_as_spec(spec_side)]
    pub fn side(&self) -> (side: u32)
        ensures
            side == self.side(),
            side == self.interior() + 2,
            2 <= side <= MAX_INTERIOR + 2,
    {
        proof {
            use_type_invariant(self);
        }
        self.side
    }

    /// The number of cells of the grid.
    #[verifier::when_used_as_spec(spec_size)]
    pub fn size(&self) -> (size: u32)
        ensures
            size == self.size(),
            size == spec_volume(self.side() as int),
    {
        proof {
            use_type_invariant(self);
        }
        self.size
    }

    /// Whether `p` is a cell of this grid.
    #[verifier::when_used_as_spec(spec_contains)]
    pub fn contains(&self, p: [u32; 3]) -> (inside: bool)
        ensures
            inside == self.contains(p),
    {
        p[0] < self.side && p[1] < self.side && p[2] < self.side
    }

    /// The linear index of the cell `p`.
    pub fn linearize(&self, p: [u32; 3]) -> (i: u32)
        requires
            self.contains(p),
        ensures
            i == spec_linearize(self.side() as int, cell_of(p)),
            i < self.size(),
            spec_delinearize(self.side() as int, i as int) == cell_of(p),
    {
        proof {
            lemma_delinearize_linearize(self.side() as int, cell_of(p));
        }
        proof {
            use_type_invariant(self);
            lemma_linearize_bound(self.side() as int, cell_of(p));
            let side = self.side as int;
            assert(side * p[1] <= side * side && 0 <= side * p[1]) by (nonlinear_arith)
                requires
                    0 <= p[1] < side,
            ;
            assert(side * side * p[2] <= side * side * side && 0 <= side * side * p[2])
                by (nonlinear_arith)
                requires
                    0 <= p[2] < side,
            ;
        }
        p[0] + self.side * p[1] + self.stride_z * p[2]
    }

    /// The cell of the linear index `i`.
    pub fn delinearize(&self, i: u32) -> (p: [u32; 3])
        requires
            i < self.size(),
        ensures
            cell_of(p) == spec_delinearize(self.side() as int, i as int),
            self.contains(p),
            spec_linearize(self.side() as int, cell_of(p)) == i,
    {
        proof {
            use_type_invariant(self);
            lemma_linearize_delinearize(self.side() as int, i as int);
        }
        let q: u32 = i / self.side;
        [i % self.side, q % self.side, q / self.side]
    }
}

} // verus!

//! The six face directions of a cell, quads, and the geometry of a quad on
//! a face: its corners, normals, texture coordinates and triangle indices.
//!
//! The coordinate system is right-handed with `y` up. Every face has a
//! normal axis and two axes `u` and `v` in its plane; `y` is the `v` axis
//! wherever it is not the normal.

use vstd::prelude::*;
use crate::shape::{cell_of, Cell};

verus! {

/// One of the six axis-aligned directions in which a cell face can look.
/// The order of the variants is the order in which faces are meshed.
#[derive(Clone, Copy, Debug, PartialEq, Eq, Hash, Structural)]
pub enum Face {
    NegX,
    NegY,
    NegZ,
    PosX,
    PosY,
    PosZ,
}

/// The component of `c` on the axis `axis` (0 for `x`, 1 for `y`, else `z`).
pub open spec fn along(c: Cell, axis: int) -> int {
    if axis == 0 {
        c.0
    } else if axis == 1 {
        c.1
    } else {
        c.2
    }
}

/// The cell `c` moved by `by` along the axis `axis`.
pub open spec fn shifted(c: Cell, axis: int, by: int) -> Cell {
    if axis == 0 {
        (c.0 + by, c.1, c.2)
    } else if axis == 1 {
        (c.0, c.1 + by, c.2)
    } else {
        (c.0, c.1, c.2 + by)
    }
}

/// The coordinates `p` moved by `by` along the axis `axis`.
pub fn shift(p: [u32; 3], axis: usize, by: u32) -> (moved: [u32; 3])
    requires
        axis < 3,
        along(cell_of(p), axis as int) + by <= u32::MAX,
    ensures
        cell_of(moved) == shifted(cell_of(p), axis as int, by as int),
{
    if axis == 0 {
        [p[0] + by, p[1], p[2]]
    } else if axis == 1 {
        [p[0], p[1] + by, p[2]]
    } else {
        [p[0], p[1], p[2] + by]
    }
}

impl Face {
    pub open spec fn spec_index(self) -> int {
        match self {
            Face::NegX => 0,
            Face::NegY => 1,
            Face::NegZ => 2,
            Face::PosX => 3,
            Face::PosY => 4,
            Face::PosZ => 5,
        }
    }

    /// The place of this face in the meshing order.
    pub fn index(self) -> (i: usize)
        ensures
            i == self.spec_index(),
            i < 6,
    {
        match self {
            Face::NegX => 0,
            Face::NegY => 1,
            Face::NegZ => 2,
            Face::PosX => 3,
            Face::PosY => 4,
            Face::PosZ => 5,
        }
    }

    pub open spec fn spec_from_index(i: int) -> Face {
        if i == 0 {
            Face::NegX
        } else if i == 1 {
            Face::NegY
        } else if i == 2 {
            Face::NegZ
        } else if i == 3 {
            Face::PosX
        } else if i == 4 {
            Face::PosY
        } else {
            Face::PosZ
        }
    }

    /// The face at place `i` of the meshing order.
    pub fn from_index(i: usize) -> (face: Face)
        requires
            i < 6,
        ensures
            face == Face::spec_from_index(i as int),
            face.spec_index() == i,
    {
        if i == 0 {
            Face::NegX
        } else if i == 1 {
            Face::NegY
        } else if i == 2 {
            Face::NegZ
        } else if i == 3 {
            Face::PosX
        } else if i == 4 {
            Face::PosY
        } else {
            Face::PosZ
        }
    }

    pub open spec fn spec_sign(self) -> int {
        match self {
            Face::NegX | Face::NegY | Face::NegZ => -1,
            Face::PosX | Face::PosY | Face::PosZ => 1,
        }
    }

    /// `-1` where the face looks down its normal axis, `1` where it looks up.
    pub fn sign(self) -> (s: i32)
        ensures
            s == self.spec_sign(),
    {
        match self {
            Face::NegX | Face::NegY | Face::NegZ => -1,
            Face::PosX | Face::PosY | Face::PosZ => 1,
        }
    }

    pub open spec fn spec_normal_axis(self) -> int {
        match self {
            Face::NegX | Face::PosX => 0,
            Face::NegY | Face::PosY => 1,
            Face::NegZ | Face::PosZ => 2,
        }
    }

    /// The axis of the face's normal.
    pub fn normal_axis(self) -> (axis: usize)
        ensures
            axis == self.spec_normal_axis(),
            axis < 3,
    {
        match self {
            Face::NegX | Face::PosX => 0,
            Face::NegY | Face::PosY => 1,
            Face::NegZ | Face::PosZ => 2,
        }
    }

    pub open spec fn spec_u_axis(self) -> int {
        match self {
            Face::NegX | Face::PosX => 2,
            Face::NegY | Face::PosY => 2,
            Face::NegZ | Face::PosZ => 0,
        }
    }

    /// The axis along which a quad's width runs.
    pub fn u_axis(self) -> (axis: usize)
        ensures
            axis == self.spec_u_axis(),
            axis < 3,
    {
        match self {
            Face::NegX | Face::PosX => 2,
            Face::NegY | Face::PosY => 2,
            Face::NegZ | Face::PosZ => 0,
        }
    }

    pub open spec fn spec_v_axis(self) -> int {
        match self {
            Face::NegX | Face::PosX => 1,
            Face::NegY | Face::PosY => 0,
            Face::NegZ | Face::PosZ => 1,
        }
    }

    /// The axis along which a quad's height runs.
    pub fn v_axis(self) -> (axis: usize)
        ensures
            axis == self.spec_v_axis(),
            axis < 3,
    {
        match self {
            Face::NegX | Face::PosX => 1,
            Face::NegY | Face::PosY => 0,
            Face::NegZ | Face::PosZ => 1,
        }
    }

    /// The outward unit normal of the face.
    pub open spec fn spec_signed_normal(self) -> Cell {
        shifted((0, 0, 0), self.spec_normal_axis(), self.spec_sign())
    }

    /// The outward unit normal of the face.
    pub fn signed_normal(self) -> (normal: [i32; 3])
        ensures
            normal_of(normal) == self.spec_signed_normal(),
    {
        match self {
            Face::NegX => [-1, 0, 0],
            Face::NegY => [0, -1, 0],
            Face::NegZ => [0, 0, -1],
            Face::PosX => [1, 0, 0],
            Face::PosY => [0, 1, 0],
            Face::PosZ => [0, 0, 1],
        }
    }

    /// The cell on the other side of this face of the cell `c`.
    pub open spec fn neighbor(self, c: Cell) -> Cell {
        shifted(c, self.spec_normal_axis(), self.spec_sign())
    }

    /// Whether the triangles of a quad on this face run through its corners
    /// so that they wind counter-clockwise when seen from outside with the
    /// corners numbered along `u` first: true where the sign of the face
    /// and the parity of its axis order agree.
    pub open spec fn corners_wind_forward(self) -> bool {
        match self {
            Face::NegX | Face::PosY | Face::PosZ => true,
            Face::PosX | Face::NegY | Face::NegZ => false,
        }
    }

    /// Whether texture coordinates on this face run against the `u` axis,
    /// so that textures are not mirrored on any side of a cell.
    pub open spec fn flips_u(self) -> bool {
        match self {
            Face::PosX | Face::NegY | Face::NegZ => true,
            Face::NegX | Face::PosY | Face::PosZ => false,
        }
    }
}

/// A rectangle of cells that has no face yet: the cell with the least
/// coordinates, and the number of cells along the `u` and the `v` axis of
/// the face it will be put on.
#[derive(Clone, Copy, Debug, PartialEq, Eq, Hash)]
pub struct UnorientedQuad {
    pub minimum: [u32; 3],
    pub width: u32,
    pub height: u32,
}

impl UnorientedQuad {
    /// The least cell of the quad.
    pub open spec fn origin(&self) -> Cell {
        cell_of(self.minimum)
    }

    /// Whether the face `face` of the cell `c` is part of this quad on that
    /// face.
    pub open spec fn covers(&self, face: Face, c: Cell) -> bool {
        let m = self.origin();
        &&& along(c, face.spec_normal_axis()) == along(m, face.spec_normal_axis())
        &&& along(m, face.spec_u_axis()) <= along(c, face.spec_u_axis()) < along(
            m,
            face.spec_u_axis(),
        ) + self.width
        &&& along(m, face.spec_v_axis()) <= along(c, face.spec_v_axis()) < along(
            m,
            face.spec_v_axis(),
        ) + self.height
    }

    /// Whether the corners of the quad on `face` have coordinates that fit
    /// in 32 bits.
    pub open spec fn fits(&self, face: Face) -> bool {
        let m = self.origin();
        &&& along(m, face.spec_normal_axis()) + (if face.spec_sign() > 0 {
            1int
        } else {
            0
        }) <= u32::MAX
        &&& along(m, face.spec_u_axis()) + self.width <= u32::MAX
        &&& along(m, face.spec_v_axis()) + self.height <= u32::MAX
    }
}

impl Face {
    /// Corner `k` of a quad on this face, `k` in `0..4`. Corner 0 is the
    /// least corner; corner 1 lies along `u`, corner 2 along `v`, corner 3
    /// along both. On a face that looks up its axis the corners lie one
    /// cell further along the normal: on the far side of the cells.
    pub open spec fn spec_quad_corner(self, quad: UnorientedQuad, k: int) -> Cell {
        let base = shifted(
            quad.origin(),
            self.spec_normal_axis(),
            if self.spec_sign() > 0 { 1 } else { 0 },
        );
        let right = shifted(base, self.spec_u_axis(), if k % 2 == 1 { quad.width as int } else { 0 });
        shifted(right, self.spec_v_axis(), if k >= 2 { quad.height as int } else { 0 })
    }

    /// The four corners of a quad on this face, in grid units.
    pub fn quad_corners(self, quad: &UnorientedQuad) -> (corners: [[u32; 3]; 4])
        requires
            quad.fits(self),
        ensures
            forall|k: int|
                0 <= k < 4 ==> cell_of(#[trigger] corners[k]) == self.spec_quad_corner(*quad, k),
    {
        let lift: u32 = if self.sign() > 0 { 1 } else { 0 };
        let base = shift(quad.minimum, self.normal_axis(), lift);
        let right = shift(base, self.u_axis(), quad.width);
        let up = shift(base, self.v_axis(), quad.height);
        let far = shift(right, self.v_axis(), quad.height);
        let corners = [base, right, up, far];
        proof {
            let zero_u = shifted(cell_of(base), self.spec_u_axis(), 0);
            assert(zero_u == cell_of(base));
            assert(shifted(zero_u, self.spec_v_axis(), 0) == cell_of(base));
            assert(shifted(cell_of(right), self.spec_v_axis(), 0) == cell_of(right));
        }
        corners
    }

    /// The normal of each of the four vertices of a quad on this face.
    pub fn quad_mesh_normals(self) -> (normals: [[i32; 3]; 4])
        ensures
            forall|k: int|
                0 <= k < 4 ==> normal_of(#[trigger] normals[k]) == self.spec_signed_normal(),
    {
        let n = self.signed_normal();
        [n, n, n, n]
    }

    /// Entry `t` of the six vertex indices of a quad whose first vertex has
    /// the index `start`: two triangles that share the diagonal between
    /// corner 1 and corner 2, wound to face outward.
    pub open spec fn spec_quad_mesh_index(self, start: int, t: int) -> int {
        start + if self.corners_wind_forward() {
            if t == 0 {
                0int
            } else if t == 1 {
                1
            } else if t == 2 {
                2
            } else if t == 3 {
                1
            } else if t == 4 {
                3
            } else {
                2
            }
        } else {
            if t == 0 {
                0int
            } else if t == 1 {
                2
            } else if t == 2 {
                1
            } else if t == 3 {
                1
            } else if t == 4 {
                2
            } else {
                3
            }
        }
    }

    /// The six vertex indices of a quad whose first vertex has the index
    /// `start`.
    pub fn quad_mesh_indices(self, start: u32) -> (indices: [u32; 6])
        requires
            start + 3 <= u32::MAX,
        ensures
            forall|t: int|
                0 <= t < 6 ==> #[trigger] indices[t] == self.spec_quad_mesh_index(start as int, t),
    {
        let forward = match self {
            Face::NegX | Face::PosY | Face::PosZ => true,
            Face::PosX | Face::NegY | Face::NegZ => false,
        };
        if forward {
            [start, start + 1, start + 2, start + 1, start + 3, start + 2]
        } else {
            [start, start + 2, start + 1, start + 1, start + 2, start + 3]
        }
    }

    /// The texture coordinates of corner `k` of a quad on this face, in
    /// cells: the texture repeats once per cell. `flip_v` turns the `v`
    /// direction over, for textures whose origin is the top left.
    pub open spec fn spec_tex_coord(self, flip_v: bool, quad: UnorientedQuad, k: int) -> (int, int) {
        (
            if (k % 2 == 1) != self.flips_u() { quad.width as int } else { 0 },
            if (k >= 2) != flip_v { quad.height as int } else { 0 },
        )
    }

    /// The texture coordinates of the four corners of a quad on this face.
    pub fn tex_coords(self, flip_v: bool, quad: &UnorientedQuad) -> (coords: [[u32; 2]; 4])
        ensures
            forall|k: int|
                0 <= k < 4 ==> uv_of(#[trigger] coords[k]) == self.spec_tex_coord(flip_v, *quad, k),
    {
        let flip_u = match self {
            Face::PosX | Face::NegY | Face::NegZ => true,
            Face::NegX | Face::PosY | Face::PosZ => false,
        };
        let w = quad.width;
        let h = quad.height;
        let (u0, u1): (u32, u32) = if flip_u { (w, 0) } else { (0, w) };
        let (v0, v1): (u32, u32) = if flip_v { (h, 0) } else { (0, h) };
        [[u0, v0], [u1, v0], [u0, v1], [u1, v1]]
    }
}

/// A rectangle of merged cell faces on one face direction. All its cells
/// have the merge value `merge_value`, which is the texture layer of its
/// vertices.
#[derive(Clone, Copy, Debug, PartialEq, Eq, Hash)]
pub struct Quad {
    pub face: Face,
    pub minimum: [u32; 3],
    pub width: u32,
    pub height: u32,
    pub merge_value: u16,
}

impl Quad {
    pub open spec fn spec_unoriented(&self) -> UnorientedQuad {
        UnorientedQuad { minimum: self.minimum, width: self.width, height: self.height }
    }

    /// The rectangle of the quad, without its face and merge value.
    #[verifier::when_used_as_spec(spec_unoriented)]
    pub fn unoriented(&self) -> (rect: UnorientedQuad)
        ensures
            rect == self.unoriented(),
    {
        UnorientedQuad { minimum: self.minimum, width: self.width, height: self.height }
    }

    /// The least cell of the quad.
    pub open spec fn origin(&self) -> Cell {
        cell_of(self.minimum)
    }

    /// Whether the cell `c` has its face of this quad's direction in the
    /// quad.
    pub open spec fn covers(&self, c: Cell) -> bool {
        self.unoriented().covers(self.face, c)
    }

    /// The number of cell faces in the quad.
    pub open spec fn area(&self) -> int {
        self.width * self.height
    }

    /// Corner `k` of the quad, `k` in `0..4`.
    pub open spec fn corner(&self, k: int) -> Cell {
        self.face.spec_quad_corner(self.unoriented(), k)
    }
}

/// The triple that a normal stands for.
pub open spec fn normal_of(n: [i32; 3]) -> Cell {
    (n[0] as int, n[1] as int, n[2] as int)
}

/// The pair that a texture coordinate stands for.
pub open spec fn uv_of(t: [u32; 2]) -> (int, int) {
    (t[0] as int, t[1] as int)
}

} // verus!

//! Greedy meshing of dense voxel grids.
//!
//! A cubic grid of voxel states, padded by one cell on every side, is turned
//! into a triangle mesh: visible cell faces are merged into rectangles, and
//! every rectangle becomes four vertices and two triangles.
//!
//! All buffers hold integers. Positions and texture coordinates are in grid
//! units, so a caller that wants world units scales them by its voxel size.

pub mod counting;
pub mod face;
pub mod greedy;
pub mod laws;
pub mod mesh;
pub mod sampling;
pub mod shape;
pub mod surface;
pub mod voxel;

pub use face::{Face, Quad, UnorientedQuad};
pub use greedy::greedy_quads;
pub use mesh::{assemble_mesh, generate_greedy_mesh, mesh_samples, MeshBuffers};
pub use sampling::sample_grid;
pub use shape::{GridShape, MAX_INTERIOR};
pub use voxel::{Visibility, VoxelState};

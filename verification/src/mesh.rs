//! Mesh buffers, and the assembly of a list of quads into them.
//!
//! Every quad gives four vertices and six indices. The buffers hold
//! integers: positions and texture coordinates in grid units, normals as
//! unit vectors along an axis.

use vstd::prelude::*;
use crate::counting::lemma_partition_area;
use crate::face::{normal_of, uv_of, Quad};
use crate::greedy::{greedy_quads, greedy_quads_of};
use crate::sampling::{accepts_grid, is_sampling, sample_grid};
use crate::shape::{cell_of, Cell, GridShape};
use crate::surface::{is_patch, is_surface_partition, lemma_patch_in_interior};
use crate::voxel::VoxelState;

verus! {

/// The vertex attributes and the triangle indices of a mesh. The four
/// attribute buffers run in parallel: entry `i` of each belongs to vertex
/// `i`.
#[derive(Clone, Debug, PartialEq, Eq)]
pub struct MeshBuffers {
    /// The position of each vertex, in grid units.
    pub positions: Vec<[u32; 3]>,
    /// The outward unit normal at each vertex.
    pub normals: Vec<[i32; 3]>,
    /// The texture coordinates of each vertex, in cells.
    pub tex_coords: Vec<[u32; 2]>,
    /// The texture layer of each vertex: the merge value of its quad.
    pub layers: Vec<i32>,
    /// The corners of the triangles, three vertex indices for each.
    pub indices: Vec<u32>,
}

/// A mesh as sequences of mathematical values.
pub struct MeshModel {
    pub positions: Seq<Cell>,
    pub normals: Seq<Cell>,
    pub tex_coords: Seq<(int, int)>,
    pub layers: Seq<int>,
    pub indices: Seq<int>,
}

impl View for MeshBuffers {
    type V = MeshModel;

    open spec fn view(&self) -> MeshModel {
        MeshModel {
            positions: Seq::new(self.positions.len() as nat, |i: int| cell_of(self.positions[i])),
            normals: Seq::new(self.normals.len() as nat, |i: int| normal_of(self.normals[i])),
            tex_coords: Seq::new(self.tex_coords.len() as nat, |i: int| uv_of(self.tex_coords[i])),
            layers: Seq::new(self.layers.len() as nat, |i: int| self.layers[i] as int),
            indices: Seq::new(self.indices.len() as nat, |i: int| self.indices[i] as int),
        }
    }
}

impl MeshModel {
    /// Whether the attribute buffers have one entry for each vertex.
    pub open spec fn is_parallel(&self) -> bool {
        &&& self.normals.len() == self.positions.len()
        &&& self.tex_coords.len() == self.positions.len()
        &&& self.layers.len() == self.positions.len()
    }

    /// Whether the mesh is made of `quad_count` quads: four vertices and
    /// six indices for each, every index that of a vertex, and the six
    /// indices of a quad those of its own four vertices.
    pub open spec fn is_indexed_for(&self, quad_count: int) -> bool {
        &&& self.positions.len() == 4 * quad_count
        &&& self.indices.len() == 6 * quad_count
        &&& forall|i: int|
            0 <= i < self.indices.len() ==> 0 <= #[trigger] self.indices[i] < self.positions.len()
        &&& forall|i: int|
            0 <= i < self.indices.len() ==> 4 * (i / 6) <= #[trigger] self.indices[i] < 4 * (i / 6) + 4
    }

    /// Whether the mesh has no vertex and no index.
    pub open spec fn is_empty(&self) -> bool {
        &&& self.positions.len() == 0
        &&& self.normals.len() == 0
        &&& self.tex_coords.len() == 0
        &&& self.layers.len() == 0
        &&& self.indices.len() == 0
    }
}

/// The mesh of a list of quads. Vertex `4 * j + k` is corner `k` of quad
/// `j`; it has the normal of the quad's face and the quad's merge value as
/// its layer. Texture coordinates have `v` turned over, for textures whose
/// first row is the top. The indices `6 * j ..  6 * j + 6` are the two
/// triangles of quad `j`.
pub open spec fn mesh_of(quads: Seq<Quad>) -> MeshModel {
    MeshModel {
        positions: Seq::new((4 * quads.len()) as nat, |i: int| quads[i / 4].corner(i % 4)),
        normals: Seq::new((4 * quads.len()) as nat, |i: int| quads[i / 4].face.spec_signed_normal()),
        tex_coords: Seq::new(
            (4 * quads.len()) as nat,
            |i: int| quads[i / 4].face.spec_tex_coord(true, quads[i / 4].unoriented(), i % 4),
        ),
        layers: Seq::new((4 * quads.len()) as nat, |i: int| quads[i / 4].merge_value as int),
        indices: Seq::new(
            (6 * quads.len()) as nat,
            |i: int| quads[i / 6].face.spec_quad_mesh_index(4 * (i / 6), i % 6),
        ),
    }
}

/// The mesh of a list of quads has four vertices and six indices for each
/// quad, and every index is that of a vertex.
pub proof fn lemma_mesh_of_is_indexed(quads: Seq<Quad>)
    ensures
        mesh_of(quads).is_parallel(),
        mesh_of(quads).is_indexed_for(quads.len() as int),
{
}

/// Appends the items to the buffer, in order.
fn push_all<T: Copy, const N: usize>(buffer: &mut Vec<T>, items: &[T; N])
    ensures
        final(buffer)@ == old(buffer)@ + items@,
{
    let mut i: usize = 0;
    while i < N
        invariant
            0 <= i <= N,
            buffer@ == old(buffer)@ + items@.take(i as int),
        decreases N - i,
    {
        buffer.push(items[i]);
        assert(buffer@ =~= old(buffer)@ + items@.take(i + 1));
        i += 1;
    }
    assert(items@.take(N as int) =~= items@);
}

/// Turns the quads, in order, into vertex and index buffers.
pub fn assemble_mesh(quads: &Vec<Quad>) -> (mesh: MeshBuffers)
    requires
        6 * quads.len() <= u32::MAX,
        forall|j: int| 0 <= j < quads.len() ==> (#[trigger] quads[j]).unoriented().fits(quads[j].face),
    ensures
        mesh@ == mesh_of(quads@),
        mesh@.is_parallel(),
        mesh@.is_indexed_for(quads.len() as int),
{
    let count = quads.len();
    let mut mesh = MeshBuffers {
        positions: Vec::with_capacity(4 * count),
        normals: Vec::with_capacity(4 * count),
        tex_coords: Vec::with_capacity(4 * count),
        layers: Vec::with_capacity(4 * count),
        indices: Vec::with_capacity(6 * count),
    };
    proof {
        let none = mesh_of(quads@.take(0));
        assert(mesh@.positions =~= none.positions);
        assert(mesh@.normals =~= none.normals);
        assert(mesh@.tex_coords =~= none.tex_coords);
        assert(mesh@.layers =~= none.layers);
        assert(mesh@.indices =~= none.indices);
    }
    let mut j: usize = 0;
    while j < count
        invariant
            0 <= j <= count,
            count == quads.len(),
            6 * count <= u32::MAX,
            forall|j: int|
                0 <= j < quads.len() ==> (#[trigger] quads[j]).unoriented().fits(quads[j].face),
            mesh.positions.len() == 4 * j,
            mesh.normals.len() == 4 * j,
            mesh.tex_coords.len() == 4 * j,
            mesh.layers.len() == 4 * j,
            mesh.indices.len() == 6 * j,
            mesh@ == mesh_of(quads@.take(j as int)),
        decreases count - j,
    {
        let quad = quads[j];
        let face = quad.face;
        let rect = quad.unoriented();
        let start: u32 = mesh.positions.len() as u32;
        let ghost before = mesh;
        let indices = face.quad_mesh_indices(start);
        let corners = face.quad_corners(&rect);
        let normals = face.quad_mesh_normals();
        let coords = face.tex_coords(true, &rect);
        let layer: i32 = quad.merge_value as i32;
        push_all(&mut mesh.indices, &indices);
        push_all(&mut mesh.positions, &corners);
        push_all(&mut mesh.normals, &normals);
        push_all(&mut mesh.tex_coords, &coords);
        push_all(&mut mesh.layers, &[layer, layer, layer, layer]);
        proof {
            let done = quads@.take(j as int);
            let next = quads@.take(j + 1);
            let want = mesh_of(next);
            assert(next[j as int] == quad);
            assert forall|i: int| 0 <= i < 4 * j implies
                #[trigger] mesh@.positions[i] == want.positions[i] by {
                assert(mesh.positions[i] == before.positions[i]);
                assert(before@.positions[i] == mesh_of(done).positions[i]);
                assert(next[i / 4] == done[i / 4]);
            }
            assert forall|i: int| 4 * j <= i < 4 * j + 4 implies
                #[trigger] mesh@.positions[i] == want.positions[i] by {
                assert(mesh.positions[i] == corners[i - 4 * j]);
                assert(i / 4 == j && i % 4 == i - 4 * j);
            }
            assert(mesh@.positions =~= want.positions);
            assert forall|i: int| 0 <= i < 4 * j implies
                #[trigger] mesh@.normals[i] == want.normals[i] by {
                assert(mesh.normals[i] == before.normals[i]);
                assert(before@.normals[i] == mesh_of(done).normals[i]);
                assert(next[i / 4] == done[i / 4]);
            }
            assert forall|i: int| 4 * j <= i < 4 * j + 4 implies
                #[trigger] mesh@.normals[i] == want.normals[i] by {
                assert(mesh.normals[i] == normals[i - 4 * j]);
                assert(i / 4 == j && i % 4 == i - 4 * j);
            }
            assert(mesh@.normals =~= want.normals);
            assert forall|i: int| 0 <= i < 4 * j implies
                #[trigger] mesh@.tex_coords[i] == want.tex_coords[i] by {
                assert(mesh.tex_coords[i] == before.tex_coords[i]);
                assert(before@.tex_coords[i] == mesh_of(done).tex_coords[i]);
                assert(next[i / 4] == done[i / 4]);
            }
            assert forall|i: int| 4 * j <= i < 4 * j + 4 implies
                #[trigger] mesh@.tex_coords[i] == want.tex_coords[i] by {
                assert(mesh.tex_coords[i] == coords[i - 4 * j]);
                assert(i / 4 == j && i % 4 == i - 4 * j);
            }
            assert(mesh@.tex_coords =~= want.tex_coords);
            assert forall|i: int| 0 <= i < 4 * j implies
                #[trigger] mesh@.layers[i] == want.layers[i] by {
                assert(mesh.layers[i] == before.layers[i]);
                assert(before@.layers[i] == mesh_of(done).layers[i]);
                assert(next[i / 4] == done[i / 4]);
            }
            assert forall|i: int| 4 * j <= i < 4 * j + 4 implies
                #[trigger] mesh@.layers[i] == want.layers[i] by {
                assert(mesh.layers[i] == layer);
                assert(i / 4 == j);
            }
            assert(mesh@.layers =~= want.layers);
            assert forall|i: int| 0 <= i < 6 * j implies
                #[trigger] mesh@.indices[i] == want.indices[i] by {
                assert(mesh.indices[i] == before.indices[i]);
                assert(before@.indices[i] == mesh_of(done).indices[i]);
                assert(next[i / 6] == done[i / 6]);
            }
            assert forall|i: int| 6 * j <= i < 6 * j + 6 implies
                #[trigger] mesh@.indices[i] == want.indices[i] by {
                assert(mesh.indices[i] == indices[i - 6 * j]);
                assert(i / 6 == j && i % 6 == i - 6 * j);
            }
            assert(mesh@.indices =~= want.indices);
        }
        j += 1;
    }
    proof {
        assert(quads@.take(count as int) =~= quads@);
        lemma_mesh_of_is_indexed(quads@);
    }
    mesh
}

/// Whether `mesh` is the greedy mesh of a grid with the given samples: the
/// mesh of the quads that greedy merging cuts the surface of the grid into.
pub open spec fn is_greedy_mesh_of(samples: Seq<VoxelState>, side: int, mesh: MeshModel) -> bool {
    &&& is_surface_partition(samples, side, greedy_quads_of(samples, side))
    &&& mesh == mesh_of(greedy_quads_of(samples, side))
}

/// Whether `mesh` is a greedy mesh of a grid filled by `sampler`.
pub open spec fn is_greedy_mesh<F: Fn([u32; 3]) -> VoxelState>(
    side: int,
    sampler: F,
    mesh: MeshModel,
) -> bool {
    exists|samples: Seq<VoxelState>| #[trigger]
        is_sampling(side, sampler, samples) && is_greedy_mesh_of(samples, side, mesh)
}

/// The greedy mesh of a sampled grid.
pub fn mesh_samples(shape: &GridShape, samples: &Vec<VoxelState>) -> (mesh: MeshBuffers)
    requires
        samples.len() == shape.size(),
    ensures
        is_greedy_mesh_of(samples@, shape.side() as int, mesh@),
        mesh@.is_parallel(),
        mesh@.is_indexed_for(greedy_quads_of(samples@, shape.side() as int).len() as int),
{
    let quads = greedy_quads(shape, samples);
    proof {
        let side = shape.side() as int;
        let n = side - 2;
        use_type_invariant(shape);
        shape.lemma_wf();
        lemma_partition_area(samples@, side, quads@);
        assert(n * n * n <= 492 * 492 * 492) by (nonlinear_arith)
            requires
                0 <= n <= 492,
        ;
        assert forall|j: int| 0 <= j < quads.len() implies (#[trigger] quads[j]).unoriented().fits(
            quads[j].face,
        ) by {
            assert(is_patch(samples@, side, quads[j]));
            lemma_patch_in_interior(samples@, side, quads[j]);
        }
    }
    assemble_mesh(&quads)
}

/// Fills the grid from `generator_fn` and meshes it: samples every cell,
/// border cells included; cuts the surface into quads by greedy merging,
/// face by face; and turns the quads into vertex and index buffers.
pub fn generate_greedy_mesh<F: Fn([u32; 3]) -> VoxelState>(shape: &GridShape, generator_fn: F) -> (mesh:
    MeshBuffers)
    requires
        accepts_grid(shape.side() as int, generator_fn),
    ensures
        is_greedy_mesh(shape.side() as int, generator_fn, mesh@),
        mesh@.is_parallel(),
        exists|quad_count: int| mesh@.is_indexed_for(quad_count),
{
    let samples = sample_grid(shape, &generator_fn);
    let mesh = mesh_samples(shape, &samples);
    proof {
        assert(is_sampling(shape.side() as int, generator_fn, samples@));
        assert(mesh@.is_indexed_for(greedy_quads_of(samples@, shape.side() as int).len() as int));
    }
    mesh
}

} // verus!

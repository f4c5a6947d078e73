//! The terrain drawable: a heightfield triangulated into a single
//! triangle-strip mesh with estimated per-vertex normals, packaged as a
//! buffer descriptor for the rendering backend.

use vstd::prelude::*;

use crate::drawable::Buffer;
use crate::drawable::Drawable;
use crate::drawable::DrawableAttributes;
use crate::drawable::DrawPrimitive;
use crate::drawable::VertexAttribPointer;
use crate::heightfield::lemma_flat_coords;
use crate::heightfield::lemma_grid_index_bounds;
use crate::heightfield::lemma_square_bounded;
use crate::heightfield::HeightField;
use crate::heightfield::TerrainError;
use crate::mesh::build_indices;
use crate::mesh::build_vertices;
use crate::mesh::flatten_spec;
use crate::mesh::flatten_vertices;
use crate::mesh::index_at;
use crate::mesh::index_count;
use crate::mesh::vertex_lookup;
use crate::mesh::GridVertex;
use crate::geometry::Vec3i;
use crate::normals::compute_normals;
use crate::normals::estimated_vertex;
use crate::normals::flat_field;
use crate::normals::lemma_flat_normal;
use crate::MAX_SPACING;
use crate::NORMAL_SCALE;

verus! {

/// The finished vertex sequence of the terrain mesh: row-major, with
/// positions and texture coordinates from the mesh builder and normals
/// from the estimator.
pub open spec fn terrain_vertex_seq(hf: HeightField, s: int) -> Seq<GridVertex> {
    let n = hf.resolution_spec();
    Seq::new((n * n) as nat, |i: int| estimated_vertex(hf, s, i / n, i % n))
}

/// The serpentine triangle-strip index sequence of an `n` by `n` grid.
pub open spec fn index_seq(n: int) -> Seq<u32> {
    Seq::new(index_count(n) as nat, |k: int| index_at(n, k) as u32)
}

/// The attribute layout of the interleaved terrain buffer, in bytes of the
/// four-byte-per-entry buffer a backend uploads: position at offset 0,
/// normal at offset 12, texture coordinate at offset 24, stride 32.
pub open spec fn terrain_layout() -> Seq<VertexAttribPointer> {
    seq![
        VertexAttribPointer { index: 0, size: 3, stride: 32, offset: 0 },
        VertexAttribPointer { index: 1, size: 3, stride: 32, offset: 12 },
        VertexAttribPointer { index: 2, size: 2, stride: 32, offset: 24 },
    ]
}

/// A heightfield terrain drawn as one serpentine triangle strip.
pub struct Terrain {
    heightfield: HeightField,
    spacing: i64,
}

impl Terrain {
    /// The heightfield the mesh is built from.
    pub closed spec fn heightfield_spec(&self) -> HeightField {
        self.heightfield
    }

    /// The model-space distance between neighbouring grid vertices.
    pub closed spec fn spacing_spec(&self) -> int {
        self.spacing as int
    }

    #[verifier::type_invariant]
    spec fn wf(&self) -> bool {
        &&& self.heightfield.wf()
        &&& 1 <= self.spacing <= MAX_SPACING
    }

    /// Builds a terrain over `heightfield` with the given grid spacing,
    /// rejecting a spacing outside `[1, MAX_SPACING]`.
    pub fn new(heightfield: HeightField, spacing: i64) -> (r: Result<Terrain, TerrainError>)
        requires
            heightfield.wf(),
        ensures
            r is Ok <==> 1 <= spacing <= MAX_SPACING,
            !(1 <= spacing <= MAX_SPACING) ==> r == Err::<Terrain, TerrainError>(
                TerrainError::SpacingOutOfRange,
            ),
            r is Ok ==> {
                let t = r->Ok_0;
                &&& t.heightfield_spec() == heightfield
                &&& t.spacing_spec() == spacing
            },
    {
        if spacing < 1 || spacing > MAX_SPACING {
            return Err(TerrainError::SpacingOutOfRange);
        }
        Ok(Terrain { heightfield, spacing })
    }

    /// The grid resolution of the terrain.
    pub fn resolution(&self) -> (r: usize)
        ensures
            r == self.heightfield_spec().resolution_spec(),
    {
        self.heightfield.resolution()
    }

    /// Builds the terrain's buffer descriptor: the interleaved attribute
    /// buffer of the finished vertices, the three-attribute layout, the
    /// serpentine index sequence, and a triangle-strip topology whose
    /// element count is the index count.
    pub fn build_attributes(&self) -> (r: DrawableAttributes)
        ensures
            ({
                let hf = self.heightfield_spec();
                let s = self.spacing_spec();
                let n = hf.resolution_spec();
                &&& r.buffer matches Buffer::IndexBuffer {
                    vertex_attributes,
                    vertex_attribute_pointers,
                    indices,
                } && vertex_attributes@ == flatten_spec(terrain_vertex_seq(hf, s))
                    && vertex_attribute_pointers@ == terrain_layout() && indices@ == index_seq(n)
                &&& r.draw_count == index_count(n)
                &&& r.draw_primitive == DrawPrimitive::TriangleStrip
            }),
    {
        proof {
            use_type_invariant(&*self);
        }
        let hf = &self.heightfield;
        let s = self.spacing;
        let n = hf.resolution();
        proof {
            lemma_square_bounded(n as int);
        }
        let mut vertices = build_vertices(hf, s);
        compute_normals(&mut vertices, hf, s);
        let indices = build_indices(n);
        proof {
            assert forall|i: int| 0 <= i < vertices@.len() implies vertices@[i]
                == terrain_vertex_seq(*hf, s as int)[i] by {
                lemma_flat_coords(n as int, i);
                assert(vertex_lookup(vertices@, n as int, i / (n as int), i % (n as int))
                    == estimated_vertex(*hf, s as int, i / (n as int), i % (n as int)));
            }
            assert(vertices@ =~= terrain_vertex_seq(*hf, s as int));
            assert(indices@ =~= index_seq(n as int));
        }
        let flat = flatten_vertices(&vertices);
        let mut pointers: Vec<VertexAttribPointer> = Vec::new();
        pointers.push(VertexAttribPointer { index: 0, size: 3, stride: 32, offset: 0 });
        pointers.push(VertexAttribPointer { index: 1, size: 3, stride: 32, offset: 12 });
        pointers.push(VertexAttribPointer { index: 2, size: 2, stride: 32, offset: 24 });
        proof {
            assert(pointers@ =~= terrain_layout());
        }
        let draw_count = indices.len();
        DrawableAttributes {
            buffer: Buffer::IndexBuffer {
                vertex_attributes: flat,
                vertex_attribute_pointers: pointers,
                indices,
            },
            draw_count,
            draw_primitive: DrawPrimitive::TriangleStrip,
        }
    }
}

/// Flat-heightfield idempotence, end to end: when every elevation of the
/// heightfield is equal, every vertex of the finished terrain mesh carries
/// exactly the upward unit normal `(0, NORMAL_SCALE, 0)`.
pub proof fn lemma_flat_terrain_normals(hf: HeightField, s: int)
    requires
        hf.wf(),
        flat_field(hf),
        1 <= s <= MAX_SPACING as int,
    ensures
        forall|i: int|
            0 <= i < terrain_vertex_seq(hf, s).len() ==> (#[trigger] terrain_vertex_seq(
                hf,
                s,
            )[i]).normal == (Vec3i { x: 0, y: NORMAL_SCALE, z: 0 }),
{
    let n = hf.resolution_spec();
    assert forall|i: int| 0 <= i < terrain_vertex_seq(hf, s).len() implies (
    #[trigger] terrain_vertex_seq(hf, s)[i]).normal == (Vec3i {
        x: 0,
        y: NORMAL_SCALE,
        z: 0,
    }) by {
        lemma_flat_coords(n, i);
        lemma_flat_normal(hf, s, i / n, i % n);
    }
}

impl Drawable for Terrain {
    fn vertex_attributes(&self) -> (r: DrawableAttributes)
        ensures
            ({
                let hf = self.heightfield_spec();
                let s = self.spacing_spec();
                let n = hf.resolution_spec();
                &&& r.buffer matches Buffer::IndexBuffer {
                    vertex_attributes,
                    vertex_attribute_pointers,
                    indices,
                } && vertex_attributes@ == flatten_spec(terrain_vertex_seq(hf, s))
                    && vertex_attribute_pointers@ == terrain_layout() && indices@ == index_seq(n)
                &&& r.draw_count == index_count(n)
                &&& r.draw_primitive == DrawPrimitive::TriangleStrip
            }),
    {
        self.build_attributes()
    }
}

} // verus!

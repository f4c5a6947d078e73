//! A unit cube drawable: six faces of two triangles each, with per-face
//! normals, packaged as a plain (non-indexed) buffer descriptor.
//!
//! Buffer entries are integers in half-units: a position component of `1`
//! stands for one half, and a normal component of `2` for a full unit, so
//! a backend recovers the floating-point attributes by halving every entry.

use vstd::prelude::*;

use crate::drawable::Buffer;
use crate::drawable::Drawable;
use crate::drawable::DrawableAttributes;
use crate::drawable::DrawPrimitive;
use crate::drawable::VertexAttribPointer;

verus! {

/// The six interleaved entries of cube vertex `v`: three position
/// components in half-units, then the face normal in half-units.
pub open spec fn cube_vertex_chunk(v: int) -> Seq<i64> {
    if v == 0 {
        seq![-1i64, -1i64, -1i64, 0i64, 0i64, -2i64]
    } else if v == 1 {
        seq![1i64, -1i64, -1i64, 0i64, 0i64, -2i64]
    } else if v == 2 {
        seq![1i64, 1i64, -1i64, 0i64, 0i64, -2i64]
    } else if v == 3 {
        seq![1i64, 1i64, -1i64, 0i64, 0i64, -2i64]
    } else if v == 4 {
        seq![-1i64, 1i64, -1i64, 0i64, 0i64, -2i64]
    } else if v == 5 {
        seq![-1i64, -1i64, -1i64, 0i64, 0i64, -2i64]
    } else if v == 6 {
        seq![-1i64, -1i64, 1i64, 0i64, 0i64, 2i64]
    } else if v == 7 {
        seq![1i64, -1i64, 1i64, 0i64, 0i64, 2i64]
    } else if v == 8 {
        seq![1i64, 1i64, 1i64, 0i64, 0i64, 2i64]
    } else if v == 9 {
        seq![1i64, 1i64, 1i64, 0i64, 0i64, 2i64]
    } else if v == 10 {
        seq![-1i64, 1i64, 1i64, 0i64, 0i64, 2i64]
    } else if v == 11 {
        seq![-1i64, -1i64, 1i64, 0i64, 0i64, 2i64]
    } else if v == 12 {
        seq![-1i64, 1i64, 1i64, -2i64, 0i64, 0i64]
    } else if v == 13 {
        seq![-1i64, 1i64, -1i64, -2i64, 0i64, 0i64]
    } else if v == 14 {
        seq![-1i64, -1i64, -1i64, -2i64, 0i64, 0i64]
    } else if v == 15 {
        seq![-1i64, -1i64, -1i64, -2i64, 0i64, 0i64]
    } else if v == 16 {
        seq![-1i64, -1i64, 1i64, -2i64, 0i64, 0i64]
    } else if v == 17 {
        seq![-1i64, 1i64, 1i64, -2i64, 0i64, 0i64]
    } else if v == 18 {
        seq![1i64, 1i64, 1i64, 2i64, 0i64, 0i64]
    } else if v == 19 {
        seq![1i64, 1i64, -1i64, 2i64, 0i64, 0i64]
    } else if v == 20 {
        seq![1i64, -1i64, -1i64, 2i64, 0i64, 0i64]
    } else if v == 21 {
        seq![1i64, -1i64, -1i64, 2i64, 0i64, 0i64]
    } else if v == 22 {
        seq![1i64, -1i64, 1i64, 2i64, 0i64, 0i64]
    } else if v == 23 {
        seq![1i64, 1i64, 1i64, 2i64, 0i64, 0i64]
    } else if v == 24 {
        seq![-1i64, -1i64, -1i64, 0i64, -2i64, 0i64]
    } else if v == 25 {
        seq![1i64, -1i64, -1i64, 0i64, -2i64, 0i64]
    } else if v == 26 {
        seq![1i64, -1i64, 1i64, 0i64, -2i64, 0i64]
    } else if v == 27 {
        seq![1i64, -1i64, 1i64, 0i64, -2i64, 0i64]
    } else if v == 28 {
        seq![-1i64, -1i64, 1i64, 0i64, -2i64, 0i64]
    } else if v == 29 {
        seq![-1i64, -1i64, -1i64, 0i64, -2i64, 0i64]
    } else if v == 30 {
        seq![-1i64, 1i64, -1i64, 0i64, 2i64, 0i64]
    } else if v == 31 {
        seq![1i64, 1i64, -1i64, 0i64, 2i64, 0i64]
    } else if v == 32 {
        seq![1i64, 1i64, 1i64, 0i64, 2i64, 0i64]
    } else if v == 33 {
        seq![1i64, 1i64, 1i64, 0i64, 2i64, 0i64]
    } else if v == 34 {
        seq![-1i64, 1i64, 1i64, 0i64, 2i64, 0i64]
    } else {
        seq![-1i64, 1i64, -1i64, 0i64, 2i64, 0i64]
    }
}

/// The first `k` cube vertices, flattened into interleaved entries.
pub open spec fn cube_data_prefix(k: int) -> Seq<i64>
    decreases k,
{
    if k <= 0 {
        Seq::empty()
    } else {
        cube_data_prefix(k - 1) + cube_vertex_chunk(k - 1)
    }
}

/// The full interleaved cube buffer: 36 vertices of 6 entries each.
pub open spec fn cube_vertex_data() -> Seq<i64> {
    cube_data_prefix(36)
}

/// The attribute layout of the interleaved cube buffer, in bytes of the
/// four-byte-per-entry buffer a backend uploads: position at offset 0 and
/// normal at offset 12, stride 24.
pub open spec fn cube_layout() -> Seq<VertexAttribPointer> {
    seq![
        VertexAttribPointer { index: 0, size: 3, stride: 24, offset: 0 },
        VertexAttribPointer { index: 1, size: 3, stride: 24, offset: 12 },
    ]
}

/// Appends one interleaved vertex: position, then normal.
fn push_vertex(data: &mut Vec<i64>, px: i64, py: i64, pz: i64, nx: i64, ny: i64, nz: i64)
    ensures
        final(data)@ == old(data)@ + seq![px, py, pz, nx, ny, nz],
{
    data.push(px);
    data.push(py);
    data.push(pz);
    data.push(nx);
    data.push(ny);
    data.push(nz);
    proof {
        assert(data@ =~= old(data)@ + seq![px, py, pz, nx, ny, nz]);
    }
}

/// A unit cube centered on the origin.
pub struct Cube;

impl Cube {
    /// Builds the cube's buffer descriptor: the interleaved buffer of all
    /// 36 vertices, the position and normal layout, and a triangle
    /// topology drawing every vertex.
    pub fn build_attributes(&self) -> (r: DrawableAttributes)
        ensures
            r.buffer matches Buffer::ArrayBuffer { vertex_attributes, vertex_attribute_pointers }
                && vertex_attributes@ == cube_vertex_data() && vertex_attribute_pointers@
                == cube_layout(),
            r.draw_count == 36,
            r.draw_primitive == DrawPrimitive::Triangles,
    {
        let mut data: Vec<i64> = Vec::new();
        proof {
            assert(data@ =~= cube_data_prefix(0));
        }
        push_vertex(&mut data, -1, -1, -1, 0, 0, -2);
        assert(data@ =~= cube_data_prefix(1));
        push_vertex(&mut data, 1, -1, -1, 0, 0, -2);
        assert(data@ =~= cube_data_prefix(2));
        push_vertex(&mut data, 1, 1, -1, 0, 0, -2);
        assert(data@ =~= cube_data_prefix(3));
        push_vertex(&mut data, 1, 1, -1, 0, 0, -2);
        assert(data@ =~= cube_data_prefix(4));
        push_vertex(&mut data, -1, 1, -1, 0, 0, -2);
        assert(data@ =~= cube_data_prefix(5));
        push_vertex(&mut data, -1, -1, -1, 0, 0, -2);
        assert(data@ =~= cube_data_prefix(6));
        push_vertex(&mut data, -1, -1, 1, 0, 0, 2);
        assert(data@ =~= cube_data_prefix(7));
        push_vertex(&mut data, 1, -1, 1, 0, 0, 2);
        assert(data@ =~= cube_data_prefix(8));
        push_vertex(&mut data, 1, 1, 1, 0, 0, 2);
        assert(data@ =~= cube_data_prefix(9));
        push_vertex(&mut data, 1, 1, 1, 0, 0, 2);
        assert(data@ =~= cube_data_prefix(10));
        push_vertex(&mut data, -1, 1, 1, 0, 0, 2);
        assert(data@ =~= cube_data_prefix(11));
        push_vertex(&mut data, -1, -1, 1, 0, 0, 2);
        assert(data@ =~= cube_data_prefix(12));
        push_vertex(&mut data, -1, 1, 1, -2, 0, 0);
        assert(data@ =~= cube_data_prefix(13));
        push_vertex(&mut data, -1, 1, -1, -2, 0, 0);
        assert(data@ =~= cube_data_prefix(14));
        push_vertex(&mut data, -1, -1, -1, -2, 0, 0);
        assert(data@ =~= cube_data_prefix(15));
        push_vertex(&mut data, -1, -1, -1, -2, 0, 0);
        assert(data@ =~= cube_data_prefix(16));
        push_vertex(&mut data, -1, -1, 1, -2, 0, 0);
        assert(data@ =~= cube_data_prefix(17));
        push_vertex(&mut data, -1, 1, 1, -2, 0, 0);
        assert(data@ =~= cube_data_prefix(18));
        push_vertex(&mut data, 1, 1, 1, 2, 0, 0);
        assert(data@ =~= cube_data_prefix(19));
        push_vertex(&mut data, 1, 1, -1, 2, 0, 0);
        assert(data@ =~= cube_data_prefix(20));
        push_vertex(&mut data, 1, -1, -1, 2, 0, 0);
        assert(data@ =~= cube_data_prefix(21));
        push_vertex(&mut data, 1, -1, -1, 2, 0, 0);
        assert(data@ =~= cube_data_prefix(22));
        push_vertex(&mut data, 1, -1, 1, 2, 0, 0);
        assert(data@ =~= cube_data_prefix(23));
        push_vertex(&mut data, 1, 1, 1, 2, 0, 0);
        assert(data@ =~= cube_data_prefix(24));
        push_vertex(&mut data, -1, -1, -1, 0, -2, 0);
        assert(data@ =~= cube_data_prefix(25));
        push_vertex(&mut data, 1, -1, -1, 0, -2, 0);
        assert(data@ =~= cube_data_prefix(26));
        push_vertex(&mut data, 1, -1, 1, 0, -2, 0);
        assert(data@ =~= cube_data_prefix(27));
        push_vertex(&mut data, 1, -1, 1, 0, -2, 0);
        assert(data@ =~= cube_data_prefix(28));
        push_vertex(&mut data, -1, -1, 1, 0, -2, 0);
        assert(data@ =~= cube_data_prefix(29));
        push_vertex(&mut data, -1, -1, -1, 0, -2, 0);
        assert(data@ =~= cube_data_prefix(30));
        push_vertex(&mut data, -1, 1, -1, 0, 2, 0);
        assert(data@ =~= cube_data_prefix(31));
        push_vertex(&mut data, 1, 1, -1, 0, 2, 0);
        assert(data@ =~= cube_data_prefix(32));
        push_vertex(&mut data, 1, 1, 1, 0, 2, 0);
        assert(data@ =~= cube_data_prefix(33));
        push_vertex(&mut data, 1, 1, 1, 0, 2, 0);
        assert(data@ =~= cube_data_prefix(34));
        push_vertex(&mut data, -1, 1, 1, 0, 2, 0);
        assert(data@ =~= cube_data_prefix(35));
        push_vertex(&mut data, -1, 1, -1, 0, 2, 0);
        assert(data@ =~= cube_data_prefix(36));
        let mut pointers: Vec<VertexAttribPointer> = Vec::new();
        pointers.push(VertexAttribPointer { index: 0, size: 3, stride: 24, offset: 0 });
        pointers.push(VertexAttribPointer { index: 1, size: 3, stride: 24, offset: 12 });
        proof {
            assert(pointers@ =~= cube_layout());
        }
        DrawableAttributes {
            buffer: Buffer::ArrayBuffer {
                vertex_attributes: data,
                vertex_attribute_pointers: pointers,
            },
            draw_count: 36,
            draw_primitive: DrawPrimitive::Triangles,
        }
    }
}

impl Drawable for Cube {
    fn vertex_attributes(&self) -> (r: DrawableAttributes)
        ensures
            r.buffer matches Buffer::ArrayBuffer { vertex_attributes, vertex_attribute_pointers }
                && vertex_attributes@ == cube_vertex_data() && vertex_attribute_pointers@
                == cube_layout(),
            r.draw_count == 36,
            r.draw_primitive == DrawPrimitive::Triangles,
    {
        self.build_attributes()
    }
}

} // verus!

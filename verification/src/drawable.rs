//! The buffer descriptor handed to the rendering backend, and the model of
//! the backend's buffer objects.
//!
//! Attribute data is carried as integers in the crate's fixed-point units;
//! a backend converts them to floating point when it uploads the buffers.
//! Strides and offsets describe the converted buffer, four bytes per entry.

use vstd::prelude::*;

verus! {

/// Usage hint for a buffer object's data store.
#[derive(Clone, Copy, Debug, PartialEq, Eq, Structural)]
pub enum BufferHint {
    STATIC,
    _DYNAMIC,
    _STREAM,
}

/// The primitive topology a draw call assembles from the vertex stream.
#[derive(Clone, Copy, Debug, PartialEq, Eq, Structural)]
pub enum DrawPrimitive {
    Points,
    Lines,
    Triangles,
    TriangleStrip,
}

/// One vertex attribute binding: attribute slot, component count, byte
/// stride between consecutive vertices, and byte offset of the first
/// component.
#[derive(Clone, Copy, Debug, PartialEq, Eq, Structural)]
pub struct VertexAttribPointer {
    pub index: u32,
    pub size: usize,
    pub stride: usize,
    pub offset: usize,
}

/// Vertex attribute data with its layout, either drawn in array order or
/// through an index sequence.
pub enum Buffer {
    ArrayBuffer {
        vertex_attributes: Vec<i64>,
        vertex_attribute_pointers: Vec<VertexAttribPointer>,
    },
    IndexBuffer {
        vertex_attributes: Vec<i64>,
        vertex_attribute_pointers: Vec<VertexAttribPointer>,
        indices: Vec<u32>,
    },
}

/// Everything the backend needs to draw one object: the buffer, how many
/// elements to draw, and the primitive topology.
pub struct DrawableAttributes {
    pub buffer: Buffer,
    pub draw_count: usize,
    pub draw_primitive: DrawPrimitive,
}

/// A drawable object produces its buffer descriptor.
pub trait Drawable {
    fn vertex_attributes(&self) -> DrawableAttributes;
}

/// A buffer object of the rendering backend, known by its identifier.
pub trait GlBuffer {
    /// The backend identifier of this buffer object.
    spec fn id_spec(&self) -> u32;

    /// The backend identifier of this buffer object.
    fn raw_id(&self) -> (r: u32)
        ensures
            r == self.id_spec(),
    ;
}

/// A vertex attribute buffer object.
pub struct ArrayBuffer {
    id: u32,
}

impl ArrayBuffer {
    /// Wraps a backend buffer identifier.
    pub fn from_raw(id: u32) -> (r: ArrayBuffer)
        ensures
            r.id_spec() == id,
    {
        ArrayBuffer { id }
    }
}

impl GlBuffer for ArrayBuffer {
    closed spec fn id_spec(&self) -> u32 {
        self.id
    }

    fn raw_id(&self) -> (r: u32) {
        self.id
    }
}

/// An element (index) buffer object.
pub struct ElementBuffer {
    id: u32,
}

impl ElementBuffer {
    /// Wraps a backend buffer identifier.
    pub fn from_raw(id: u32) -> (r: ElementBuffer)
        ensures
            r.id_spec() == id,
    {
        ElementBuffer { id }
    }
}

impl GlBuffer for ElementBuffer {
    closed spec fn id_spec(&self) -> u32 {
        self.id
    }

    fn raw_id(&self) -> (r: u32) {
        self.id
    }
}

/// A vertex array object: the backend identifier and the identifiers of
/// the buffer objects attached to it.
pub struct VertexArrayObject(pub u32, Vec<u32>);

impl VertexArrayObject {
    /// The backend identifier of this vertex array object.
    pub closed spec fn id_spec(&self) -> u32 {
        self.0
    }

    /// The identifiers of the attached buffer objects, in attachment order.
    pub closed spec fn attached_spec(&self) -> Seq<u32> {
        self.1@
    }

    /// Wraps a backend vertex array identifier with no attachments.
    pub fn from_raw(id: u32) -> (r: VertexArrayObject)
        ensures
            r.id_spec() == id,
            r.attached_spec() == Seq::<u32>::empty(),
    {
        VertexArrayObject(id, Vec::new())
    }

    /// Records a buffer object as attached to this vertex array.
    pub fn attach_buffer<B: GlBuffer + 'static>(&mut self, buffer: B)
        ensures
            final(self).id_spec() == old(self).id_spec(),
            final(self).attached_spec() == old(self).attached_spec().push(buffer.id_spec()),
    {
        let id = buffer.raw_id();
        self.1.push(id);
    }
}

} // verus!

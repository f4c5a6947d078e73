use procgen::camera::CameraMovement;
use procgen::cube::Cube;
use procgen::drawable::{
    ArrayBuffer, Buffer, Drawable, DrawPrimitive, ElementBuffer, VertexArrayObject,
};
use procgen::shader::Shader;

#[test]
fn cube_buffer_has_thirty_six_vertices() {
    let attrs = Cube.build_attributes();
    assert_eq!(attrs.draw_count, 36);
    assert_eq!(attrs.draw_primitive, DrawPrimitive::Triangles);
    match attrs.buffer {
        Buffer::ArrayBuffer {
            vertex_attributes,
            vertex_attribute_pointers,
        } => {
            assert_eq!(vertex_attributes.len(), 36 * 6);
            assert_eq!(vertex_attribute_pointers.len(), 2);
            let p0 = vertex_attribute_pointers[0];
            let p1 = vertex_attribute_pointers[1];
            assert_eq!((p0.index, p0.size, p0.stride, p0.offset), (0, 3, 24, 0));
            assert_eq!((p1.index, p1.size, p1.stride, p1.offset), (1, 3, 24, 12));
        }
        Buffer::IndexBuffer { .. } => panic!("cube is not indexed"),
    }
}

#[test]
fn cube_vertices_lie_on_the_unit_cube() {
    let attrs = Cube.build_attributes();
    let data = match attrs.buffer {
        Buffer::ArrayBuffer {
            vertex_attributes, ..
        } => vertex_attributes,
        Buffer::IndexBuffer { .. } => panic!("cube is not indexed"),
    };
    for v in 0..36 {
        let chunk = &data[6 * v..6 * v + 6];
        // positions are corners in half-units
        for &p in &chunk[0..3] {
            assert!(p == 1 || p == -1);
        }
        // the normal is one axis in half-units
        let normal = &chunk[3..6];
        let nonzero: Vec<&i64> = normal.iter().filter(|&&c| c != 0).collect();
        assert_eq!(nonzero.len(), 1);
        assert!(*nonzero[0] == 2 || *nonzero[0] == -2);
    }
    // first vertex of the first face, with its -z normal
    assert_eq!(&data[0..6], &[-1, -1, -1, 0, 0, -2]);
    // last vertex of the last face, with its +y normal
    assert_eq!(&data[210..216], &[-1, 1, -1, 0, 2, 0]);
}

#[test]
fn cube_faces_balance_every_normal_direction() {
    let attrs = Cube.vertex_attributes();
    let data = match attrs.buffer {
        Buffer::ArrayBuffer {
            vertex_attributes, ..
        } => vertex_attributes,
        Buffer::IndexBuffer { .. } => panic!("cube is not indexed"),
    };
    let mut sums = [0i64; 3];
    for v in 0..36 {
        for c in 0..3 {
            sums[c] += data[6 * v + 3 + c];
        }
    }
    assert_eq!(sums, [0, 0, 0]);
}

#[test]
fn vertex_array_records_attached_buffers() {
    let mut vao = VertexArrayObject::from_raw(7);
    assert_eq!(vao.0, 7);
    vao.attach_buffer(ArrayBuffer::from_raw(41));
    vao.attach_buffer(ElementBuffer::from_raw(42));
    assert_eq!(vao.0, 7);
}

#[test]
fn shader_reports_its_program() {
    let shader = Shader::from_raw(9);
    assert_eq!(shader.program(), 9);
    let copy = shader.clone();
    assert_eq!(copy.program(), 9);
}

#[test]
fn camera_movement_commands_are_distinct() {
    let commands = [
        CameraMovement::FORWARD,
        CameraMovement::BACKWARD,
        CameraMovement::LEFT,
        CameraMovement::RIGHT,
    ];
    for (i, a) in commands.iter().enumerate() {
        for (j, b) in commands.iter().enumerate() {
            assert_eq!(a == b, i == j);
        }
    }
}

#[test]
fn texture_reports_its_id() {
    let texture = procgen::texture::Texture::from_raw(12);
    assert_eq!(texture.id(), 12);
}

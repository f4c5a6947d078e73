use procgen::drawable::{Buffer, Drawable, DrawPrimitive};
use procgen::heightfield::HeightField;
use procgen::mesh::{build_vertices, GridVertex};
use procgen::normals::{compute_normals, normalize_scaled, vertex_normal};
use procgen::terrain::Terrain;
use procgen::NORMAL_SCALE;

fn finished_vertices(n: usize, elevations: Vec<i64>, spacing: i64) -> Vec<GridVertex> {
    let hf = HeightField::new(n, elevations).unwrap();
    let mut vertices = build_vertices(&hf, spacing);
    compute_normals(&mut vertices, &hf, spacing);
    vertices
}

fn descriptor_parts(n: usize, elevations: Vec<i64>, spacing: i64) -> (Vec<i64>, Vec<u32>, usize) {
    let hf = HeightField::new(n, elevations).unwrap();
    let terrain = Terrain::new(hf, spacing).unwrap();
    let attrs = terrain.build_attributes();
    assert_eq!(attrs.draw_primitive, DrawPrimitive::TriangleStrip);
    match attrs.buffer {
        Buffer::IndexBuffer {
            vertex_attributes,
            vertex_attribute_pointers,
            indices,
        } => {
            assert_eq!(vertex_attribute_pointers.len(), 3);
            let p0 = vertex_attribute_pointers[0];
            let p1 = vertex_attribute_pointers[1];
            let p2 = vertex_attribute_pointers[2];
            assert_eq!((p0.index, p0.size, p0.stride, p0.offset), (0, 3, 32, 0));
            assert_eq!((p1.index, p1.size, p1.stride, p1.offset), (1, 3, 32, 12));
            assert_eq!((p2.index, p2.size, p2.stride, p2.offset), (2, 2, 32, 24));
            (vertex_attributes, indices, attrs.draw_count)
        }
        Buffer::ArrayBuffer { .. } => panic!("terrain must be indexed"),
    }
}

#[test]
fn counts_hold_for_all_small_resolutions() {
    for n in [2usize, 3, 4, 5, 8, 13] {
        let vertices = finished_vertices(n, vec![0; n * n], 1);
        assert_eq!(vertices.len(), n * n);
        let (flat, indices, draw_count) = descriptor_parts(n, vec![0; n * n], 1);
        assert_eq!(flat.len(), 8 * n * n);
        assert_eq!(indices.len(), 2 * n * (n - 1));
        assert_eq!(draw_count, 2 * n * (n - 1));
    }
}

#[test]
fn flat_field_normals_point_up() {
    for n in [2usize, 3, 4, 5, 6] {
        for level in [0i64, 7, -40] {
            let vertices = finished_vertices(n, vec![level; n * n], 3);
            for v in &vertices {
                assert_eq!((v.normal.x, v.normal.y, v.normal.z), (0, NORMAL_SCALE, 0));
                let nx = v.normal.x as f32 / NORMAL_SCALE as f32;
                let ny = v.normal.y as f32 / NORMAL_SCALE as f32;
                let nz = v.normal.z as f32 / NORMAL_SCALE as f32;
                assert_eq!((nx, ny, nz), (0.0, 1.0, 0.0));
            }
        }
    }
}

#[test]
fn four_by_four_flat_scenario() {
    let (flat, indices, draw_count) = descriptor_parts(4, vec![0; 16], 1);
    assert_eq!(flat.len() / 8, 16);
    assert_eq!(indices.len(), 24);
    assert_eq!(draw_count, 24);
    // vertex at grid (0, 0) sits at the origin
    assert_eq!(&flat[0..3], &[0, 0, 0]);
    // vertex at grid (3, 3) sits at (3, 0, 3)
    let base = 8 * 15;
    assert_eq!(&flat[base..base + 3], &[3, 0, 3]);
    // all 16 normals equal the upward unit vector
    for i in 0..16 {
        assert_eq!(
            &flat[8 * i + 3..8 * i + 6],
            &[0, NORMAL_SCALE, 0],
            "vertex {}",
            i
        );
    }
}

#[test]
fn two_by_two_minimum_scenario() {
    let (flat, indices, draw_count) = descriptor_parts(2, vec![0; 4], 1);
    assert_eq!(flat.len() / 8, 4);
    assert_eq!(indices, vec![0, 2, 1, 3]);
    assert_eq!(draw_count, 4);
    // one triangle pair, no index out of range
    for &ix in &indices {
        assert!(ix < 4);
    }
}

#[test]
fn normals_have_unit_magnitude_on_rough_terrain() {
    let n = 9usize;
    let spacing = 16i64;
    let elevations: Vec<i64> = (0..n * n)
        .map(|i| {
            let x = (i / n) as i64;
            let z = (i % n) as i64;
            ((x * 31 + z * 17) % 13 - 6) * 3 * spacing
        })
        .collect();
    let vertices = finished_vertices(n, elevations, spacing);
    for v in &vertices {
        let nx = v.normal.x as f64 / NORMAL_SCALE as f64;
        let ny = v.normal.y as f64 / NORMAL_SCALE as f64;
        let nz = v.normal.z as f64 / NORMAL_SCALE as f64;
        let magnitude = (nx * nx + ny * ny + nz * nz).sqrt();
        assert!((magnitude - 1.0).abs() < 1e-5, "magnitude {}", magnitude);
        // the vertical component always points upward
        assert!(v.normal.y > 0);
    }
}

#[test]
fn vertex_normal_matches_mesh_normals() {
    let n = 5usize;
    let spacing = 4i64;
    let elevations: Vec<i64> = (0..n * n).map(|i| ((i as i64) % 5 - 2) * 20).collect();
    let hf = HeightField::new(n, elevations.clone()).unwrap();
    let vertices = finished_vertices(n, elevations, spacing);
    for x in 0..n {
        for z in 0..n {
            let direct = vertex_normal(&hf, spacing, x, z);
            let stored = vertices[x * n + z].normal;
            assert_eq!((direct.x, direct.y, direct.z), (stored.x, stored.y, stored.z));
        }
    }
}

#[test]
fn tilted_plane_normal_leans_against_the_slope() {
    // a ramp rising one spacing per cell along x: normals lean toward -x
    let n = 4usize;
    let spacing = 8i64;
    let elevations: Vec<i64> = (0..n * n).map(|i| (i / n) as i64 * spacing).collect();
    let hf = HeightField::new(n, elevations).unwrap();
    let v = vertex_normal(&hf, spacing, 1, 1);
    assert!(v.x < 0);
    assert_eq!(v.z, 0);
    assert!(v.y > 0);
    // the slope is 45 degrees, so |x| == y up to rounding
    assert!((v.x + v.y).abs() <= 1);
}

#[test]
fn trait_descriptor_matches_the_inherent_builder() {
    let n = 3usize;
    let elevations: Vec<i64> = (0..n * n).map(|i| (i as i64) * 5 - 20).collect();
    let hf = HeightField::new(n, elevations.clone()).unwrap();
    let terrain = Terrain::new(hf, 2).unwrap();
    let via_trait = terrain.vertex_attributes();
    let direct = terrain.build_attributes();
    assert_eq!(via_trait.draw_count, direct.draw_count);
    assert_eq!(via_trait.draw_primitive, direct.draw_primitive);
    match (via_trait.buffer, direct.buffer) {
        (
            Buffer::IndexBuffer {
                vertex_attributes: a,
                indices: ia,
                ..
            },
            Buffer::IndexBuffer {
                vertex_attributes: b,
                indices: ib,
                ..
            },
        ) => {
            assert_eq!(a, b);
            assert_eq!(ia, ib);
        }
        _ => panic!("terrain must be indexed"),
    }
}

#[test]
fn zero_vector_normalizes_to_the_upward_fallback() {
    let v = normalize_scaled(0, 0, 0);
    assert_eq!((v.x, v.y, v.z), (0, NORMAL_SCALE, 0));
}

#[test]
fn axis_vectors_normalize_exactly() {
    let v = normalize_scaled(0, 12345, 0);
    assert_eq!((v.x, v.y, v.z), (0, NORMAL_SCALE, 0));
    let v = normalize_scaled(-77, 0, 0);
    assert_eq!((v.x, v.y, v.z), (-NORMAL_SCALE, 0, 0));
    let v = normalize_scaled(0, 0, 9);
    assert_eq!((v.x, v.y, v.z), (0, 0, NORMAL_SCALE));
}

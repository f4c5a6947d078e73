use procgen::heightfield::HeightField;
use procgen::mesh::{build_indices, build_vertices, flatten_vertices, vertex_uv};

fn flat_field(n: usize) -> HeightField {
    HeightField::new(n, vec![0; n * n]).unwrap()
}

#[test]
fn uv_checkerboard_corners() {
    assert_eq!(vertex_uv(1, 1), (0, 0));
    assert_eq!(vertex_uv(1, 2), (0, 1));
    assert_eq!(vertex_uv(2, 1), (1, 0));
    assert_eq!(vertex_uv(2, 2), (1, 1));
    assert_eq!(vertex_uv(0, 0), (1, 1));
}

#[test]
fn uv_checkerboard_everywhere() {
    for x in 0..16usize {
        for z in 0..16usize {
            let uv = vertex_uv(x, z);
            assert_eq!(uv == (0, 0), x % 2 == 1 && z % 2 == 1);
            assert_eq!(uv == (1, 1), x % 2 == 0 && z % 2 == 0);
            assert_eq!(uv == (0, 1), x % 2 == 1 && z % 2 == 0);
            assert_eq!(uv == (1, 0), x % 2 == 0 && z % 2 == 1);
        }
    }
}

#[test]
fn vertex_counts_match_resolution() {
    for n in [2usize, 3, 4, 5, 10, 17] {
        let hf = flat_field(n);
        let vertices = build_vertices(&hf, 1);
        assert_eq!(vertices.len(), n * n);
    }
}

#[test]
fn index_counts_match_resolution() {
    for n in [2usize, 3, 4, 5, 10, 17] {
        let indices = build_indices(n);
        assert_eq!(indices.len(), 2 * n * (n - 1));
    }
}

#[test]
fn vertices_carry_positions_and_placeholder_normals() {
    let hf = HeightField::new(3, vec![5, 6, 7, 8, 9, 10, 11, 12, 13]).unwrap();
    let vertices = build_vertices(&hf, 2);
    for x in 0..3usize {
        for z in 0..3usize {
            let v = vertices[x * 3 + z];
            assert_eq!(v.position.x, (x as i64) * 2);
            assert_eq!(v.position.y, 5 + (x as i64) * 3 + z as i64);
            assert_eq!(v.position.z, (z as i64) * 2);
            assert_eq!((v.normal.x, v.normal.y, v.normal.z), (0, 0, 0));
            assert_eq!((v.uv.x, v.uv.y), vertex_uv(x, z));
        }
    }
}

#[test]
fn serpentine_indices_smallest_grid() {
    assert_eq!(build_indices(2), vec![0, 2, 1, 3]);
}

#[test]
fn serpentine_indices_three_by_three() {
    assert_eq!(build_indices(3), vec![0, 3, 1, 4, 2, 5, 8, 4, 7, 3, 6, 2]);
}

#[test]
fn serpentine_indices_four_by_four() {
    assert_eq!(
        build_indices(4),
        vec![
            0, 4, 1, 5, 2, 6, 3, 7, // row pair 0, sweeping up
            11, 6, 10, 5, 9, 4, 8, 3, // row pair 1, sweeping down
            8, 12, 9, 13, 10, 14, 11, 15, // row pair 2, sweeping up
        ]
    );
}

#[test]
fn indices_stay_in_range() {
    for n in [2usize, 3, 4, 5, 9, 16] {
        let limit = (n * n) as u32;
        for ix in build_indices(n) {
            assert!(ix < limit);
        }
    }
}

#[test]
fn flatten_interleaves_eight_entries_per_vertex() {
    let hf = HeightField::new(2, vec![3, -4, 5, -6]).unwrap();
    let vertices = build_vertices(&hf, 1);
    let flat = flatten_vertices(&vertices);
    assert_eq!(flat.len(), 8 * vertices.len());
    for (i, v) in vertices.iter().enumerate() {
        assert_eq!(flat[8 * i], v.position.x);
        assert_eq!(flat[8 * i + 1], v.position.y);
        assert_eq!(flat[8 * i + 2], v.position.z);
        assert_eq!(flat[8 * i + 3], v.normal.x);
        assert_eq!(flat[8 * i + 4], v.normal.y);
        assert_eq!(flat[8 * i + 5], v.normal.z);
        assert_eq!(flat[8 * i + 6], v.uv.x);
        assert_eq!(flat[8 * i + 7], v.uv.y);
    }
}

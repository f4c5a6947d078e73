use procgen::topology::{classify, incident_triangles, TopologyClass};

/// The number of triangles each class is expected to enumerate, given the
/// vertex coordinates and the grid resolution.
fn expected_count(n: usize, x: usize, z: usize) -> usize {
    let last = n - 1;
    match classify(n, x, z) {
        TopologyClass::CornerXMinZMin => 1,
        TopologyClass::CornerXMinZMax => 2,
        TopologyClass::CornerXMaxZMin => {
            if n % 2 == 0 {
                2
            } else {
                1
            }
        }
        TopologyClass::CornerXMaxZMax => {
            if n % 2 == 0 {
                1
            } else {
                2
            }
        }
        TopologyClass::BorderXMin | TopologyClass::BorderXMax => 3,
        TopologyClass::BorderZMin => {
            if x % 2 == 0 {
                2
            } else {
                4
            }
        }
        TopologyClass::BorderZMax => {
            if x % 2 == 0 {
                4
            } else {
                2
            }
        }
        TopologyClass::Interior => {
            assert!(0 < x && x < last && 0 < z && z < last);
            6
        }
    }
}

#[test]
fn classification_covers_all_nine_classes() {
    let n = 5;
    assert_eq!(classify(n, 0, 0), TopologyClass::CornerXMinZMin);
    assert_eq!(classify(n, 4, 0), TopologyClass::CornerXMaxZMin);
    assert_eq!(classify(n, 4, 4), TopologyClass::CornerXMaxZMax);
    assert_eq!(classify(n, 0, 4), TopologyClass::CornerXMinZMax);
    assert_eq!(classify(n, 0, 2), TopologyClass::BorderXMin);
    assert_eq!(classify(n, 4, 2), TopologyClass::BorderXMax);
    assert_eq!(classify(n, 2, 0), TopologyClass::BorderZMin);
    assert_eq!(classify(n, 2, 4), TopologyClass::BorderZMax);
    assert_eq!(classify(n, 2, 2), TopologyClass::Interior);
}

#[test]
fn smallest_grid_is_all_corners() {
    assert_eq!(classify(2, 0, 0), TopologyClass::CornerXMinZMin);
    assert_eq!(classify(2, 1, 0), TopologyClass::CornerXMaxZMin);
    assert_eq!(classify(2, 1, 1), TopologyClass::CornerXMaxZMax);
    assert_eq!(classify(2, 0, 1), TopologyClass::CornerXMinZMax);
}

#[test]
fn enumerations_reference_only_valid_indices() {
    for n in [2usize, 3, 4, 5, 6, 7] {
        let limit = (n * n) as u32;
        for x in 0..n {
            for z in 0..n {
                for (a, b, c) in incident_triangles(n, x, z) {
                    assert!(a < limit && b < limit && c < limit);
                }
            }
        }
    }
}

#[test]
fn enumerations_start_at_the_center_vertex() {
    for n in [2usize, 3, 4, 5] {
        for x in 0..n {
            for z in 0..n {
                let center = (x * n + z) as u32;
                for (a, b, c) in incident_triangles(n, x, z) {
                    assert_eq!(a, center);
                    assert_ne!(b, center);
                    assert_ne!(c, center);
                    assert_ne!(b, c);
                }
            }
        }
    }
}

#[test]
fn enumeration_counts_follow_the_classes() {
    for n in [2usize, 3, 4, 5, 6, 7] {
        for x in 0..n {
            for z in 0..n {
                let count = incident_triangles(n, x, z).len();
                assert_eq!(count, expected_count(n, x, z), "n={} x={} z={}", n, x, z);
                assert!((1..=6).contains(&count));
            }
        }
    }
}

#[test]
fn total_incidence_counts_every_triangle_three_times() {
    // the grid has 2 * (n-1)^2 triangles, each incident to 3 vertices
    for n in [2usize, 3, 4, 5, 8, 9] {
        let mut total = 0;
        for x in 0..n {
            for z in 0..n {
                total += incident_triangles(n, x, z).len();
            }
        }
        assert_eq!(total, 6 * (n - 1) * (n - 1));
    }
}

#[test]
fn interior_enumerations_mirror_each_other() {
    // neighbour offsets of an even-row interior vertex are the point
    // reflection of an odd-row interior vertex's offsets
    let n = 7usize;
    let offsets = |x: usize, z: usize| -> Vec<(i64, i64)> {
        let c = (x * n + z) as i64;
        let mut v: Vec<(i64, i64)> = incident_triangles(n, x, z)
            .into_iter()
            .map(|(_, p1, p2)| (p1 as i64 - c, p2 as i64 - c))
            .collect();
        v.sort();
        v
    };
    let odd = offsets(3, 3);
    let mut mirrored: Vec<(i64, i64)> = odd.iter().map(|(a, b)| (-a, -b)).collect();
    mirrored.sort();
    assert_eq!(offsets(4, 3), mirrored);
}

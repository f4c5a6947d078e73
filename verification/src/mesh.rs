//! The mesh builder: vertex emission, serpentine index emission, and the
//! interleaved attribute buffer.
//!
//! Vertices are emitted row-major: the vertex of grid cell `(x, z)` sits at
//! sequence index `x * n + z`.  Indices describe one connected triangle-strip
//! traversal: each of the `n - 1` row pairs contributes two indices per grid
//! position, sweeping `z` upward on even rows and downward on odd rows.

use vstd::prelude::*;

use vstd::arithmetic::div_mod::lemma_fundamental_div_mod_converse;

use crate::geometry::Vec2i;
use crate::geometry::Vec3i;
use crate::heightfield::lemma_grid_index_bounds;
use crate::heightfield::lemma_square_bounded;
use crate::heightfield::HeightField;
use crate::MAX_RESOLUTION;
use crate::MAX_SPACING;

verus! {

/// One grid vertex: model-space position, normal, and texture coordinate,
/// all in the crate's integer units.
#[derive(Clone, Copy, Debug, PartialEq, Eq, Structural)]
pub struct GridVertex {
    pub position: Vec3i,
    pub normal: Vec3i,
    pub uv: Vec2i,
}

/// The checkerboard texture coordinate of grid cell `(x, z)`:
/// `(0,0)` when both are odd, `(0,1)` for odd `x` and even `z`,
/// `(1,0)` for even `x` and odd `z`, and `(1,1)` when both are even.
pub open spec fn uv_spec(x: int, z: int) -> (int, int) {
    if x % 2 == 1 && z % 2 == 1 {
        (0, 0)
    } else if x % 2 == 1 && z % 2 == 0 {
        (0, 1)
    } else if x % 2 == 0 && z % 2 == 1 {
        (1, 0)
    } else {
        (1, 1)
    }
}

/// The checkerboard texture coordinate of grid cell `(x, z)`.
pub fn vertex_uv(x: usize, z: usize) -> (r: (i64, i64))
    ensures
        (r.0 as int, r.1 as int) == uv_spec(x as int, z as int),
{
    if x % 2 == 1 {
        if z % 2 == 1 {
            (0, 0)
        } else {
            (0, 1)
        }
    } else {
        if z % 2 == 1 {
            (1, 0)
        } else {
            (1, 1)
        }
    }
}

/// The vertex the mesh builder emits for grid cell `(x, z)`:
/// position `(x * spacing, elevation, z * spacing)`, a zero placeholder
/// normal, and the checkerboard texture coordinate.
pub open spec fn vertex_at(hf: HeightField, spacing: int, x: int, z: int) -> GridVertex {
    GridVertex {
        position: Vec3i {
            x: (x * spacing) as i64,
            y: hf.elevation_at(x, z) as i64,
            z: (z * spacing) as i64,
        },
        normal: Vec3i::zero_spec(),
        uv: Vec2i { x: uv_spec(x, z).0 as i64, y: uv_spec(x, z).1 as i64 },
    }
}

/// The vertex of grid cell `(x, z)` in a row-major vertex sequence.
pub open spec fn vertex_lookup(va: Seq<GridVertex>, n: int, x: int, z: int) -> GridVertex {
    va[x * n + z]
}

/// Whether `va` is exactly the vertex sequence the mesh builder emits
/// for `hf` at the given spacing.
pub open spec fn vertices_built(va: Seq<GridVertex>, hf: HeightField, spacing: int) -> bool {
    let n = hf.resolution_spec();
    &&& va.len() == n * n
    &&& forall|x: int, z: int|
        0 <= x < n && 0 <= z < n ==> #[trigger] vertex_lookup(va, n, x, z) == vertex_at(
            hf,
            spacing,
            x,
            z,
        )
}

/// Emits the row-major vertex sequence for `hf`: every vertex carries its
/// model-space position, a zero placeholder normal, and its checkerboard
/// texture coordinate.
pub fn build_vertices(hf: &HeightField, spacing: i64) -> (r: Vec<GridVertex>)
    requires
        hf.wf(),
        1 <= spacing <= MAX_SPACING,
    ensures
        r@.len() == hf.resolution_spec() * hf.resolution_spec(),
        vertices_built(r@, *hf, spacing as int),
{
    let n = hf.resolution();
    proof {
        lemma_square_bounded(n as int);
    }
    let mut r: Vec<GridVertex> = Vec::new();
    let mut x: usize = 0;
    while x < n
        invariant
            hf.wf(),
            1 <= spacing <= MAX_SPACING,
            n == hf.resolution_spec(),
            x <= n,
            r@.len() == x * n,
            forall|i: int|
                0 <= i < r@.len() ==> #[trigger] r@[i] == vertex_at(
                    *hf,
                    spacing as int,
                    i / (n as int),
                    i % (n as int),
                ),
        decreases n - x,
    {
        let mut z: usize = 0;
        while z < n
            invariant
                hf.wf(),
                1 <= spacing <= MAX_SPACING,
                n == hf.resolution_spec(),
                x < n,
                z <= n,
                r@.len() == x * n + z,
                forall|i: int|
                    0 <= i < r@.len() ==> #[trigger] r@[i] == vertex_at(
                        *hf,
                        spacing as int,
                        i / (n as int),
                        i % (n as int),
                    ),
            decreases n - z,
        {
            proof {
                lemma_grid_index_bounds(x as int, z as int, n as int);
                lemma_square_bounded(n as int);
                assert(0 <= (x as int) * spacing <= 16384 * 1024) by (nonlinear_arith)
                    requires
                        0 <= x < 16384,
                        1 <= spacing <= 1024,
                ;
                assert(0 <= (z as int) * spacing <= 16384 * 1024) by (nonlinear_arith)
                    requires
                        0 <= z < 16384,
                        1 <= spacing <= 1024,
                ;
            }
            let uv = vertex_uv(x, z);
            let vertex = GridVertex {
                position: Vec3i { x: (x as i64) * spacing, y: hf.elevation(x, z), z: (z as i64) * spacing },
                normal: Vec3i::zero(),
                uv: Vec2i { x: uv.0, y: uv.1 },
            };
            proof {
                lemma_fundamental_div_mod_converse(
                    (x as int) * (n as int) + (z as int),
                    n as int,
                    x as int,
                    z as int,
                );
            }
            r.push(vertex);
            z = z + 1;
        }
        proof {
            assert((x as int + 1) * (n as int) == (x as int) * (n as int) + n) by (nonlinear_arith);
        }
        x = x + 1;
    }
    proof {
        assert forall|a: int, b: int|
            0 <= a < hf.resolution_spec() && 0 <= b
                < hf.resolution_spec() implies #[trigger] vertex_lookup(
            r@,
            hf.resolution_spec(),
            a,
            b,
        ) == vertex_at(*hf, spacing as int, a, b) by {
            lemma_grid_index_bounds(a, b, n as int);
            lemma_fundamental_div_mod_converse(a * (n as int) + b, n as int, a, b);
        }
    }
    r
}

/// The number of indices the serpentine traversal emits.
pub open spec fn index_count(n: int) -> int {
    2 * n * (n - 1)
}

/// The `k`-th index of the serpentine traversal of an `n` by `n` grid.
/// Row pair `row` contributes indices `2 * n * row .. 2 * n * (row + 1)`.
/// Even row pairs sweep `z` upward, emitting the vertex `(row, z)` and then
/// `(row + 1, z)`; odd row pairs sweep `z` downward, emitting the vertex
/// `(row + 1, z)` and then the row-major predecessor of `(row, z)` — so the
/// cell diagonals alternate direction with the row parity, matching the
/// topology the normal estimator enumerates.  At the downward sweep's last
/// position the predecessor wraps to the previous row's last vertex.
pub open spec fn index_at(n: int, k: int) -> int {
    let row = k / (2 * n);
    let j = k % (2 * n);
    let step = j / 2;
    if row % 2 == 0 {
        if j % 2 == 0 {
            row * n + step
        } else {
            (row + 1) * n + step
        }
    } else {
        let z = n - 1 - step;
        if j % 2 == 0 {
            (row + 1) * n + z
        } else {
            row * n + z - 1
        }
    }
}

/// Every index of the serpentine traversal names a vertex of the grid.
pub proof fn lemma_index_at_valid(n: int, k: int)
    requires
        2 <= n,
        0 <= k < index_count(n),
    ensures
        0 <= index_at(n, k) < n * n,
{
    vstd::arithmetic::div_mod::lemma_fundamental_div_mod(k, 2 * n);
    vstd::arithmetic::div_mod::lemma_mod_bound(k, 2 * n);
    vstd::arithmetic::div_mod::lemma_div_pos_is_pos(k, 2 * n);
    let row = k / (2 * n);
    let j = k % (2 * n);
    assert(row <= n - 2) by (nonlinear_arith)
        requires
            k == (2 * n) * row + j,
            0 <= j < 2 * n,
            k < 2 * n * (n - 1),
            0 <= row,
            2 <= n,
    ;
    vstd::arithmetic::div_mod::lemma_fundamental_div_mod(j, 2);
    vstd::arithmetic::div_mod::lemma_mod_bound(j, 2);
    vstd::arithmetic::div_mod::lemma_div_pos_is_pos(j, 2);
    let step = j / 2;
    assert(step <= n - 1) by (nonlinear_arith)
        requires
            j == 2 * step + j % 2,
            0 <= j % 2 < 2,
            j < 2 * n,
            0 <= step,
    ;
    if row % 2 == 0 {
        lemma_grid_index_bounds(row, step, n);
        lemma_grid_index_bounds(row + 1, step, n);
    } else {
        lemma_grid_index_bounds(row, n - 1 - step, n);
        lemma_grid_index_bounds(row + 1, n - 1 - step, n);
        assert(n <= row * n) by (nonlinear_arith)
            requires
                1 <= row,
                0 <= n,
        ;
    }
}

/// Emits the serpentine triangle-strip index sequence:
/// `2 * n * (n - 1)` indices, each a valid vertex index.
pub fn build_indices(resolution: usize) -> (r: Vec<u32>)
    requires
        2 <= resolution <= MAX_RESOLUTION,
    ensures
        r@.len() == index_count(resolution as int),
        forall|k: int|
            0 <= k < r@.len() ==> #[trigger] r@[k] == index_at(resolution as int, k),
        forall|k: int|
            0 <= k < r@.len() ==> 0 <= #[trigger] r@[k] < resolution * resolution,
{
    let n = resolution;
    proof {
        lemma_square_bounded(n as int);
    }
    let mut r: Vec<u32> = Vec::new();
    let mut x: usize = 0;
    while x < n - 1
        invariant
            2 <= n <= MAX_RESOLUTION,
            x <= n - 1,
            r@.len() == 2 * (n as int) * (x as int),
            forall|k: int|
                0 <= k < r@.len() ==> #[trigger] r@[k] == index_at(n as int, k),
            forall|k: int|
                0 <= k < r@.len() ==> 0 <= #[trigger] r@[k] < n * n,
        decreases n - 1 - x,
    {
        let mut step: usize = 0;
        while step < n
            invariant
                2 <= n <= MAX_RESOLUTION,
                x < n - 1,
                step <= n,
                r@.len() == 2 * (n as int) * (x as int) + 2 * (step as int),
                forall|k: int|
                    0 <= k < r@.len() ==> #[trigger] r@[k] == index_at(n as int, k),
                forall|k: int|
                    0 <= k < r@.len() ==> 0 <= #[trigger] r@[k] < n * n,
            decreases n - step,
        {
            proof {
                lemma_square_bounded(n as int);
            }
            let first: usize;
            let second: usize;
            if x % 2 == 0 {
                let z = step;
                proof {
                    lemma_grid_index_bounds(x as int, z as int, n as int);
                    lemma_grid_index_bounds(x as int + 1, z as int, n as int);
                }
                first = x * n + z;
                second = (x + 1) * n + z;
            } else {
                let z = n - 1 - step;
                proof {
                    lemma_grid_index_bounds(x as int, z as int, n as int);
                    lemma_grid_index_bounds(x as int + 1, z as int, n as int);
                    assert((n as int) <= (x as int) * (n as int)) by (nonlinear_arith)
                        requires
                            1 <= x,
                            0 <= n,
                    ;
                }
                first = (x + 1) * n + z;
                second = x * n + z - 1;
            }
            proof {
                let k0 = 2 * (n as int) * (x as int) + 2 * (step as int);
                lemma_fundamental_div_mod_converse(
                    k0,
                    2 * (n as int),
                    x as int,
                    2 * (step as int),
                );
                lemma_fundamental_div_mod_converse(
                    k0 + 1,
                    2 * (n as int),
                    x as int,
                    2 * (step as int) + 1,
                );
                lemma_fundamental_div_mod_converse(2 * (step as int), 2, step as int, 0);
                lemma_fundamental_div_mod_converse(2 * (step as int) + 1, 2, step as int, 1);
                assert(index_at(n as int, k0) == first);
                assert(index_at(n as int, k0 + 1) == second);
            }
            r.push(first as u32);
            r.push(second as u32);
            step = step + 1;
        }
        proof {
            assert(2 * (n as int) * (x as int + 1) == 2 * (n as int) * (x as int) + 2 * (
            n as int)) by (nonlinear_arith);
        }
        x = x + 1;
    }
    r
}

/// The `j`-th interleaved attribute of one vertex: three position
/// components, three normal components, then the two texture coordinates.
pub open spec fn vertex_field(v: GridVertex, j: int) -> i64 {
    if j == 0 {
        v.position.x
    } else if j == 1 {
        v.position.y
    } else if j == 2 {
        v.position.z
    } else if j == 3 {
        v.normal.x
    } else if j == 4 {
        v.normal.y
    } else if j == 5 {
        v.normal.z
    } else if j == 6 {
        v.uv.x
    } else {
        v.uv.y
    }
}

/// The interleaved attribute sequence: eight entries per vertex, in the
/// order position, normal, texture coordinate.
pub open spec fn flatten_spec(va: Seq<GridVertex>) -> Seq<i64> {
    Seq::new((8 * va.len()) as nat, |j: int| vertex_field(va[j / 8], j % 8))
}

/// Flattens the vertex sequence into the interleaved attribute buffer.
pub fn flatten_vertices(va: &Vec<GridVertex>) -> (r: Vec<i64>)
    requires
        va@.len() <= 0x10000000,
    ensures
        r@ == flatten_spec(va@),
{
    let mut r: Vec<i64> = Vec::new();
    let mut i: usize = 0;
    while i < va.len()
        invariant
            va@.len() <= 0x10000000,
            i <= va@.len(),
            r@.len() == 8 * i,
            forall|j: int| 0 <= j < r@.len() ==> #[trigger] r@[j] == flatten_spec(va@)[j],
        decreases va@.len() - i,
    {
        let v = va[i];
        r.push(v.position.x);
        r.push(v.position.y);
        r.push(v.position.z);
        r.push(v.normal.x);
        r.push(v.normal.y);
        r.push(v.normal.z);
        r.push(v.uv.x);
        r.push(v.uv.y);
        proof {
            lemma_fundamental_div_mod_converse(8 * (i as int), 8, i as int, 0);
            lemma_fundamental_div_mod_converse(8 * (i as int) + 1, 8, i as int, 1);
            lemma_fundamental_div_mod_converse(8 * (i as int) + 2, 8, i as int, 2);
            lemma_fundamental_div_mod_converse(8 * (i as int) + 3, 8, i as int, 3);
            lemma_fundamental_div_mod_converse(8 * (i as int) + 4, 8, i as int, 4);
            lemma_fundamental_div_mod_converse(8 * (i as int) + 5, 8, i as int, 5);
            lemma_fundamental_div_mod_converse(8 * (i as int) + 6, 8, i as int, 6);
            lemma_fundamental_div_mod_converse(8 * (i as int) + 7, 8, i as int, 7);
        }
        i = i + 1;
    }
    proof {
        assert(r@ =~= flatten_spec(va@));
    }
    r
}

} // verus!

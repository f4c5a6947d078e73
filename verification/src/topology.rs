//! Topological classification of grid vertices and the enumeration of the
//! triangles incident to each vertex.
//!
//! The grid is triangulated row pair by row pair, and the diagonal of each
//! cell alternates direction with the row parity (the serpentine strip sweeps
//! even rows upward and odd rows downward).  Which triangles touch a vertex
//! therefore depends on where the vertex sits: one of four corners, one of
//! four open borders, or the interior, with a parity sub-case where the
//! neighbouring row pairs differ.  Each class enumerates its incident
//! triangles as a small table of neighbour offsets relative to the vertex.
//!
//! Every tabulated triangle `(c, p1, p2)` lists its corners so that the
//! in-plane determinant of the two edges is `+1`; with the elevation axis
//! pointing up, the cross product of the edges then always points upward
//! over a flat grid.

use vstd::prelude::*;

use crate::heightfield::lemma_grid_index_bounds;
use crate::heightfield::lemma_square_bounded;
use crate::MAX_RESOLUTION;

verus! {

/// A triangle incident to a grid vertex, described by the `(x, z)` offsets
/// of its two other corners relative to the vertex.
pub struct TriOffsets {
    pub dx1: int,
    pub dz1: int,
    pub dx2: int,
    pub dz2: int,
}

/// Shorthand for one tabulated triangle.
pub open spec fn tri(dx1: int, dz1: int, dx2: int, dz2: int) -> TriOffsets {
    TriOffsets { dx1, dz1, dx2, dz2 }
}

/// The topological class of a grid vertex: its position category in the
/// grid, which determines the incident-triangle enumeration.
#[derive(Clone, Copy, Debug, PartialEq, Eq, Structural)]
pub enum TopologyClass {
    /// `(0, 0)`.
    CornerXMinZMin,
    /// `(n-1, 0)`.
    CornerXMaxZMin,
    /// `(n-1, n-1)`.
    CornerXMaxZMax,
    /// `(0, n-1)`.
    CornerXMinZMax,
    /// `x = 0`, `0 < z < n-1`.
    BorderXMin,
    /// `x = n-1`, `0 < z < n-1`.
    BorderXMax,
    /// `z = 0`, `0 < x < n-1`.
    BorderZMin,
    /// `z = n-1`, `0 < x < n-1`.
    BorderZMax,
    /// `0 < x < n-1`, `0 < z < n-1`.
    Interior,
}

/// The class of vertex `(x, z)` in an `n` by `n` grid.
pub open spec fn classify_spec(n: int, x: int, z: int) -> TopologyClass {
    if x == 0 && z == 0 {
        TopologyClass::CornerXMinZMin
    } else if x == n - 1 && z == 0 {
        TopologyClass::CornerXMaxZMin
    } else if x == n - 1 && z == n - 1 {
        TopologyClass::CornerXMaxZMax
    } else if x == 0 && z == n - 1 {
        TopologyClass::CornerXMinZMax
    } else if x == 0 {
        TopologyClass::BorderXMin
    } else if x == n - 1 {
        TopologyClass::BorderXMax
    } else if z == 0 {
        TopologyClass::BorderZMin
    } else if z == n - 1 {
        TopologyClass::BorderZMax
    } else {
        TopologyClass::Interior
    }
}

/// The class of vertex `(x, z)` in an `n` by `n` grid.
pub fn classify(resolution: usize, x: usize, z: usize) -> (r: TopologyClass)
    requires
        2 <= resolution,
        x < resolution,
        z < resolution,
    ensures
        r == classify_spec(resolution as int, x as int, z as int),
{
    let n = resolution;
    if x == 0 && z == 0 {
        TopologyClass::CornerXMinZMin
    } else if x == n - 1 && z == 0 {
        TopologyClass::CornerXMaxZMin
    } else if x == n - 1 && z == n - 1 {
        TopologyClass::CornerXMaxZMax
    } else if x == 0 && z == n - 1 {
        TopologyClass::CornerXMinZMax
    } else if x == 0 {
        TopologyClass::BorderXMin
    } else if x == n - 1 {
        TopologyClass::BorderXMax
    } else if z == 0 {
        TopologyClass::BorderZMin
    } else if z == n - 1 {
        TopologyClass::BorderZMax
    } else {
        TopologyClass::Interior
    }
}

/// The six interior triangles around a vertex on an odd row: the row pair
/// below carries the upward diagonal, the row pair above the downward one.
pub open spec fn interior_offsets_odd() -> Seq<TriOffsets> {
    seq![
        tri(1, 0, 0, -1),
        tri(0, -1, -1, 0),
        tri(-1, 0, -1, 1),
        tri(-1, 1, 0, 1),
        tri(0, 1, 1, 1),
        tri(1, 1, 1, 0),
    ]
}

/// The six interior triangles around a vertex on an even row: the mirror
/// image of the odd-row enumeration.
pub open spec fn interior_offsets_even() -> Seq<TriOffsets> {
    seq![
        tri(1, 0, 1, -1),
        tri(1, -1, 0, -1),
        tri(0, -1, -1, -1),
        tri(-1, -1, -1, 0),
        tri(-1, 0, 0, 1),
        tri(0, 1, 1, 0),
    ]
}

/// The triangles incident to vertex `(x, z)` of an `n` by `n` grid, as
/// offsets relative to `(x, z)`.  Corners meet one or two triangles, open
/// borders two to four, interior vertices six.
pub open spec fn incident_offsets(n: int, x: int, z: int) -> Seq<TriOffsets> {
    match classify_spec(n, x, z) {
        TopologyClass::CornerXMinZMin => seq![tri(0, 1, 1, 0)],
        TopologyClass::CornerXMaxZMin => if n % 2 == 0 {
            seq![tri(-1, 0, -1, 1), tri(-1, 1, 0, 1)]
        } else {
            seq![tri(-1, 0, 0, 1)]
        },
        TopologyClass::CornerXMaxZMax => if n % 2 == 0 {
            seq![tri(0, -1, -1, 0)]
        } else {
            seq![tri(0, -1, -1, -1), tri(-1, -1, -1, 0)]
        },
        TopologyClass::CornerXMinZMax => seq![tri(1, 0, 1, -1), tri(1, -1, 0, -1)],
        TopologyClass::BorderXMin => seq![tri(1, -1, 0, -1), tri(1, 0, 1, -1), tri(0, 1, 1, 0)],
        TopologyClass::BorderXMax => if n % 2 == 0 {
            seq![tri(0, -1, -1, 0), tri(-1, 0, -1, 1), tri(-1, 1, 0, 1)]
        } else {
            seq![tri(0, -1, -1, -1), tri(-1, -1, -1, 0), tri(-1, 0, 0, 1)]
        },
        TopologyClass::BorderZMin => if x % 2 == 0 {
            seq![tri(-1, 0, 0, 1), tri(0, 1, 1, 0)]
        } else {
            seq![tri(-1, 0, -1, 1), tri(-1, 1, 0, 1), tri(1, 1, 1, 0), tri(0, 1, 1, 1)]
        },
        TopologyClass::BorderZMax => if x % 2 == 0 {
            seq![tri(0, -1, -1, -1), tri(-1, -1, -1, 0), tri(1, 0, 1, -1), tri(1, -1, 0, -1)]
        } else {
            seq![tri(0, -1, -1, 0), tri(1, 0, 0, -1)]
        },
        TopologyClass::Interior => if x % 2 == 0 {
            interior_offsets_even()
        } else {
            interior_offsets_odd()
        },
    }
}

/// Whether both neighbour offsets of `t` stay inside the `n` by `n` grid
/// when applied at `(x, z)`.
pub open spec fn tri_in_grid(n: int, x: int, z: int, t: TriOffsets) -> bool {
    &&& 0 <= x + t.dx1 < n
    &&& 0 <= z + t.dz1 < n
    &&& 0 <= x + t.dx2 < n
    &&& 0 <= z + t.dz2 < n
}

/// The in-plane determinant of a tabulated triangle's two edges.
pub open spec fn tri_det(t: TriOffsets) -> int {
    t.dz1 * t.dx2 - t.dx1 * t.dz2
}

/// Whether every neighbour offset of `t` is `-1`, `0`, or `1`.
pub open spec fn tri_small(t: TriOffsets) -> bool {
    &&& -1 <= t.dx1 <= 1
    &&& -1 <= t.dz1 <= 1
    &&& -1 <= t.dx2 <= 1
    &&& -1 <= t.dz2 <= 1
}

/// One vertex's enumeration keeps every triangle inside the grid, winds it
/// with determinant `+1`, and reaches only the eight neighbouring cells.
pub open spec fn offsets_sound_at(n: int, x: int, z: int) -> bool {
    &&& 1 <= incident_offsets(n, x, z).len() <= 6
    &&& forall|i: int|
        0 <= i < incident_offsets(n, x, z).len() ==> tri_in_grid(
            n,
            x,
            z,
            #[trigger] incident_offsets(n, x, z)[i],
        ) && tri_det(incident_offsets(n, x, z)[i]) == 1 && tri_small(incident_offsets(n, x, z)[i])
}

/// The product of two integers in `[-1, 1]`, evaluated by sign.
proof fn lemma_small_mul(a: int, b: int)
    by (nonlinear_arith)
    requires
        -1 <= a <= 1,
        -1 <= b <= 1,
    ensures
        a * b == if a == 0 || b == 0 {
            0int
        } else if a == b {
            1int
        } else {
            -1int
        },
{
}

proof fn sound_corners_xmin(n: int, x: int, z: int)
    requires
        2 <= n,
        x == 0,
        z == 0 || z == n - 1,
    ensures
        offsets_sound_at(n, x, z),
{
    let offs = incident_offsets(n, x, z);
    if z == 0 {
        assert(offs.len() == 1);
        lemma_small_mul(offs[0].dz1, offs[0].dx2);
        lemma_small_mul(offs[0].dx1, offs[0].dz2);
        assert(tri_in_grid(n, x, z, offs[0]) && tri_det(offs[0]) == 1 && tri_small(offs[0]));
    } else {
        assert(offs.len() == 2);
        lemma_small_mul(offs[0].dz1, offs[0].dx2);
        lemma_small_mul(offs[0].dx1, offs[0].dz2);
        assert(tri_in_grid(n, x, z, offs[0]) && tri_det(offs[0]) == 1 && tri_small(offs[0]));
        lemma_small_mul(offs[1].dz1, offs[1].dx2);
        lemma_small_mul(offs[1].dx1, offs[1].dz2);
        assert(tri_in_grid(n, x, z, offs[1]) && tri_det(offs[1]) == 1 && tri_small(offs[1]));
    }
}

proof fn sound_corners_xmax(n: int, x: int, z: int)
    requires
        2 <= n,
        x == n - 1,
        z == 0 || z == n - 1,
    ensures
        offsets_sound_at(n, x, z),
{
    let offs = incident_offsets(n, x, z);
    assert(1 <= offs.len() <= 2);
    lemma_small_mul(offs[0].dz1, offs[0].dx2);
        lemma_small_mul(offs[0].dx1, offs[0].dz2);
        assert(tri_in_grid(n, x, z, offs[0]) && tri_det(offs[0]) == 1 && tri_small(offs[0]));
    if offs.len() == 2 {
        lemma_small_mul(offs[1].dz1, offs[1].dx2);
        lemma_small_mul(offs[1].dx1, offs[1].dz2);
        assert(tri_in_grid(n, x, z, offs[1]) && tri_det(offs[1]) == 1 && tri_small(offs[1]));
    }
}

proof fn sound_borders_x(n: int, x: int, z: int)
    requires
        2 <= n,
        x == 0 || x == n - 1,
        0 < z < n - 1,
    ensures
        offsets_sound_at(n, x, z),
{
    let offs = incident_offsets(n, x, z);
    assert(offs.len() == 3);
    lemma_small_mul(offs[0].dz1, offs[0].dx2);
        lemma_small_mul(offs[0].dx1, offs[0].dz2);
        assert(tri_in_grid(n, x, z, offs[0]) && tri_det(offs[0]) == 1 && tri_small(offs[0]));
    lemma_small_mul(offs[1].dz1, offs[1].dx2);
        lemma_small_mul(offs[1].dx1, offs[1].dz2);
        assert(tri_in_grid(n, x, z, offs[1]) && tri_det(offs[1]) == 1 && tri_small(offs[1]));
    lemma_small_mul(offs[2].dz1, offs[2].dx2);
        lemma_small_mul(offs[2].dx1, offs[2].dz2);
        assert(tri_in_grid(n, x, z, offs[2]) && tri_det(offs[2]) == 1 && tri_small(offs[2]));
}

proof fn sound_borders_z(n: int, x: int, z: int)
    requires
        2 <= n,
        0 < x < n - 1,
        z == 0 || z == n - 1,
    ensures
        offsets_sound_at(n, x, z),
{
    let offs = incident_offsets(n, x, z);
    assert(2 <= offs.len() <= 4);
    lemma_small_mul(offs[0].dz1, offs[0].dx2);
        lemma_small_mul(offs[0].dx1, offs[0].dz2);
        assert(tri_in_grid(n, x, z, offs[0]) && tri_det(offs[0]) == 1 && tri_small(offs[0]));
    lemma_small_mul(offs[1].dz1, offs[1].dx2);
        lemma_small_mul(offs[1].dx1, offs[1].dz2);
        assert(tri_in_grid(n, x, z, offs[1]) && tri_det(offs[1]) == 1 && tri_small(offs[1]));
    if offs.len() == 4 {
        lemma_small_mul(offs[2].dz1, offs[2].dx2);
        lemma_small_mul(offs[2].dx1, offs[2].dz2);
        assert(tri_in_grid(n, x, z, offs[2]) && tri_det(offs[2]) == 1 && tri_small(offs[2]));
        lemma_small_mul(offs[3].dz1, offs[3].dx2);
        lemma_small_mul(offs[3].dx1, offs[3].dz2);
        assert(tri_in_grid(n, x, z, offs[3]) && tri_det(offs[3]) == 1 && tri_small(offs[3]));
    }
}

proof fn sound_interior(n: int, x: int, z: int)
    requires
        2 <= n,
        0 < x < n - 1,
        0 < z < n - 1,
    ensures
        offsets_sound_at(n, x, z),
{
    let offs = incident_offsets(n, x, z);
    assert(offs.len() == 6);
    lemma_small_mul(offs[0].dz1, offs[0].dx2);
        lemma_small_mul(offs[0].dx1, offs[0].dz2);
        assert(tri_in_grid(n, x, z, offs[0]) && tri_det(offs[0]) == 1 && tri_small(offs[0]));
    lemma_small_mul(offs[1].dz1, offs[1].dx2);
        lemma_small_mul(offs[1].dx1, offs[1].dz2);
        assert(tri_in_grid(n, x, z, offs[1]) && tri_det(offs[1]) == 1 && tri_small(offs[1]));
    lemma_small_mul(offs[2].dz1, offs[2].dx2);
        lemma_small_mul(offs[2].dx1, offs[2].dz2);
        assert(tri_in_grid(n, x, z, offs[2]) && tri_det(offs[2]) == 1 && tri_small(offs[2]));
    lemma_small_mul(offs[3].dz1, offs[3].dx2);
        lemma_small_mul(offs[3].dx1, offs[3].dz2);
        assert(tri_in_grid(n, x, z, offs[3]) && tri_det(offs[3]) == 1 && tri_small(offs[3]));
    lemma_small_mul(offs[4].dz1, offs[4].dx2);
        lemma_small_mul(offs[4].dx1, offs[4].dz2);
        assert(tri_in_grid(n, x, z, offs[4]) && tri_det(offs[4]) == 1 && tri_small(offs[4]));
    lemma_small_mul(offs[5].dz1, offs[5].dx2);
        lemma_small_mul(offs[5].dx1, offs[5].dz2);
        assert(tri_in_grid(n, x, z, offs[5]) && tri_det(offs[5]) == 1 && tri_small(offs[5]));
}

/// Every class enumerates between one and six triangles, each of which
/// stays inside the grid, winds with determinant `+1`, and reaches only
/// the eight neighbouring cells.
pub proof fn lemma_incident_offsets_sound(n: int, x: int, z: int)
    requires
        2 <= n,
        0 <= x < n,
        0 <= z < n,
    ensures
        1 <= incident_offsets(n, x, z).len() <= 6,
        forall|i: int|
            0 <= i < incident_offsets(n, x, z).len() ==> tri_in_grid(
                n,
                x,
                z,
                #[trigger] incident_offsets(n, x, z)[i],
            ),
        forall|i: int|
            0 <= i < incident_offsets(n, x, z).len() ==> tri_det(
                #[trigger] incident_offsets(n, x, z)[i],
            ) == 1,
        forall|i: int|
            0 <= i < incident_offsets(n, x, z).len() ==> tri_small(
                #[trigger] incident_offsets(n, x, z)[i],
            ),
{
    if x == 0 && (z == 0 || z == n - 1) {
        sound_corners_xmin(n, x, z);
    } else if x == n - 1 && (z == 0 || z == n - 1) {
        sound_corners_xmax(n, x, z);
    } else if x == 0 || x == n - 1 {
        sound_borders_x(n, x, z);
    } else if z == 0 || z == n - 1 {
        sound_borders_z(n, x, z);
    } else {
        sound_interior(n, x, z);
    }
}

/// The point reflection of a tabulated triangle through its center vertex.
pub open spec fn tri_mirror(t: TriOffsets) -> TriOffsets {
    TriOffsets { dx1: -t.dx1, dz1: -t.dz1, dx2: -t.dx2, dz2: -t.dz2 }
}

/// The even-row interior enumeration lists exactly the mirror images of the
/// odd-row enumeration's triangles: both walk the same hexagonal fan, seen
/// from rows of opposite diagonal orientation.
pub proof fn lemma_interior_enumerations_mirror()
    ensures
        interior_offsets_even().len() == interior_offsets_odd().len(),
        forall|i: int|
            0 <= i < interior_offsets_odd().len() ==> exists|j: int|
                0 <= j < interior_offsets_even().len() && interior_offsets_even()[j] == tri_mirror(
                    #[trigger] interior_offsets_odd()[i],
                ),
{
    assert forall|i: int| 0 <= i < interior_offsets_odd().len() implies exists|j: int|
        0 <= j < interior_offsets_even().len() && interior_offsets_even()[j] == tri_mirror(
            #[trigger] interior_offsets_odd()[i],
        ) by {
        if i == 0 {
            assert(interior_offsets_even()[4] == tri_mirror(interior_offsets_odd()[0]));
        } else if i == 1 {
            assert(interior_offsets_even()[5] == tri_mirror(interior_offsets_odd()[1]));
        } else if i == 2 {
            assert(interior_offsets_even()[0] == tri_mirror(interior_offsets_odd()[2]));
        } else if i == 3 {
            assert(interior_offsets_even()[1] == tri_mirror(interior_offsets_odd()[3]));
        } else if i == 4 {
            assert(interior_offsets_even()[2] == tri_mirror(interior_offsets_odd()[4]));
        } else {
            assert(interior_offsets_even()[3] == tri_mirror(interior_offsets_odd()[5]));
        }
    }
}

/// The vertex index of grid cell `(x, z)` in row-major order.
pub open spec fn grid_index(n: int, x: int, z: int) -> int {
    x * n + z
}

/// The three vertex indices of a tabulated triangle at `(x, z)`:
/// the center vertex first, then its two neighbours.
pub open spec fn tri_indices(n: int, x: int, z: int, t: TriOffsets) -> (int, int, int) {
    (grid_index(n, x, z), grid_index(n, x + t.dx1, z + t.dz1), grid_index(n, x + t.dx2, z + t.dz2))
}

/// Every triangle incident to `(x, z)` references only vertex indices
/// inside `[0, n * n)`.
pub proof fn lemma_incident_indices_valid(n: int, x: int, z: int)
    requires
        2 <= n,
        0 <= x < n,
        0 <= z < n,
    ensures
        forall|i: int|
            0 <= i < incident_offsets(n, x, z).len() ==> {
                let t = #[trigger] incident_offsets(n, x, z)[i];
                &&& 0 <= tri_indices(n, x, z, t).0 < n * n
                &&& 0 <= tri_indices(n, x, z, t).1 < n * n
                &&& 0 <= tri_indices(n, x, z, t).2 < n * n
            },
{
    lemma_incident_offsets_sound(n, x, z);
    assert forall|i: int| 0 <= i < incident_offsets(n, x, z).len() implies {
        let t = #[trigger] incident_offsets(n, x, z)[i];
        &&& 0 <= tri_indices(n, x, z, t).0 < n * n
        &&& 0 <= tri_indices(n, x, z, t).1 < n * n
        &&& 0 <= tri_indices(n, x, z, t).2 < n * n
    } by {
        let t = incident_offsets(n, x, z)[i];
        lemma_grid_index_bounds(x, z, n);
        lemma_grid_index_bounds(x + t.dx1, z + t.dz1, n);
        lemma_grid_index_bounds(x + t.dx2, z + t.dz2, n);
    }
}

/// A tabulated triangle with its corner offsets as machine integers.
type TriOffsetsExec = ((i64, i64), (i64, i64));

/// The offsets of one tabulated triangle as unbounded integers.
pub open spec fn tri_view(t: ((i64, i64), (i64, i64))) -> TriOffsets {
    let ((dx1, dz1), (dx2, dz2)) = t;
    TriOffsets { dx1: dx1 as int, dz1: dz1 as int, dx2: dx2 as int, dz2: dz2 as int }
}

/// The tabulated incident-triangle offsets of vertex `(x, z)`.
pub(crate) fn class_offsets(resolution: usize, x: usize, z: usize) -> (r: Vec<TriOffsetsExec>)
    requires
        2 <= resolution,
        x < resolution,
        z < resolution,
    ensures
        r@.len() == incident_offsets(resolution as int, x as int, z as int).len(),
        forall|i: int|
            0 <= i < r@.len() ==> tri_view(#[trigger] r@[i]) == incident_offsets(
                resolution as int,
                x as int,
                z as int,
            )[i],
{
    let class = classify(resolution, x, z);
    let mut r: Vec<TriOffsetsExec> = Vec::new();
    match class {
        TopologyClass::CornerXMinZMin => {
            r.push(((0, 1), (1, 0)));
        },
        TopologyClass::CornerXMaxZMin => {
            if resolution % 2 == 0 {
                r.push(((-1, 0), (-1, 1)));
                r.push(((-1, 1), (0, 1)));
            } else {
                r.push(((-1, 0), (0, 1)));
            }
        },
        TopologyClass::CornerXMaxZMax => {
            if resolution % 2 == 0 {
                r.push(((0, -1), (-1, 0)));
            } else {
                r.push(((0, -1), (-1, -1)));
                r.push(((-1, -1), (-1, 0)));
            }
        },
        TopologyClass::CornerXMinZMax => {
            r.push(((1, 0), (1, -1)));
            r.push(((1, -1), (0, -1)));
        },
        TopologyClass::BorderXMin => {
            r.push(((1, -1), (0, -1)));
            r.push(((1, 0), (1, -1)));
            r.push(((0, 1), (1, 0)));
        },
        TopologyClass::BorderXMax => {
            if resolution % 2 == 0 {
                r.push(((0, -1), (-1, 0)));
                r.push(((-1, 0), (-1, 1)));
                r.push(((-1, 1), (0, 1)));
            } else {
                r.push(((0, -1), (-1, -1)));
                r.push(((-1, -1), (-1, 0)));
                r.push(((-1, 0), (0, 1)));
            }
        },
        TopologyClass::BorderZMin => {
            if x % 2 == 0 {
                r.push(((-1, 0), (0, 1)));
                r.push(((0, 1), (1, 0)));
            } else {
                r.push(((-1, 0), (-1, 1)));
                r.push(((-1, 1), (0, 1)));
                r.push(((1, 1), (1, 0)));
                r.push(((0, 1), (1, 1)));
            }
        },
        TopologyClass::BorderZMax => {
            if x % 2 == 0 {
                r.push(((0, -1), (-1, -1)));
                r.push(((-1, -1), (-1, 0)));
                r.push(((1, 0), (1, -1)));
                r.push(((1, -1), (0, -1)));
            } else {
                r.push(((0, -1), (-1, 0)));
                r.push(((1, 0), (0, -1)));
            }
        },
        TopologyClass::Interior => {
            if x % 2 == 0 {
                r.push(((1, 0), (1, -1)));
                r.push(((1, -1), (0, -1)));
                r.push(((0, -1), (-1, -1)));
                r.push(((-1, -1), (-1, 0)));
                r.push(((-1, 0), (0, 1)));
                r.push(((0, 1), (1, 0)));
            } else {
                r.push(((1, 0), (0, -1)));
                r.push(((0, -1), (-1, 0)));
                r.push(((-1, 0), (-1, 1)));
                r.push(((-1, 1), (0, 1)));
                r.push(((0, 1), (1, 1)));
                r.push(((1, 1), (1, 0)));
            }
        },
    }
    r
}

/// Enumerates the triangles incident to vertex `(x, z)`: each entry lists
/// the vertex's own index first and then the indices of the triangle's two
/// other corners, every index valid for the `n` by `n` grid.
pub fn incident_triangles(resolution: usize, x: usize, z: usize) -> (r: Vec<(u32, u32, u32)>)
    requires
        2 <= resolution <= MAX_RESOLUTION,
        x < resolution,
        z < resolution,
    ensures
        r@.len() == incident_offsets(resolution as int, x as int, z as int).len(),
        forall|i: int|
            0 <= i < r@.len() ==> {
                let t = (#[trigger] r@[i].0 as int, r@[i].1 as int, r@[i].2 as int);
                t == tri_indices(
                    resolution as int,
                    x as int,
                    z as int,
                    incident_offsets(resolution as int, x as int, z as int)[i],
                )
            },
        forall|i: int|
            0 <= i < r@.len() ==> #[trigger] r@[i].0 < resolution * resolution && r@[i].1
                < resolution * resolution && r@[i].2 < resolution * resolution,
{
    let n = resolution;
    proof {
        lemma_square_bounded(n as int);
        lemma_incident_offsets_sound(n as int, x as int, z as int);
        lemma_incident_indices_valid(n as int, x as int, z as int);
        lemma_grid_index_bounds(x as int, z as int, n as int);
    }
    let offs = class_offsets(n, x, z);
    let center = x * n + z;
    let mut r: Vec<(u32, u32, u32)> = Vec::new();
    let mut i: usize = 0;
    while i < offs.len()
        invariant
            2 <= n <= MAX_RESOLUTION,
            x < n,
            z < n,
            center == grid_index(n as int, x as int, z as int),
            center < n * n,
            n * n <= 0x10000000,
            offs@.len() == incident_offsets(n as int, x as int, z as int).len(),
            forall|j: int|
                0 <= j < offs@.len() ==> tri_view(#[trigger] offs@[j]) == incident_offsets(
                    n as int,
                    x as int,
                    z as int,
                )[j],
            forall|j: int|
                0 <= j < incident_offsets(n as int, x as int, z as int).len() ==> tri_in_grid(
                    n as int,
                    x as int,
                    z as int,
                    #[trigger] incident_offsets(n as int, x as int, z as int)[j],
                ),
            i <= offs@.len(),
            r@.len() == i,
            forall|j: int|
                0 <= j < i ==> {
                    let t = (#[trigger] r@[j].0 as int, r@[j].1 as int, r@[j].2 as int);
                    t == tri_indices(
                        n as int,
                        x as int,
                        z as int,
                        incident_offsets(n as int, x as int, z as int)[j],
                    )
                },
            forall|j: int|
                0 <= j < i ==> #[trigger] r@[j].0 < n * n && r@[j].1 < n * n && r@[j].2 < n * n,
        decreases offs@.len() - i,
    {
        let ((dx1, dz1), (dx2, dz2)) = offs[i];
        proof {
            assert(tri_in_grid(
                n as int,
                x as int,
                z as int,
                incident_offsets(n as int, x as int, z as int)[i as int],
            ));
            lemma_grid_index_bounds(x as int + dx1 as int, z as int + dz1 as int, n as int);
            lemma_grid_index_bounds(x as int + dx2 as int, z as int + dz2 as int, n as int);
        }
        let ax = ((x as i64) + dx1) as usize;
        let az = ((z as i64) + dz1) as usize;
        let bx = ((x as i64) + dx2) as usize;
        let bz = ((z as i64) + dz2) as usize;
        let p1 = ax * n + az;
        let p2 = bx * n + bz;
        r.push((center as u32, p1 as u32, p2 as u32));
        i = i + 1;
    }
    r
}

} // verus!

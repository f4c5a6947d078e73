//! The normal estimator: for every grid vertex, sum the face normals of
//! its incident triangles and scale the sum to a fixed-point unit vector.
//!
//! A face normal is the cross product of two triangle edges.  Because every
//! tabulated triangle winds with in-plane determinant `+1`, each cross
//! product contributes exactly `spacing * spacing` to the vertical component
//! of the sum, so the summed vector always points upward and is never zero.
//! Averaging the face normals and normalizing gives the same direction as
//! normalizing the plain sum, so the estimator normalizes the sum directly:
//! the result holds `NORMAL_SCALE` times the unit normal, rounded toward
//! zero, computed with an integer square root refined by `SQRT_SCALE`.

use vstd::prelude::*;

use vstd::arithmetic::div_mod::lemma_div_is_ordered;
use vstd::arithmetic::div_mod::lemma_div_is_ordered_by_denominator;
use vstd::arithmetic::div_mod::lemma_div_multiples_vanish;
use vstd::arithmetic::div_mod::lemma_div_of0;
use vstd::arithmetic::div_mod::lemma_fundamental_div_mod;
use vstd::arithmetic::div_mod::lemma_fundamental_div_mod_converse;
use vstd::arithmetic::div_mod::lemma_mod_bound;
use vstd::arithmetic::div_mod::lemma_div_pos_is_pos;

use crate::geometry::cross_spec;
use crate::geometry::vec3i_view;
use crate::geometry::Vec3i;
use crate::geometry::Vec3Spec;
use crate::heightfield::lemma_elevation_bounds;
use crate::heightfield::lemma_flat_coords;
use crate::heightfield::lemma_grid_index_bounds;
use crate::heightfield::lemma_square_bounded;
use crate::heightfield::HeightField;
use crate::isqrt::isqrt;
use crate::isqrt::is_sqrt_floor;
use crate::isqrt::lemma_sqrt_floor_at_least;
use crate::isqrt::lemma_sqrt_floor_exists;
use crate::isqrt::lemma_sqrt_floor_unique;
use crate::isqrt::sqrt_floor;
use crate::mesh::vertex_at;
use crate::mesh::vertex_lookup;
use crate::mesh::vertices_built;
use crate::mesh::GridVertex;
use crate::topology::class_offsets;
use crate::topology::incident_offsets;
use crate::topology::lemma_incident_offsets_sound;
use crate::topology::tri_det;
use crate::topology::tri_in_grid;
use crate::topology::tri_small;
use crate::topology::tri_view;
use crate::topology::TriOffsets;
use crate::MAX_SPACING;
use crate::NORMAL_SCALE;

verus! {

/// Refinement factor of the integer square root used during normalization:
/// the root of `SQRT_SCALE * SQRT_SCALE` times the squared magnitude is the
/// magnitude in `SQRT_SCALE`-ths, fine enough that rounding it is harmless.
pub const SQRT_SCALE: i64 = 2147483648;

/// The largest magnitude of one cross-product component:
/// two elevation differences times an offset times the spacing.
pub const TRI_CROSS_BOUND: i64 = 536870912;

/// The face normal contributed by the tabulated triangle `t` at `(x, z)`:
/// the cross product of the triangle's two edges out of the vertex.
pub open spec fn tri_cross(hf: HeightField, s: int, x: int, z: int, t: TriOffsets) -> Vec3Spec {
    let e0 = hf.elevation_at(x, z);
    let e1 = hf.elevation_at(x + t.dx1, z + t.dz1);
    let e2 = hf.elevation_at(x + t.dx2, z + t.dz2);
    cross_spec(t.dx1 * s, e1 - e0, t.dz1 * s, t.dx2 * s, e2 - e0, t.dz2 * s)
}

/// The sum of the face normals of the first `k` triangles incident to
/// `(x, z)`.
pub open spec fn cross_sum_prefix(hf: HeightField, s: int, x: int, z: int, k: int) -> Vec3Spec
    decreases k,
{
    if k <= 0 {
        Vec3Spec { x: 0, y: 0, z: 0 }
    } else {
        let prev = cross_sum_prefix(hf, s, x, z, k - 1);
        let c = tri_cross(hf, s, x, z, incident_offsets(hf.resolution_spec(), x, z)[k - 1]);
        Vec3Spec { x: prev.x + c.x, y: prev.y + c.y, z: prev.z + c.z }
    }
}

/// The summed face normal of all triangles incident to `(x, z)`.
pub open spec fn cross_sum(hf: HeightField, s: int, x: int, z: int) -> Vec3Spec {
    cross_sum_prefix(
        hf,
        s,
        x,
        z,
        incident_offsets(hf.resolution_spec(), x, z).len() as int,
    )
}

/// One incident triangle's face normal has bounded in-plane components and
/// contributes exactly `s * s` to the vertical component.
proof fn lemma_tri_cross_bounds(hf: HeightField, s: int, x: int, z: int, t: TriOffsets)
    requires
        hf.wf(),
        1 <= s <= MAX_SPACING as int,
        0 <= x < hf.resolution_spec(),
        0 <= z < hf.resolution_spec(),
        tri_in_grid(hf.resolution_spec(), x, z, t),
        tri_small(t),
        tri_det(t) == 1,
    ensures
        -TRI_CROSS_BOUND <= tri_cross(hf, s, x, z, t).x <= TRI_CROSS_BOUND,
        tri_cross(hf, s, x, z, t).y == s * s,
        -TRI_CROSS_BOUND <= tri_cross(hf, s, x, z, t).z <= TRI_CROSS_BOUND,
{
    let n = hf.resolution_spec();
    lemma_grid_index_bounds(x, z, n);
    lemma_grid_index_bounds(x + t.dx1, z + t.dz1, n);
    lemma_grid_index_bounds(x + t.dx2, z + t.dz2, n);
    let e0 = hf.elevation_at(x, z);
    let e1 = hf.elevation_at(x + t.dx1, z + t.dz1);
    let e2 = hf.elevation_at(x + t.dx2, z + t.dz2);
    assert(-131072 <= e0 <= 131072);
    assert(-131072 <= e1 <= 131072);
    assert(-131072 <= e2 <= 131072);
    assert((t.dz1 * s) * (t.dx2 * s) - (t.dx1 * s) * (t.dz2 * s) == s * s) by (nonlinear_arith)
        requires
            t.dz1 * t.dx2 - t.dx1 * t.dz2 == 1,
    ;
    assert(-262144 * 1024 <= (e1 - e0) * (t.dz2 * s) <= 262144 * 1024) by (nonlinear_arith)
        requires
            -262144 <= e1 - e0 <= 262144,
            -1 <= t.dz2 <= 1,
            1 <= s <= 1024,
    ;
    assert(-262144 * 1024 <= (t.dz1 * s) * (e2 - e0) <= 262144 * 1024) by (nonlinear_arith)
        requires
            -262144 <= e2 - e0 <= 262144,
            -1 <= t.dz1 <= 1,
            1 <= s <= 1024,
    ;
    assert(-262144 * 1024 <= (t.dx1 * s) * (e2 - e0) <= 262144 * 1024) by (nonlinear_arith)
        requires
            -262144 <= e2 - e0 <= 262144,
            -1 <= t.dx1 <= 1,
            1 <= s <= 1024,
    ;
    assert(-262144 * 1024 <= (e1 - e0) * (t.dx2 * s) <= 262144 * 1024) by (nonlinear_arith)
        requires
            -262144 <= e1 - e0 <= 262144,
            -1 <= t.dx2 <= 1,
            1 <= s <= 1024,
    ;
}

/// The prefix sums of the incident face normals stay bounded, and their
/// vertical component counts the triangles times `s * s`.
proof fn lemma_cross_sum_prefix_bounds(hf: HeightField, s: int, x: int, z: int, k: int)
    requires
        hf.wf(),
        1 <= s <= MAX_SPACING as int,
        0 <= x < hf.resolution_spec(),
        0 <= z < hf.resolution_spec(),
        0 <= k <= incident_offsets(hf.resolution_spec(), x, z).len(),
    ensures
        -k * TRI_CROSS_BOUND <= cross_sum_prefix(hf, s, x, z, k).x <= k * TRI_CROSS_BOUND,
        cross_sum_prefix(hf, s, x, z, k).y == k * (s * s),
        -k * TRI_CROSS_BOUND <= cross_sum_prefix(hf, s, x, z, k).z <= k * TRI_CROSS_BOUND,
    decreases k,
{
    let n = hf.resolution_spec();
    if k > 0 {
        lemma_cross_sum_prefix_bounds(hf, s, x, z, k - 1);
        lemma_incident_offsets_sound(n, x, z);
        let t = incident_offsets(n, x, z)[k - 1];
        lemma_tri_cross_bounds(hf, s, x, z, t);
        assert((k - 1) * (s * s) + s * s == k * (s * s)) by (nonlinear_arith);
        assert((k - 1) * TRI_CROSS_BOUND + TRI_CROSS_BOUND == k * TRI_CROSS_BOUND)
            by (nonlinear_arith);
    }
}

/// The summed face normal of a vertex: in-plane components no larger than
/// six triangles' worth, and a vertical component of exactly the number of
/// incident triangles times `s * s` — always positive, so the sum is never
/// the zero vector and normalizing it is always sound.
pub proof fn lemma_cross_sum_bounds(hf: HeightField, s: int, x: int, z: int)
    requires
        hf.wf(),
        1 <= s <= MAX_SPACING as int,
        0 <= x < hf.resolution_spec(),
        0 <= z < hf.resolution_spec(),
    ensures
        -6 * TRI_CROSS_BOUND <= cross_sum(hf, s, x, z).x <= 6 * TRI_CROSS_BOUND,
        cross_sum(hf, s, x, z).y == incident_offsets(hf.resolution_spec(), x, z).len() * (s * s),
        1 <= cross_sum(hf, s, x, z).y <= 6 * 1048576,
        -6 * TRI_CROSS_BOUND <= cross_sum(hf, s, x, z).z <= 6 * TRI_CROSS_BOUND,
{
    let n = hf.resolution_spec();
    lemma_incident_offsets_sound(n, x, z);
    let len = incident_offsets(n, x, z).len() as int;
    lemma_cross_sum_prefix_bounds(hf, s, x, z, len);
    assert(len * (s * s) >= 1 && len * (s * s) <= 6 * 1048576) by (nonlinear_arith)
        requires
            1 <= len <= 6,
            1 <= s <= 1024,
    ;
    assert(len * TRI_CROSS_BOUND <= 6 * TRI_CROSS_BOUND) by (nonlinear_arith)
        requires
            1 <= len <= 6,
    ;
}

/// `(c * SQRT_SCALE * NORMAL_SCALE) / m`, rounded toward zero for
/// negative `c`.
pub open spec fn scaled_toward_zero(c: int, m: int) -> int {
    if c >= 0 {
        (c * (SQRT_SCALE as int) * (NORMAL_SCALE as int)) / m
    } else {
        -((-c * (SQRT_SCALE as int) * (NORMAL_SCALE as int)) / m)
    }
}

/// The fixed-point unit vector in the direction of `c`: each component is
/// scaled by `NORMAL_SCALE` over the magnitude of `c` and rounded toward
/// zero.  The zero vector falls back to the upward unit vector.
pub open spec fn normal_fixed(c: Vec3Spec) -> Vec3Spec {
    let v = c.x * c.x + c.y * c.y + c.z * c.z;
    if v == 0 {
        Vec3Spec { x: 0, y: NORMAL_SCALE as int, z: 0 }
    } else {
        let m = sqrt_floor(v * (SQRT_SCALE as int) * (SQRT_SCALE as int));
        Vec3Spec {
            x: scaled_toward_zero(c.x, m),
            y: scaled_toward_zero(c.y, m),
            z: scaled_toward_zero(c.z, m),
        }
    }
}

/// One scaled component of the normalization: `(a * SQRT_SCALE *
/// NORMAL_SCALE) / m` for a nonnegative magnitude `a`.
fn scaled_part(a: u64, m: u64) -> (q: u64)
    requires
        a <= 4294967296,
        m >= 2147483648,
    ensures
        q as int == ((a as int) * (SQRT_SCALE as int) * (NORMAL_SCALE as int)) / (m as int),
        q <= 0x100000000000000,
{
    proof {
        assert((a as int) * 2147483648 * 16777216 <= 0x8000000000000000000000) by (nonlinear_arith)
            requires
                0 <= a <= 4294967296,
        ;
        assert((a as int) * (SQRT_SCALE as int) * (NORMAL_SCALE as int) == (a as int) * 2147483648
            * 16777216);
    }
    let prod = (a as u128) * (SQRT_SCALE as u128) * (NORMAL_SCALE as u128);
    let q = prod / (m as u128);
    proof {
        lemma_div_is_ordered_by_denominator(prod as int, SQRT_SCALE as int, m as int);
        lemma_div_is_ordered(
            prod as int,
            4294967296int * (SQRT_SCALE as int) * (NORMAL_SCALE as int),
            SQRT_SCALE as int,
        );
    }
    q as u64
}

/// Scales the vector `(sx, sy, sz)` to a fixed-point unit vector: each
/// component becomes `NORMAL_SCALE` times the component over the vector's
/// magnitude, rounded toward zero; the zero vector becomes the upward unit
/// vector.
pub fn normalize_scaled(sx: i64, sy: i64, sz: i64) -> (r: Vec3i)
    requires
        -4294967296 <= sx <= 4294967296,
        -4294967296 <= sy <= 4294967296,
        -4294967296 <= sz <= 4294967296,
    ensures
        vec3i_view(r) == normal_fixed(Vec3Spec { x: sx as int, y: sy as int, z: sz as int }),
{
    let ax: u64 = if sx < 0 {
        (-sx) as u64
    } else {
        sx as u64
    };
    let ay: u64 = if sy < 0 {
        (-sy) as u64
    } else {
        sy as u64
    };
    let az: u64 = if sz < 0 {
        (-sz) as u64
    } else {
        sz as u64
    };
    proof {
        assert((ax as int) * (ax as int) == (sx as int) * (sx as int) && (ax as int) * (ax as int)
            <= 0x10000000000000000) by (nonlinear_arith)
            requires
                ax as int == sx as int || ax as int == -(sx as int),
                ax <= 4294967296,
        ;
        assert((ay as int) * (ay as int) == (sy as int) * (sy as int) && (ay as int) * (ay as int)
            <= 0x10000000000000000) by (nonlinear_arith)
            requires
                ay as int == sy as int || ay as int == -(sy as int),
                ay <= 4294967296,
        ;
        assert((az as int) * (az as int) == (sz as int) * (sz as int) && (az as int) * (az as int)
            <= 0x10000000000000000) by (nonlinear_arith)
            requires
                az as int == sz as int || az as int == -(sz as int),
                az <= 4294967296,
        ;
    }
    let v: u128 = (ax as u128) * (ax as u128) + (ay as u128) * (ay as u128) + (az as u128) * (
    az as u128);
    if v == 0 {
        return Vec3i { x: 0, y: NORMAL_SCALE, z: 0 };
    }
    proof {
        assert((v as int) * (SQRT_SCALE as int) * (SQRT_SCALE as int)
            <= 0xc0000000000000000000000000000000) by (nonlinear_arith)
            requires
                0 <= v <= 0x30000000000000000,
                SQRT_SCALE == 2147483648i64,
        ;
    }
    let scaled_v: u128 = v * (SQRT_SCALE as u128) * (SQRT_SCALE as u128);
    let m = isqrt(scaled_v);
    proof {
        lemma_sqrt_floor_at_least(scaled_v as int, SQRT_SCALE as int);
    }
    let qx = scaled_part(ax, m);
    let qy = scaled_part(ay, m);
    let qz = scaled_part(az, m);
    let rx: i64 = if sx < 0 {
        -(qx as i64)
    } else {
        qx as i64
    };
    let ry: i64 = if sy < 0 {
        -(qy as i64)
    } else {
        qy as i64
    };
    let rz: i64 = if sz < 0 {
        -(qz as i64)
    } else {
        qz as i64
    };
    Vec3i { x: rx, y: ry, z: rz }
}

/// The summed face normal of vertex `(x, z)`, computed by walking the
/// vertex's incident-triangle table and accumulating cross products.
fn cross_sum_exec(hf: &HeightField, spacing: i64, x: usize, z: usize) -> (r: (i64, i64, i64))
    requires
        hf.wf(),
        1 <= spacing <= MAX_SPACING,
        x < hf.resolution_spec(),
        z < hf.resolution_spec(),
    ensures
        r.0 as int == cross_sum(*hf, spacing as int, x as int, z as int).x,
        r.1 as int == cross_sum(*hf, spacing as int, x as int, z as int).y,
        r.2 as int == cross_sum(*hf, spacing as int, x as int, z as int).z,
        -4294967296 <= r.0 <= 4294967296,
        -4294967296 <= r.1 <= 4294967296,
        -4294967296 <= r.2 <= 4294967296,
{
    let n = hf.resolution();
    proof {
        lemma_incident_offsets_sound(n as int, x as int, z as int);
    }
    let offs = class_offsets(n, x, z);
    let e0 = hf.elevation(x, z);
    proof {
        lemma_elevation_bounds(*hf, x as int, z as int);
    }
    let mut sx: i64 = 0;
    let mut sy: i64 = 0;
    let mut sz: i64 = 0;
    let mut i: usize = 0;
    while i < offs.len()
        invariant
            hf.wf(),
            1 <= spacing <= MAX_SPACING,
            n == hf.resolution_spec(),
            x < n,
            z < n,
            e0 == hf.elevation_at(x as int, z as int),
            -131072 <= e0 <= 131072,
            offs@.len() == incident_offsets(n as int, x as int, z as int).len(),
            offs@.len() <= 6,
            forall|j: int|
                0 <= j < offs@.len() ==> tri_view(#[trigger] offs@[j]) == incident_offsets(
                    n as int,
                    x as int,
                    z as int,
                )[j],
            forall|j: int|
                0 <= j < incident_offsets(n as int, x as int, z as int).len() ==> {
                    let t = #[trigger] incident_offsets(n as int, x as int, z as int)[j];
                    tri_in_grid(n as int, x as int, z as int, t) && tri_small(t) && tri_det(t)
                        == 1
                },
            i <= offs@.len(),
            sx as int == cross_sum_prefix(*hf, spacing as int, x as int, z as int, i as int).x,
            sy as int == cross_sum_prefix(*hf, spacing as int, x as int, z as int, i as int).y,
            sz as int == cross_sum_prefix(*hf, spacing as int, x as int, z as int, i as int).z,
        decreases offs@.len() - i,
    {
        let ((dx1, dz1), (dx2, dz2)) = offs[i];
        proof {
            lemma_cross_sum_prefix_bounds(*hf, spacing as int, x as int, z as int, i as int);
            assert(tri_view(offs@[i as int]) == incident_offsets(
                n as int,
                x as int,
                z as int,
            )[i as int]);
            let t = incident_offsets(n as int, x as int, z as int)[i as int];
            lemma_tri_cross_bounds(*hf, spacing as int, x as int, z as int, t);
            lemma_elevation_bounds(*hf, x as int + dx1 as int, z as int + dz1 as int);
            lemma_elevation_bounds(*hf, x as int + dx2 as int, z as int + dz2 as int);
        }
        let x1 = ((x as i64) + dx1) as usize;
        let z1 = ((z as i64) + dz1) as usize;
        let x2 = ((x as i64) + dx2) as usize;
        let z2 = ((z as i64) + dz2) as usize;
        let e1 = hf.elevation(x1, z1);
        let e2 = hf.elevation(x2, z2);
        let h1 = e1 - e0;
        let h2 = e2 - e0;
        proof {
            assert(-1024 <= (dx1 as int) * (spacing as int) <= 1024 && -1024 <= (dz1 as int) * (
            spacing as int) <= 1024 && -1024 <= (dx2 as int) * (spacing as int) <= 1024 && -1024
                <= (dz2 as int) * (spacing as int) <= 1024) by (nonlinear_arith)
                requires
                    -1 <= dx1 <= 1,
                    -1 <= dz1 <= 1,
                    -1 <= dx2 <= 1,
                    -1 <= dz2 <= 1,
                    1 <= spacing <= 1024,
            ;
        }
        let u1 = dx1 * spacing;
        let w1 = dz1 * spacing;
        let u2 = dx2 * spacing;
        let w2 = dz2 * spacing;
        proof {
            assert(-268435456 <= (h1 as int) * (w2 as int) <= 268435456 && -268435456 <= (
            w1 as int) * (h2 as int) <= 268435456 && -268435456 <= (u1 as int) * (h2 as int)
                <= 268435456 && -268435456 <= (h1 as int) * (u2 as int) <= 268435456 && -1048576
                <= (w1 as int) * (u2 as int) <= 1048576 && -1048576 <= (u1 as int) * (w2 as int)
                <= 1048576) by (nonlinear_arith)
                requires
                    -262144 <= h1 <= 262144,
                    -262144 <= h2 <= 262144,
                    -1024 <= u1 <= 1024,
                    -1024 <= w1 <= 1024,
                    -1024 <= u2 <= 1024,
                    -1024 <= w2 <= 1024,
            ;
        }
        let cx = h1 * w2 - w1 * h2;
        let cy = w1 * u2 - u1 * w2;
        let cz = u1 * h2 - h1 * u2;
        proof {
            let t = incident_offsets(n as int, x as int, z as int)[i as int];
            let c = tri_cross(*hf, spacing as int, x as int, z as int, t);
            assert(cx as int == c.x && cy as int == c.y && cz as int == c.z);
            assert(0 <= (i as int) * (TRI_CROSS_BOUND as int) <= 3221225472) by (nonlinear_arith)
                requires
                    0 <= i <= 6,
                    TRI_CROSS_BOUND == 536870912i64,
            ;
            assert(0 <= (i as int) * ((spacing as int) * (spacing as int)) <= 6291456 && 1 <= (
            spacing as int) * (spacing as int) <= 1048576) by (nonlinear_arith)
                requires
                    0 <= i <= 6,
                    1 <= spacing <= 1024,
            ;
        }
        sx = sx + cx;
        sy = sy + cy;
        sz = sz + cz;
        i = i + 1;
    }
    proof {
        lemma_cross_sum_prefix_bounds(
            *hf,
            spacing as int,
            x as int,
            z as int,
            offs@.len() as int,
        );
        let k = offs@.len() as int;
        assert(0 <= k * (TRI_CROSS_BOUND as int) <= 3221225472) by (nonlinear_arith)
            requires
                0 <= k <= 6,
                TRI_CROSS_BOUND == 536870912i64,
        ;
        assert(0 <= k * ((spacing as int) * (spacing as int)) <= 6291456) by (nonlinear_arith)
            requires
                0 <= k <= 6,
                1 <= spacing <= 1024,
        ;
    }
    (sx, sy, sz)
}

/// The fixed-point normal of vertex `(x, z)`: the normalized summed face
/// normal of its incident triangles.
pub open spec fn normal_at(hf: HeightField, s: int, x: int, z: int) -> Vec3Spec {
    normal_fixed(cross_sum(hf, s, x, z))
}

/// Computes the fixed-point normal of vertex `(x, z)`.
pub fn vertex_normal(hf: &HeightField, spacing: i64, x: usize, z: usize) -> (r: Vec3i)
    requires
        hf.wf(),
        1 <= spacing <= MAX_SPACING,
        x < hf.resolution_spec(),
        z < hf.resolution_spec(),
    ensures
        vec3i_view(r) == normal_at(*hf, spacing as int, x as int, z as int),
{
    let (sx, sy, sz) = cross_sum_exec(hf, spacing, x, z);
    let r = normalize_scaled(sx, sy, sz);
    proof {
        assert(Vec3Spec { x: sx as int, y: sy as int, z: sz as int } == cross_sum(
            *hf,
            spacing as int,
            x as int,
            z as int,
        ));
    }
    r
}

/// The finished vertex of grid cell `(x, z)`: the emitted vertex with its
/// placeholder normal replaced by the estimated fixed-point normal.
pub open spec fn estimated_vertex(hf: HeightField, s: int, x: int, z: int) -> GridVertex {
    GridVertex {
        position: vertex_at(hf, s, x, z).position,
        normal: Vec3i {
            x: normal_at(hf, s, x, z).x as i64,
            y: normal_at(hf, s, x, z).y as i64,
            z: normal_at(hf, s, x, z).z as i64,
        },
        uv: vertex_at(hf, s, x, z).uv,
    }
}

/// Whether `va` holds the finished mesh vertices: the emitted positions and
/// texture coordinates, with every normal estimated.
pub open spec fn normals_assigned(va: Seq<GridVertex>, hf: HeightField, s: int) -> bool {
    let n = hf.resolution_spec();
    &&& va.len() == n * n
    &&& forall|x: int, z: int|
        0 <= x < n && 0 <= z < n ==> #[trigger] vertex_lookup(va, n, x, z) == estimated_vertex(
            hf,
            s,
            x,
            z,
        )
}

/// Overwrites every vertex's placeholder normal with the estimated
/// fixed-point normal of its incident triangles.
pub fn compute_normals(va: &mut Vec<GridVertex>, hf: &HeightField, spacing: i64)
    requires
        hf.wf(),
        1 <= spacing <= MAX_SPACING,
        vertices_built(old(va)@, *hf, spacing as int),
    ensures
        normals_assigned(final(va)@, *hf, spacing as int),
{
    let n = hf.resolution();
    proof {
        lemma_square_bounded(n as int);
        assert forall|i: int| 0 <= i < va@.len() implies #[trigger] va@[i] == vertex_at(
            *hf,
            spacing as int,
            i / (n as int),
            i % (n as int),
        ) by {
            lemma_flat_coords(n as int, i);
            assert(vertex_lookup(va@, n as int, i / (n as int), i % (n as int)) == va@[i]);
        }
    }
    let total = n * n;
    let mut idx: usize = 0;
    while idx < total
        invariant
            hf.wf(),
            1 <= spacing <= MAX_SPACING,
            n == hf.resolution_spec(),
            total == n * n,
            n * n <= 0x10000000,
            va@.len() == n * n,
            idx <= total,
            forall|i: int|
                0 <= i < idx ==> #[trigger] va@[i] == estimated_vertex(
                    *hf,
                    spacing as int,
                    i / (n as int),
                    i % (n as int),
                ),
            forall|i: int|
                idx <= i < va@.len() ==> #[trigger] va@[i] == vertex_at(
                    *hf,
                    spacing as int,
                    i / (n as int),
                    i % (n as int),
                ),
        decreases total - idx,
    {
        let x = idx / n;
        let z = idx % n;
        proof {
            lemma_flat_coords(n as int, idx as int);
        }
        let nor = vertex_normal(hf, spacing, x, z);
        let mut vtx = va[idx];
        vtx.normal = nor;
        va[idx] = vtx;
        proof {
            assert(va@[idx as int] == estimated_vertex(
                *hf,
                spacing as int,
                idx as int / (n as int),
                idx as int % (n as int),
            ));
        }
        idx = idx + 1;
    }
    proof {
        assert forall|x: int, z: int|
            0 <= x < hf.resolution_spec() && 0 <= z
                < hf.resolution_spec() implies #[trigger] vertex_lookup(
            va@,
            hf.resolution_spec(),
            x,
            z,
        ) == estimated_vertex(*hf, spacing as int, x, z) by {
            lemma_grid_index_bounds(x, z, n as int);
            lemma_fundamental_div_mod_converse(x * (n as int) + z, n as int, x, z);
        }
    }
}

/// Whether every elevation of the heightfield equals every other.
pub open spec fn flat_field(hf: HeightField) -> bool {
    forall|i: int|
        0 <= i < hf.elevations_spec().len() ==> #[trigger] hf.elevations_spec()[i]
            == hf.elevations_spec()[0]
}

/// Over a flat heightfield, every incident triangle's face normal is
/// exactly `(0, s * s, 0)`.
proof fn lemma_flat_tri_cross(hf: HeightField, s: int, x: int, z: int, t: TriOffsets)
    requires
        hf.wf(),
        flat_field(hf),
        1 <= s <= MAX_SPACING as int,
        0 <= x < hf.resolution_spec(),
        0 <= z < hf.resolution_spec(),
        tri_in_grid(hf.resolution_spec(), x, z, t),
        tri_small(t),
        tri_det(t) == 1,
    ensures
        tri_cross(hf, s, x, z, t) == (Vec3Spec { x: 0, y: s * s, z: 0 }),
{
    let n = hf.resolution_spec();
    lemma_tri_cross_bounds(hf, s, x, z, t);
    lemma_grid_index_bounds(x, z, n);
    lemma_grid_index_bounds(x + t.dx1, z + t.dz1, n);
    lemma_grid_index_bounds(x + t.dx2, z + t.dz2, n);
    assert(hf.elevations_spec()[x * n + z] == hf.elevations_spec()[0]);
    assert(hf.elevations_spec()[(x + t.dx1) * n + (z + t.dz1)] == hf.elevations_spec()[0]);
    assert(hf.elevations_spec()[(x + t.dx2) * n + (z + t.dz2)] == hf.elevations_spec()[0]);
    let e0 = hf.elevation_at(x, z);
    let e1 = hf.elevation_at(x + t.dx1, z + t.dz1);
    let e2 = hf.elevation_at(x + t.dx2, z + t.dz2);
    assert((e1 - e0) * (t.dz2 * s) - (t.dz1 * s) * (e2 - e0) == 0 && (t.dx1 * s) * (e2 - e0) - (e1
        - e0) * (t.dx2 * s) == 0) by (nonlinear_arith)
        requires
            e1 == e0,
            e2 == e0,
    ;
}

/// Over a flat heightfield, the prefix sums of the face normals are
/// exactly `(0, k * s * s, 0)`.
proof fn lemma_flat_prefix(hf: HeightField, s: int, x: int, z: int, k: int)
    requires
        hf.wf(),
        flat_field(hf),
        1 <= s <= MAX_SPACING as int,
        0 <= x < hf.resolution_spec(),
        0 <= z < hf.resolution_spec(),
        0 <= k <= incident_offsets(hf.resolution_spec(), x, z).len(),
    ensures
        cross_sum_prefix(hf, s, x, z, k) == (Vec3Spec { x: 0, y: k * (s * s), z: 0 }),
    decreases k,
{
    let n = hf.resolution_spec();
    if k > 0 {
        lemma_flat_prefix(hf, s, x, z, k - 1);
        lemma_incident_offsets_sound(n, x, z);
        lemma_flat_tri_cross(hf, s, x, z, incident_offsets(n, x, z)[k - 1]);
        assert((k - 1) * (s * s) + s * s == k * (s * s)) by (nonlinear_arith);
    } else {
        assert(k * (s * s) == 0) by (nonlinear_arith)
            requires
                k == 0,
        ;
    }
}

/// Over a flat heightfield, every estimated normal is exactly the upward
/// unit vector in fixed point: `(0, NORMAL_SCALE, 0)`.
pub proof fn lemma_flat_normal(hf: HeightField, s: int, x: int, z: int)
    requires
        hf.wf(),
        flat_field(hf),
        1 <= s <= MAX_SPACING as int,
        0 <= x < hf.resolution_spec(),
        0 <= z < hf.resolution_spec(),
    ensures
        normal_at(hf, s, x, z) == (Vec3Spec { x: 0, y: NORMAL_SCALE as int, z: 0 }),
{
    let n = hf.resolution_spec();
    lemma_incident_offsets_sound(n, x, z);
    let len = incident_offsets(n, x, z).len() as int;
    lemma_flat_prefix(hf, s, x, z, len);
    let c = cross_sum(hf, s, x, z);
    let a = len * (s * s);
    assert(1 <= a <= 6291456) by (nonlinear_arith)
        requires
            1 <= len <= 6,
            1 <= s <= 1024,
            a == len * (s * s),
    ;
    let v = c.x * c.x + c.y * c.y + c.z * c.z;
    assert(v == a * a && v >= 1) by (nonlinear_arith)
        requires
            c.x == 0,
            c.z == 0,
            c.y == a,
            a >= 1,
            v == c.x * c.x + c.y * c.y + c.z * c.z,
    ;
    let sf = SQRT_SCALE as int;
    let m = a * sf;
    assert(0 <= m && m * m <= v * sf * sf && v * sf * sf < (m + 1) * (m + 1) && m >= sf)
        by (nonlinear_arith)
        requires
            v == a * a,
            a >= 1,
            sf >= 1,
            m == a * sf,
    ;
    assert(is_sqrt_floor(v * sf * sf, m));
    lemma_sqrt_floor_unique(v * sf * sf, m);
    lemma_div_of0(m);
    assert(a * sf * (NORMAL_SCALE as int) == m * (NORMAL_SCALE as int));
    lemma_div_multiples_vanish(NORMAL_SCALE as int, m);
    assert(scaled_toward_zero(c.y, m) == NORMAL_SCALE as int);
    assert(scaled_toward_zero(0, m) == 0);
}

/// Flat-heightfield idempotence: once the estimator has run over a mesh
/// whose elevations are all equal, every vertex normal equals the upward
/// unit vector `(0, NORMAL_SCALE, 0)` exactly.
pub proof fn lemma_flat_field_normals_up(va: Seq<GridVertex>, hf: HeightField, s: int)
    requires
        hf.wf(),
        flat_field(hf),
        1 <= s <= MAX_SPACING as int,
        normals_assigned(va, hf, s),
    ensures
        forall|x: int, z: int|
            0 <= x < hf.resolution_spec() && 0 <= z < hf.resolution_spec()
                ==> #[trigger] vertex_lookup(va, hf.resolution_spec(), x, z).normal == (Vec3i {
                x: 0,
                y: NORMAL_SCALE,
                z: 0,
            }),
{
    assert forall|x: int, z: int|
        0 <= x < hf.resolution_spec() && 0 <= z
            < hf.resolution_spec() implies #[trigger] vertex_lookup(
        va,
        hf.resolution_spec(),
        x,
        z,
    ).normal == (Vec3i { x: 0, y: NORMAL_SCALE, z: 0 }) by {
        lemma_flat_normal(hf, s, x, z);
    }
}

/// Division facts for one scaled component: `q = b / m` brackets `b`.
proof fn lemma_component_div(b: int, m: int)
    requires
        0 <= b,
        1 <= m,
    ensures
        0 <= b / m,
        (b / m) * m <= b,
        b <= (b / m) * m + (m - 1),
{
    lemma_fundamental_div_mod(b, m);
    lemma_mod_bound(b, m);
    lemma_div_pos_is_pos(b, m);
    assert((b / m) * m == m * (b / m)) by (nonlinear_arith);
}

/// The normalized vector of any representable nonzero input has squared
/// magnitude within `7 * NORMAL_SCALE` of `NORMAL_SCALE * NORMAL_SCALE`:
/// the fixed-point normals are unit vectors up to a relative error of a
/// few parts in ten million.
pub proof fn lemma_normal_magnitude(c: Vec3Spec)
    requires
        -4294967296 <= c.x <= 4294967296,
        -4294967296 <= c.y <= 4294967296,
        -4294967296 <= c.z <= 4294967296,
        !(c.x == 0 && c.y == 0 && c.z == 0),
    ensures
        ({
            let r = normal_fixed(c);
            let q2 = (NORMAL_SCALE as int) * (NORMAL_SCALE as int);
            q2 - 7 * (NORMAL_SCALE as int) <= r.x * r.x + r.y * r.y + r.z * r.z <= q2 + 7 * (
            NORMAL_SCALE as int)
        }),
{
    let s = SQRT_SCALE as int;
    let q = NORMAL_SCALE as int;
    let v = c.x * c.x + c.y * c.y + c.z * c.z;
    let a1 = if c.x >= 0 { c.x } else { -c.x };
    let a2 = if c.y >= 0 { c.y } else { -c.y };
    let a3 = if c.z >= 0 { c.z } else { -c.z };
    assert(v >= 1 && a1 * a1 == c.x * c.x && a2 * a2 == c.y * c.y && a3 * a3 == c.z * c.z && 0
        <= a1 && 0 <= a2 && 0 <= a3) by (nonlinear_arith)
        requires
            !(c.x == 0 && c.y == 0 && c.z == 0),
            a1 == if c.x >= 0 { c.x } else { -c.x },
            a2 == if c.y >= 0 { c.y } else { -c.y },
            a3 == if c.z >= 0 { c.z } else { -c.z },
            v == c.x * c.x + c.y * c.y + c.z * c.z,
    ;
    lemma_sqrt_floor_exists(v * s * s);
    let m = sqrt_floor(v * s * s);
    assert(s * s <= v * s * s) by (nonlinear_arith)
        requires
            v >= 1,
            s >= 1,
    ;
    lemma_sqrt_floor_at_least(v * s * s, s);
    // each scaled magnitude a_i * s stays at or below the root m
    assert(a1 * s <= m) by (nonlinear_arith)
        requires
            0 <= a1,
            a1 * a1 <= v,
            v * s * s < (m + 1) * (m + 1),
            s >= 1,
            m >= 0,
    ;
    assert(a2 * s <= m) by (nonlinear_arith)
        requires
            0 <= a2,
            a2 * a2 <= v,
            v * s * s < (m + 1) * (m + 1),
            s >= 1,
            m >= 0,
    ;
    assert(a3 * s <= m) by (nonlinear_arith)
        requires
            0 <= a3,
            a3 * a3 <= v,
            v * s * s < (m + 1) * (m + 1),
            s >= 1,
            m >= 0,
    ;
    assert(a1 * a1 <= v && a2 * a2 <= v && a3 * a3 <= v) by (nonlinear_arith)
        requires
            v == c.x * c.x + c.y * c.y + c.z * c.z,
            a1 * a1 == c.x * c.x,
            a2 * a2 == c.y * c.y,
            a3 * a3 == c.z * c.z,
    ;
    let w = (s * s) * (q * q);
    let b1 = a1 * s * q;
    let b2 = a2 * s * q;
    let b3 = a3 * s * q;
    assert(0 <= b1 && b1 <= m * q) by (nonlinear_arith)
        requires
            0 <= a1,
            s >= 1,
            a1 * s <= m,
            q >= 1,
            b1 == a1 * s * q,
    ;
    assert(0 <= b2 && b2 <= m * q) by (nonlinear_arith)
        requires
            0 <= a2,
            s >= 1,
            a2 * s <= m,
            q >= 1,
            b2 == a2 * s * q,
    ;
    assert(0 <= b3 && b3 <= m * q) by (nonlinear_arith)
        requires
            0 <= a3,
            s >= 1,
            a3 * s <= m,
            q >= 1,
            b3 == a3 * s * q,
    ;
    assert(b1 * b1 == (a1 * a1) * w) by (nonlinear_arith)
        requires
            b1 == a1 * s * q,
            w == (s * s) * (q * q),
    ;
    assert(b2 * b2 == (a2 * a2) * w) by (nonlinear_arith)
        requires
            b2 == a2 * s * q,
            w == (s * s) * (q * q),
    ;
    assert(b3 * b3 == (a3 * a3) * w) by (nonlinear_arith)
        requires
            b3 == a3 * s * q,
            w == (s * s) * (q * q),
    ;
    assert(b1 * b1 + b2 * b2 + b3 * b3 == v * w) by (nonlinear_arith)
        requires
            b1 * b1 == (a1 * a1) * w,
            b2 * b2 == (a2 * a2) * w,
            b3 * b3 == (a3 * a3) * w,
            v == c.x * c.x + c.y * c.y + c.z * c.z,
            a1 * a1 == c.x * c.x,
            a2 * a2 == c.y * c.y,
            a3 * a3 == c.z * c.z,
    ;
    lemma_component_div(b1, m);
    lemma_component_div(b2, m);
    lemma_component_div(b3, m);
    let q1 = b1 / m;
    let q2c = b2 / m;
    let q3 = b3 / m;
    assert(q1 <= q) by (nonlinear_arith)
        requires
            q1 * m <= b1,
            b1 <= m * q,
            m >= 1,
            0 <= q1,
    ;
    assert(q2c <= q) by (nonlinear_arith)
        requires
            q2c * m <= b2,
            b2 <= m * q,
            m >= 1,
            0 <= q2c,
    ;
    assert(q3 <= q) by (nonlinear_arith)
        requires
            q3 * m <= b3,
            b3 <= m * q,
            m >= 1,
            0 <= q3,
    ;
    let rr = q1 * q1 + q2c * q2c + q3 * q3;
    // upper bound on the squared magnitude
    assert((q1 * q1) * (m * m) <= b1 * b1) by (nonlinear_arith)
        requires
            0 <= q1,
            m >= 1,
            q1 * m <= b1,
            0 <= b1,
    ;
    assert((q2c * q2c) * (m * m) <= b2 * b2) by (nonlinear_arith)
        requires
            0 <= q2c,
            m >= 1,
            q2c * m <= b2,
            0 <= b2,
    ;
    assert((q3 * q3) * (m * m) <= b3 * b3) by (nonlinear_arith)
        requires
            0 <= q3,
            m >= 1,
            q3 * m <= b3,
            0 <= b3,
    ;
    assert(rr * (m * m) <= v * w) by (nonlinear_arith)
        requires
            (q1 * q1) * (m * m) <= b1 * b1,
            (q2c * q2c) * (m * m) <= b2 * b2,
            (q3 * q3) * (m * m) <= b3 * b3,
            b1 * b1 + b2 * b2 + b3 * b3 == v * w,
            rr == q1 * q1 + q2c * q2c + q3 * q3,
    ;
    assert(v * w <= (m * m + 2 * m) * (q * q)) by (nonlinear_arith)
        requires
            v * s * s < (m + 1) * (m + 1),
            w == (s * s) * (q * q),
            q >= 1,
            v >= 1,
            s >= 1,
            m >= 1,
    ;
    assert(rr <= q * q + 7 * q) by (nonlinear_arith)
        requires
            rr * (m * m) <= (m * m + 2 * m) * (q * q),
            m >= s,
            s == 2147483648,
            q == 16777216,
            rr >= 0,
    ;
    // lower bound on the squared magnitude
    assert(b1 * b1 < ((q1 + 1) * (q1 + 1)) * (m * m)) by (nonlinear_arith)
        requires
            b1 <= q1 * m + (m - 1),
            0 <= b1,
            m >= 1,
            0 <= q1,
    ;
    assert(b2 * b2 < ((q2c + 1) * (q2c + 1)) * (m * m)) by (nonlinear_arith)
        requires
            b2 <= q2c * m + (m - 1),
            0 <= b2,
            m >= 1,
            0 <= q2c,
    ;
    assert(b3 * b3 < ((q3 + 1) * (q3 + 1)) * (m * m)) by (nonlinear_arith)
        requires
            b3 <= q3 * m + (m - 1),
            0 <= b3,
            m >= 1,
            0 <= q3,
    ;
    assert(v * w < ((q1 + 1) * (q1 + 1) + (q2c + 1) * (q2c + 1) + (q3 + 1) * (q3 + 1)) * (m
        * m)) by (nonlinear_arith)
        requires
            b1 * b1 < ((q1 + 1) * (q1 + 1)) * (m * m),
            b2 * b2 < ((q2c + 1) * (q2c + 1)) * (m * m),
            b3 * b3 < ((q3 + 1) * (q3 + 1)) * (m * m),
            b1 * b1 + b2 * b2 + b3 * b3 == v * w,
    ;
    assert((q1 + 1) * (q1 + 1) + (q2c + 1) * (q2c + 1) + (q3 + 1) * (q3 + 1) == rr + 2 * (q1
        + q2c + q3) + 3) by (nonlinear_arith)
        requires
            rr == q1 * q1 + q2c * q2c + q3 * q3,
    ;
    assert(v * w < (rr + 2 * (q1 + q2c + q3) + 3) * (m * m));
    assert((m * m) * (q * q) <= v * w) by (nonlinear_arith)
        requires
            m * m <= v * s * s,
            w == (s * s) * (q * q),
            q >= 1,
    ;
    assert(rr >= q * q - 7 * q) by (nonlinear_arith)
        requires
            (m * m) * (q * q) < (rr + 2 * (q1 + q2c + q3) + 3) * (m * m),
            q1 <= q,
            q2c <= q,
            q3 <= q,
            0 <= q1,
            0 <= q2c,
            0 <= q3,
            m >= 1,
            q == 16777216,
            rr == q1 * q1 + q2c * q2c + q3 * q3,
    ;
    // the signed components square to the quotients' squares
    let r = normal_fixed(c);
    assert(r.x * r.x + r.y * r.y + r.z * r.z == rr) by (nonlinear_arith)
        requires
            r.x == q1 || r.x == -q1,
            r.y == q2c || r.y == -q2c,
            r.z == q3 || r.z == -q3,
            rr == q1 * q1 + q2c * q2c + q3 * q3,
    ;
}

/// Every estimated vertex normal is a fixed-point unit vector: its squared
/// magnitude lies within `7 * NORMAL_SCALE` of `NORMAL_SCALE * NORMAL_SCALE`,
/// for every heightfield and every vertex.
pub proof fn lemma_normal_at_magnitude(hf: HeightField, s: int, x: int, z: int)
    requires
        hf.wf(),
        1 <= s <= MAX_SPACING as int,
        0 <= x < hf.resolution_spec(),
        0 <= z < hf.resolution_spec(),
    ensures
        ({
            let r = normal_at(hf, s, x, z);
            let q2 = (NORMAL_SCALE as int) * (NORMAL_SCALE as int);
            q2 - 7 * (NORMAL_SCALE as int) <= r.x * r.x + r.y * r.y + r.z * r.z <= q2 + 7 * (
            NORMAL_SCALE as int)
        }),
{
    lemma_cross_sum_bounds(hf, s, x, z);
    lemma_normal_magnitude(cross_sum(hf, s, x, z));
}

} // verus!

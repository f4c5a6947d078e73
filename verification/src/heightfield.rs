//! The heightfield: a square, row-major grid of fixed-point elevations.
//!
//! Elevations are integers in whatever fixed-point unit the caller chooses;
//! the mesh builder places the vertex for grid cell `(x, z)` at position
//! `(x * spacing, elevation, z * spacing)`, so an elevation of `spacing`
//! rises exactly one grid cell above the plane.

use vstd::prelude::*;

use crate::MAX_ELEVATION;
use crate::MAX_RESOLUTION;

verus! {

/// Rejected configurations of the terrain generator.
#[derive(Clone, Copy, Debug, PartialEq, Eq, Structural)]
pub enum TerrainError {
    /// The grid resolution cannot form a triangle (it is 0 or 1).
    ResolutionTooSmall,
    /// The grid resolution exceeds [`MAX_RESOLUTION`].
    ResolutionTooLarge,
    /// The elevation data does not hold exactly `resolution * resolution` entries.
    SizeMismatch,
    /// An elevation sample lies outside `[-MAX_ELEVATION, MAX_ELEVATION]`.
    ElevationOutOfRange,
    /// The grid spacing lies outside `[1, MAX_SPACING]`.
    SpacingOutOfRange,
}

/// An immutable `n` by `n` matrix of fixed-point elevations,
/// stored row-major: cell `(x, z)` sits at index `x * n + z`.
pub struct HeightField {
    resolution: usize,
    elevations: Vec<i64>,
}

/// Whether every elevation of `data` lies within `[-MAX_ELEVATION, MAX_ELEVATION]`.
pub open spec fn elevations_in_range(data: Seq<i64>) -> bool {
    forall|i: int| 0 <= i < data.len() ==> -MAX_ELEVATION <= #[trigger] data[i] <= MAX_ELEVATION
}

impl HeightField {
    /// The grid resolution `n`.
    pub closed spec fn resolution_spec(&self) -> int {
        self.resolution as int
    }

    /// The elevations, row-major.
    pub closed spec fn elevations_spec(&self) -> Seq<i64> {
        self.elevations@
    }

    /// The elevation of cell `(x, z)`.
    pub open spec fn elevation_at(&self, x: int, z: int) -> int {
        self.elevations_spec()[x * self.resolution_spec() + z] as int
    }

    /// Structural invariant: a valid resolution, a full matrix, bounded samples.
    pub open spec fn wf(&self) -> bool {
        &&& 2 <= self.resolution_spec() <= MAX_RESOLUTION as int
        &&& self.elevations_spec().len() == self.resolution_spec() * self.resolution_spec()
        &&& elevations_in_range(self.elevations_spec())
    }

    /// Builds a heightfield from row-major elevation data, rejecting any
    /// configuration the mesh pipeline cannot handle.
    pub fn new(resolution: usize, elevations: Vec<i64>) -> (r: Result<HeightField, TerrainError>)
        ensures
            resolution < 2 ==> r == Err::<HeightField, TerrainError>(TerrainError::ResolutionTooSmall),
            resolution > MAX_RESOLUTION ==> r == Err::<HeightField, TerrainError>(
                TerrainError::ResolutionTooLarge,
            ),
            2 <= resolution <= MAX_RESOLUTION && elevations@.len() != resolution * resolution
                ==> r == Err::<HeightField, TerrainError>(TerrainError::SizeMismatch),
            2 <= resolution <= MAX_RESOLUTION && elevations@.len() == resolution * resolution
                && !elevations_in_range(elevations@) ==> r == Err::<HeightField, TerrainError>(
                TerrainError::ElevationOutOfRange,
            ),
            r is Ok <==> 2 <= resolution <= MAX_RESOLUTION && elevations@.len() == resolution
                * resolution && elevations_in_range(elevations@),
            r is Ok ==> {
                let h = r->Ok_0;
                &&& h.wf()
                &&& h.resolution_spec() == resolution
                &&& h.elevations_spec() == elevations@
            },
    {
        if resolution < 2 {
            return Err(TerrainError::ResolutionTooSmall);
        }
        if resolution > MAX_RESOLUTION {
            return Err(TerrainError::ResolutionTooLarge);
        }
        proof {
            lemma_square_bounded(resolution as int);
        }
        if elevations.len() != resolution * resolution {
            return Err(TerrainError::SizeMismatch);
        }
        let mut i: usize = 0;
        while i < elevations.len()
            invariant
                2 <= resolution <= MAX_RESOLUTION,
                elevations@.len() == resolution * resolution,
                0 <= i <= elevations@.len(),
                forall|j: int| 0 <= j < i ==> -MAX_ELEVATION <= #[trigger] elevations@[j]
                    <= MAX_ELEVATION,
            decreases elevations@.len() - i,
        {
            let e = elevations[i];
            if e < -MAX_ELEVATION || e > MAX_ELEVATION {
                proof {
                    assert(!elevations_in_range(elevations@)) by {
                        assert(!(-MAX_ELEVATION <= elevations@[i as int] <= MAX_ELEVATION));
                    }
                }
                return Err(TerrainError::ElevationOutOfRange);
            }
            i = i + 1;
        }
        Ok(HeightField { resolution, elevations })
    }

    /// The grid resolution `n`.
    pub fn resolution(&self) -> (r: usize)
        ensures
            r == self.resolution_spec(),
    {
        self.resolution
    }

    /// The elevation of cell `(x, z)`.
    pub fn elevation(&self, x: usize, z: usize) -> (r: i64)
        requires
            self.wf(),
            x < self.resolution_spec(),
            z < self.resolution_spec(),
        ensures
            r == self.elevation_at(x as int, z as int),
    {
        proof {
            lemma_grid_index_bounds(x as int, z as int, self.resolution_spec());
            lemma_square_bounded(self.resolution_spec());
        }
        self.elevations[x * self.resolution + z]
    }
}

/// Every elevation of a well-formed heightfield is bounded.
pub proof fn lemma_elevation_bounds(hf: HeightField, x: int, z: int)
    requires
        hf.wf(),
        0 <= x < hf.resolution_spec(),
        0 <= z < hf.resolution_spec(),
    ensures
        -MAX_ELEVATION <= hf.elevation_at(x, z) <= MAX_ELEVATION,
{
    lemma_grid_index_bounds(x, z, hf.resolution_spec());
    assert(-MAX_ELEVATION <= hf.elevations_spec()[x * hf.resolution_spec() + z] <= MAX_ELEVATION);
}

/// A flat index below `n * n` decomposes into grid coordinates: its row is
/// `i / n`, its column `i % n`, and both lie inside the grid.
pub proof fn lemma_flat_coords(n: int, i: int)
    requires
        1 <= n,
        0 <= i < n * n,
    ensures
        0 <= i / n < n,
        0 <= i % n < n,
        (i / n) * n + (i % n) == i,
{
    vstd::arithmetic::div_mod::lemma_fundamental_div_mod(i, n);
    vstd::arithmetic::div_mod::lemma_mod_bound(i, n);
    vstd::arithmetic::div_mod::lemma_div_pos_is_pos(i, n);
    let q = i / n;
    let r = i % n;
    assert(q < n && q * n + r == i) by (nonlinear_arith)
        requires
            i == n * q + r,
            0 <= r < n,
            0 <= i < n * n,
            0 <= q,
            1 <= n,
    ;
}

/// The square of a valid resolution is small enough that even eight buffer
/// entries per vertex fit in a 32-bit `usize`.
pub proof fn lemma_square_bounded(n: int)
    by (nonlinear_arith)
    requires
        0 <= n <= MAX_RESOLUTION as int,
    ensures
        0 <= n * n <= 0x10000000,
{
}

/// `x * n + z` indexes inside an `n * n` grid whenever `x < n` and `z < n`.
pub proof fn lemma_grid_index_bounds(x: int, z: int, n: int)
    by (nonlinear_arith)
    requires
        0 <= x < n,
        0 <= z < n,
    ensures
        0 <= x * n + z < n * n,
{
}

/// The octave weighting of the heightfield generator: a base noise sample,
/// a second octave at half weight, and a third at quarter weight, scaled by
/// `amplitude`.  The result is in quarters of an amplitude-scaled sample
/// unit, so the weighting stays exact in integers:
/// `r = amplitude * (4 * base + 2 * second + third)`.
pub fn combine_octaves(base: i64, second: i64, third: i64, amplitude: i64) -> (r: i64)
    requires
        -1000000 <= base <= 1000000,
        -1000000 <= second <= 1000000,
        -1000000 <= third <= 1000000,
        0 <= amplitude <= 1000000,
    ensures
        r == amplitude * (4 * base + 2 * second + third),
{
    let weighted: i64 = 4 * base + 2 * second + third;
    assert(-7000000000000 <= amplitude * weighted <= 7000000000000) by (nonlinear_arith)
        requires
            -7000000 <= weighted <= 7000000,
            0 <= amplitude <= 1000000,
    ;
    amplitude * weighted
}

} // verus!

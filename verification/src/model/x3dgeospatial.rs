//! The uniform topology: a grid of latitude bands from pole to pole and of
//! longitude steps whose last column folds onto the first.

use crate::common::types::{frac, Coord, Fraction, GeoPoint, GeoPointIndex};
use crate::model::obj::{lemma_scaled_bound, magnitude};
use crate::model::types::{Elements, GeoPoints, Heights, ModelPoints, ModelTypeData};
use vstd::prelude::*;

verus! {

pub const MIN_VALID_MODEL_SIZE: usize = 4;

/// The model size that a requested size stands for: the minimum where none
/// is given, and at least the minimum.
pub open spec fn spec_valid_model_size(model_size: Option<GeoPointIndex>) -> GeoPointIndex {
    match model_size {
        Some(n) => if n < MIN_VALID_MODEL_SIZE {
            MIN_VALID_MODEL_SIZE
        } else {
            n
        },
        None => MIN_VALID_MODEL_SIZE,
    }
}

/// Number of lattice points of a grid of the given size.
pub open spec fn grid_count(model_size: int) -> int {
    (2 * model_size + 1) * (model_size + 1)
}

/// Lattice index of step `i` of band `j`.
pub open spec fn grid_index(model_size: int, j: int, i: int) -> int {
    j * (2 * model_size + 1) + i
}

/// A step number with the last one folded onto the first.
pub open spec fn folded(k: int, last: int) -> int {
    if k == last {
        0
    } else {
        k
    }
}

/// The point at step `i` of band `j`: `spacing` degrees per step and per
/// band, counted from the south-west corner. The bands run from the south
/// pole to the north pole; the last step stands where the first does.
pub open spec fn grid_point(sp: Coord, model_size: int, j: int, i: int) -> GeoPoint {
    GeoPoint {
        lon: frac(sp.num * folded(i, 2 * model_size) - 180 * sp.den, sp.den as int),
        lat: frac(sp.num * j - 90 * sp.den, sp.den as int),
    }
}

/// `pts` is the grid of the given size, band by band.
pub open spec fn is_grid_lattice(pts: Seq<GeoPoint>, model_size: int, sp: Coord) -> bool {
    &&& pts.len() == grid_count(model_size)
    &&& forall|j: int, i: int|
        #![trigger grid_index(model_size, j, i)]
        0 <= j <= model_size && 0 <= i <= 2 * model_size ==> {
            &&& 0 <= grid_index(model_size, j, i) < pts.len()
            &&& pts[grid_index(model_size, j, i)] == grid_point(sp, model_size, j, i)
        }
}

/// The model size and the spacing are such that every index fits `usize`
/// and every coordinate fits `i64`.
pub open spec fn grid_size_fits(model_size: int, sp: Coord) -> bool {
    &&& sp.wf()
    &&& grid_count(model_size) <= usize::MAX
    &&& 180 * sp.den + magnitude(sp.num as int) * (2 * model_size) <= i64::MAX
}

/// The spacing leads from pole to pole, and not beyond, in as many steps
/// as the grid has bands: a grid with this spacing lies on the planet.
pub open spec fn spacing_spans_half(sp: Coord, model_size: int) -> bool {
    0 <= sp.num && sp.num * model_size <= 180 * sp.den
}

/// With a spacing that spans the half circle in `n` steps, fewer than
/// `2 n` steps stay within the full circle and `n` steps within the half.
pub proof fn lemma_grid_steps(sp: Coord, n: int, i: int, j: int)
    requires
        sp.wf(),
        spacing_spans_half(sp, n),
        0 <= i < 2 * n || i == 0,
        0 <= j <= n,
    ensures
        0 <= sp.num * i < 360 * sp.den,
        0 <= sp.num * j <= 180 * sp.den,
{
    let a = sp.num as int;
    let d = sp.den as int;
    if i == 0 {
        assert(a * i == 0) by (nonlinear_arith)
            requires
                i == 0,
        ;
    } else {
        assert(0 <= a * i < 360 * d) by (nonlinear_arith)
            requires
                0 <= a,
                0 < i < 2 * n,
                a * n <= 180 * d,
                d > 0,
        ;
    }
    assert(0 <= a * j <= 180 * d) by (nonlinear_arith)
        requires
            0 <= a,
            0 <= j <= n,
            a * n <= 180 * d,
    ;
}

/// A grid of the given size has `(2 n + 1) (n + 1)` points: `n + 1` bands of
/// `2 n + 1` steps.
pub proof fn lemma_grid_count(pts: Seq<GeoPoint>, model_size: int, sp: Coord)
    requires
        0 <= model_size,
        is_grid_lattice(pts, model_size, sp),
    ensures
        pts.len() == (2 * model_size + 1) * (model_size + 1),
{
}

/// The bands before band `j` hold `j` full rows.
pub proof fn lemma_grid_rows(model_size: int, j: int)
    requires
        0 <= j <= model_size,
    ensures
        grid_index(model_size, j + 1, 0) == grid_index(model_size, j, 0) + 2 * model_size + 1,
        0 <= grid_index(model_size, j, 0),
        grid_index(model_size, j, 0) + 2 * model_size + 1 <= grid_count(model_size),
        grid_index(model_size, model_size + 1, 0) == grid_count(model_size),
{
    let w = 2 * model_size + 1;
    assert((j + 1) * w == j * w + w) by (nonlinear_arith);
    assert(0 <= j * w && j * w + w <= w * (model_size + 1)) by (nonlinear_arith)
        requires
            0 <= j <= model_size,
            w >= 1,
    ;
    assert((model_size + 1) * w == w * (model_size + 1)) by (nonlinear_arith);
}

/// A grid whose points can be counted in `usize` has fewer than `2^32`
/// bands.
pub proof fn lemma_grid_size_bound(model_size: int)
    requires
        0 <= model_size,
        grid_count(model_size) <= usize::MAX,
    ensures
        model_size < 0x1_0000_0000,
{
    assert(model_size < 0x1_0000_0000) by (nonlinear_arith)
        requires
            0 <= model_size,
            (2 * model_size + 1) * (model_size + 1) <= 0xffff_ffff_ffff_ffff,
    ;
}

/// A model of the uniform topology.
#[derive(Debug)]
pub struct X3DGeospatial {
    pub model_size: GeoPointIndex,
    pub spacing: Coord,
    pub heights: Heights,
    pub model_type_data: ModelTypeData,
}

impl X3DGeospatial {
    /// Texture model constructor
    pub fn build_texture_model(
        model_size: GeoPointIndex,
        spacing: Coord,
        heights: Heights,
        model_type_data: ModelTypeData,
    ) -> (model: X3DGeospatial)
        ensures
            model == (X3DGeospatial { model_size, spacing, heights, model_type_data }),
    {
        X3DGeospatial { model_size, spacing, heights, model_type_data }
    }

    /// Color model constructor
    pub fn build_color_model(
        model_size: GeoPointIndex,
        spacing: Coord,
        heights: Heights,
        model_type_data: ModelTypeData,
    ) -> (model: X3DGeospatial)
        ensures
            model == (X3DGeospatial { model_size, spacing, heights, model_type_data }),
    {
        X3DGeospatial { model_size, spacing, heights, model_type_data }
    }

    /// The nearest valid model size: at least the minimum, which also
    /// stands for a size that was not given.
    pub fn make_valid_model_size(model_size: Option<GeoPointIndex>) -> (r: GeoPointIndex)
        ensures
            r == spec_valid_model_size(model_size),
            r >= MIN_VALID_MODEL_SIZE,
    {
        let wanted: usize = match model_size {
            Some(n) => n,
            None => MIN_VALID_MODEL_SIZE,
        };
        if wanted < MIN_VALID_MODEL_SIZE {
            MIN_VALID_MODEL_SIZE
        } else {
            wanted
        }
    }

    /// The spacing of the grid, in degrees: `180 / model_size`.
    pub fn define_spacing(model_size: GeoPointIndex) -> (sp: Coord)
        requires
            0 < model_size <= i64::MAX,
        ensures
            sp == frac(180, model_size as int),
            sp.wf(),
            spacing_spans_half(sp, model_size as int),
    {
        Fraction { num: 180, den: model_size as i64 }
    }

    /// The grid of the given size and spacing. The topology has neither a
    /// texture map nor triangles.
    pub fn create_modelpoints(model_size: GeoPointIndex, spacing: Coord) -> (res: (
        ModelPoints,
        Elements,
    ))
        requires
            grid_size_fits(model_size as int, spacing),
        ensures
            is_grid_lattice(res.0.geopoints@, model_size as int, spacing),
            res.0.points_map_opt is None,
            res.1@.len() == 0,
            forall|k: int|
                0 <= k < res.0.geopoints@.len() ==> (#[trigger] res.0.geopoints@[k]).placed(
                    spacing_spans_half(spacing, model_size as int),
                ),
    {
        let ghost n = model_size as int;
        let ghost ok = spacing_spans_half(spacing, n);
        proof {
            lemma_grid_rows(n, 0);
            lemma_grid_rows(n, n);
            lemma_grid_size_bound(n);
            assert(magnitude(spacing.num as int) * (2 * n) >= 0) by (nonlinear_arith)
                requires
                    n >= 0,
                    magnitude(spacing.num as int) >= 0,
            ;
        }
        let mut geopoints: GeoPoints = Vec::new();
        let model_size2: usize = 2 * model_size;
        let south: i64 = 90 * spacing.den;
        let west: i64 = 180 * spacing.den;
        let mut j: usize = 0;
        while j <= model_size
            invariant
                n == model_size,
                model_size2 == 2 * n,
                grid_size_fits(n, spacing),
                n < 0x1_0000_0000,
                2 * n + 1 <= usize::MAX,
                magnitude(spacing.num as int) * (2 * n) >= 0,
                south == 90 * spacing.den,
                west == 180 * spacing.den,
                j <= model_size + 1,
                ok == spacing_spans_half(spacing, n),
                forall|k: int| 0 <= k < geopoints.len() ==> (#[trigger] geopoints[k]).placed(ok),
                geopoints.len() == grid_index(n, j as int, 0),
                forall|jj: int, ii: int|
                    #![trigger grid_index(n, jj, ii)]
                    0 <= jj < j && 0 <= ii <= 2 * n ==> {
                        &&& 0 <= grid_index(n, jj, ii) < geopoints.len()
                        &&& geopoints[grid_index(n, jj, ii)] == grid_point(spacing, n, jj, ii)
                    },
            decreases model_size + 1 - j,
        {
            proof {
                lemma_grid_rows(n, j as int);
                lemma_scaled_bound(spacing.num as int, j as int, 2 * n);
                if ok {
                    lemma_grid_steps(spacing, n, 0, j as int);
                }
            }
            let lat: Fraction = Fraction {
                num: spacing.num * (j as i64) - south,
                den: spacing.den,
            };
            let ghost row = geopoints.len() as int;
            let mut i: usize = 0;
            while i <= model_size2
                invariant
                    n == model_size,
                    model_size2 == 2 * n,
                    grid_size_fits(n, spacing),
                    n < 0x1_0000_0000,
                    magnitude(spacing.num as int) * (2 * n) >= 0,
                    west == 180 * spacing.den,
                    j <= model_size,
                    row == grid_index(n, j as int, 0),
                    0 <= row,
                    row + 2 * n + 1 <= usize::MAX,
                    i <= model_size2 + 1,
                    ok == spacing_spans_half(spacing, n),
                    ok ==> -90 * lat.den <= lat.num <= 90 * lat.den,
                    lat.den == spacing.den,
                    forall|k: int| 0 <= k < geopoints.len() ==> (#[trigger] geopoints[k]).placed(ok),
                    lat == frac(spacing.num * j - 90 * spacing.den, spacing.den as int),
                    geopoints.len() == row + i,
                    forall|jj: int, ii: int|
                        #![trigger grid_index(n, jj, ii)]
                        (0 <= jj < j && 0 <= ii <= 2 * n) || (jj == j && 0 <= ii < i) ==> {
                            &&& 0 <= grid_index(n, jj, ii) < geopoints.len()
                            &&& geopoints[grid_index(n, jj, ii)] == grid_point(spacing, n, jj, ii)
                        },
                decreases model_size2 + 1 - i,
            {
                let f: usize = if i == model_size2 {
                    0
                } else {
                    i
                };
                proof {
                    lemma_scaled_bound(spacing.num as int, f as int, 2 * n);
                    if ok {
                        lemma_grid_steps(spacing, n, f as int, 0);
                    }
                }
                geopoints.push(
                    GeoPoint {
                        lon: Fraction { num: spacing.num * (f as i64) - west, den: spacing.den },
                        lat,
                    },
                );
                assert(grid_index(n, j as int, i as int) == row + i);
                i += 1;
            }
            j += 1;
        }
        (ModelPoints { geopoints, points_map_opt: None }, Vec::new())
    }
}

} // verus!

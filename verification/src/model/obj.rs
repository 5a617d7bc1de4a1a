//! The pole-collapsing topology: rings of points that shrink towards the
//! poles, joined by triangles, with a duplicated seam column for texturing.

use crate::common::color::ColorPrecision;
use crate::common::types::{frac, Coord, Fraction, GeoPoint, GeoPointIndex};
use crate::common::util::{decimal, decimal_digits, with_prefix};
use crate::model::types::{
    Elements, GeoPoints, Heights, ModelPoints, ModelTypeData, PointsMapping, TextureCoordinates,
};
use vstd::prelude::*;
use vstd::string::StringExecFns;

verus! {

pub const MIN_VALID_MODEL_SIZE: usize = 2;

pub const DEFAULT_MODEL_SIZE: usize = 16;

/// Absolute value of an integer.
pub open spec fn magnitude(x: int) -> int {
    if x < 0 {
        -x
    } else {
        x
    }
}

/// Lattice index of the first point of ring `j` of a model with `g` rings
/// per hemisphere. Ring 0 is the equator; ring `g` is the pair of poles.
pub open spec fn lattice_start(g: int, j: int) -> int {
    if j <= 0 {
        0
    } else {
        4 * g + 4 * ((j - 1) * (2 * g - j))
    }
}

/// Texture index of the first point of ring `j`.
pub open spec fn texture_start(g: int, j: int) -> int {
    if j <= 0 {
        0
    } else {
        4 * g + 1 + 4 * ((j - 1) * (2 * g - j)) + 2 * (j - 1)
    }
}

/// Lattice index of the northern point at step `i` of ring `j`; the southern
/// point follows it.
pub open spec fn lattice_index(g: int, j: int, i: int) -> int {
    lattice_start(g, j) + 2 * i
}

/// Texture index of the northern point at step `i` of ring `j`; the southern
/// point follows it.
pub open spec fn texture_index(g: int, j: int, i: int) -> int {
    texture_start(g, j) + 2 * i
}

/// Number of lattice points of a model with `g` rings per hemisphere.
pub open spec fn lattice_count(g: int) -> int {
    4 * g * g + 2
}

/// Number of texture points of a model with `g` rings per hemisphere.
pub open spec fn texture_count(g: int) -> int {
    4 * g * g + 2 * g + 1
}

/// The equator point at step `i`, for the spacing `sp` of the equator.
pub open spec fn equator_point(sp: Coord, i: int) -> GeoPoint {
    GeoPoint { lon: frac(-180 * sp.den + sp.num * i, sp.den as int), lat: frac(0, 1) }
}

/// The point at step `i` of ring `j`, north or south of the equator. A ring
/// divides the full circle evenly; its latitude is `j` spacings away from
/// the equator.
pub open spec fn ring_point(sp: Coord, g: int, j: int, i: int, north: bool) -> GeoPoint {
    GeoPoint {
        lon: frac(-180 * (4 * (g - j)) + 360 * i, 4 * (g - j)),
        lat: frac(
            if north {
                sp.num * j
            } else {
                -(sp.num * j)
            },
            sp.den as int,
        ),
    }
}

/// A pole.
pub open spec fn pole_point(north: bool) -> GeoPoint {
    GeoPoint {
        lon: frac(0, 1),
        lat: frac(
            if north {
                90
            } else {
                -90
            },
            1,
        ),
    }
}

/// `pts` is the lattice of a model with `g` rings per hemisphere: the
/// equator, then the rings with north and south interleaved, then the poles.
pub open spec fn is_obj_lattice(pts: Seq<GeoPoint>, g: int, sp: Coord) -> bool {
    &&& pts.len() == lattice_count(g)
    &&& forall|i: int| 0 <= i < 4 * g ==> #[trigger] pts[i] == equator_point(sp, i)
    &&& forall|j: int, i: int|
        #![trigger lattice_index(g, j, i)]
        1 <= j < g && 0 <= i < 4 * (g - j) ==> {
            &&& 0 <= lattice_index(g, j, i)
            &&& lattice_index(g, j, i) + 1 < pts.len()
            &&& pts[lattice_index(g, j, i)] == ring_point(sp, g, j, i, true)
            &&& pts[lattice_index(g, j, i) + 1] == ring_point(sp, g, j, i, false)
        }
    &&& pts[4 * g * g] == pole_point(true)
    &&& pts[4 * g * g + 1] == pole_point(false)
}

/// `map` sends each texture point of a model with `g` rings per hemisphere
/// to its lattice point. Each ring ends with a seam: texture points that
/// repeat the first points of the ring.
pub open spec fn is_obj_texture_map(map: Seq<GeoPointIndex>, g: int) -> bool {
    &&& map.len() == texture_count(g)
    &&& forall|i: int| 0 <= i < 4 * g ==> #[trigger] map[i] == i
    &&& map[4 * g] == 0
    &&& forall|j: int, i: int|
        #![trigger texture_index(g, j, i)]
        1 <= j < g && 0 <= i < 4 * (g - j) ==> {
            &&& 0 <= texture_index(g, j, i)
            &&& texture_index(g, j, i) + 1 < map.len()
            &&& map[texture_index(g, j, i)] == lattice_index(g, j, i)
            &&& map[texture_index(g, j, i) + 1] == lattice_index(g, j, i) + 1
        }
    &&& forall|j: int|
        #![trigger texture_start(g, j)]
        1 <= j < g ==> {
            &&& 0 <= texture_index(g, j, 4 * (g - j))
            &&& texture_index(g, j, 4 * (g - j)) + 1 < map.len()
            &&& map[texture_index(g, j, 4 * (g - j))] == lattice_start(g, j)
            &&& map[texture_index(g, j, 4 * (g - j)) + 1] == lattice_start(g, j) + 1
        }
    &&& map[4 * g * g + 2 * g - 1] == 4 * g * g
    &&& map[4 * g * g + 2 * g] == 4 * g * g + 1
}

/// The model size and the spacing are such that every index fits `usize`
/// and every coordinate fits `i64`.
pub open spec fn obj_size_fits(model_size: int, sp: Coord) -> bool {
    &&& model_size >= 2
    &&& sp.wf()
    &&& texture_count(model_size / 2) <= usize::MAX
    &&& 180 * sp.den + magnitude(sp.num as int) * (2 * model_size) <= i64::MAX
}

/// Each ring starts where the ring before it ends.
pub proof fn lemma_ring_starts(g: int, j: int)
    requires
        0 <= j < g,
    ensures
        lattice_start(g, j + 1) == lattice_start(g, j) + (if j == 0 {
            4 * g
        } else {
            8 * (g - j)
        }),
        texture_start(g, j + 1) == texture_start(g, j) + (if j == 0 {
            4 * g + 1
        } else {
            8 * (g - j) + 2
        }),
        0 <= lattice_start(g, j) <= lattice_start(g, j + 1),
        0 <= texture_start(g, j) <= texture_start(g, j + 1),
{
    if j >= 1 {
        assert(((j + 1) - 1) * (2 * g - (j + 1)) == (j - 1) * (2 * g - j) + 2 * (g - j))
            by (nonlinear_arith);
        assert((j - 1) * (2 * g - j) >= 0) by (nonlinear_arith)
            requires
                1 <= j < g,
        ;
    }
}

/// The poles follow the last ring.
pub proof fn lemma_pole_starts(g: int)
    requires
        1 <= g,
    ensures
        lattice_start(g, g) == 4 * g * g,
        texture_start(g, g) == 4 * g * g + 2 * g - 1,
{
    assert(4 * g + 4 * ((g - 1) * (2 * g - g)) == 4 * g * g) by (nonlinear_arith);
}

/// Ring starts grow with the ring number.
pub proof fn lemma_ring_starts_monotonic(g: int, j: int, k: int)
    requires
        0 <= j <= k <= g,
    ensures
        lattice_start(g, j) <= lattice_start(g, k),
        texture_start(g, j) <= texture_start(g, k),
    decreases k - j,
{
    if j < k {
        lemma_ring_starts(g, k - 1);
        lemma_ring_starts_monotonic(g, j, k - 1);
    }
}

/// A multiple `a * i` with `0 <= i <= n` is bounded by `|a| * n`.
pub proof fn lemma_scaled_bound(a: int, i: int, n: int)
    requires
        0 <= i <= n,
    ensures
        -(magnitude(a) * n) <= a * i <= magnitude(a) * n,
{
    assert(-(magnitude(a) * n) <= a * i <= magnitude(a) * n) by (nonlinear_arith)
        requires
            0 <= i <= n,
            magnitude(a) == a || magnitude(a) == -a,
            magnitude(a) >= 0,
    ;
}

/// A triangle over texture points.
pub open spec fn tri(a: int, b: int, c: int) -> (GeoPointIndex, GeoPointIndex, GeoPointIndex) {
    (a as usize, b as usize, c as usize)
}

/// How far the upper ring has advanced when the lower ring is at step `i`:
/// the upper ring has one point fewer per quarter, so it stands still once
/// in every `m` steps, where `m` is the quarter length of the lower ring.
pub open spec fn lift(i: int, m: int) -> int {
    i - i / m
}

/// Texture index of the northern point of ring `j + 1` that the triangles of
/// step `i` of ring `j` reach; the southern point follows it.
pub open spec fn upper_index(g: int, j: int, i: int) -> int {
    texture_start(g, j + 1) + 2 * lift(i, g - j)
}

/// Texture index of the northern point at step `i` of ring `j`. On the
/// equator north and south share one row of points.
pub open spec fn lower_index(g: int, j: int, i: int) -> int {
    if j == 0 {
        i
    } else {
        texture_index(g, j, i)
    }
}

/// The triangles of step `i` of ring `j`: one northern and one southern
/// triangle to the next point of the ring, and, where the upper ring has
/// advanced, one northern and one southern triangle that fill the gap.
pub open spec fn step_elements(g: int, j: int, i: int) -> Seq<
    (GeoPointIndex, GeoPointIndex, GeoPointIndex),
> {
    let a_n = lower_index(g, j, i);
    let a_s = if j == 0 {
        a_n
    } else {
        a_n + 1
    };
    let stride = if j == 0 {
        1int
    } else {
        2int
    };
    let hn = upper_index(g, j, i);
    let hs = hn + 1;
    let base = seq![tri(a_n, a_n + stride, hn), tri(a_s + stride, a_s, hs)];
    if i % (g - j) != 0 {
        base + seq![tri(a_n, hn, hn - 2), tri(a_s, hs - 2, hs)]
    } else {
        base
    }
}

/// The triangles of the first `n` steps of ring `j`.
pub open spec fn steps_upto(g: int, j: int, n: int) -> Seq<
    (GeoPointIndex, GeoPointIndex, GeoPointIndex),
>
    decreases n,
{
    if n <= 0 {
        Seq::empty()
    } else {
        steps_upto(g, j, n - 1) + step_elements(g, j, n - 1)
    }
}

/// The triangles between ring `j` and ring `j + 1`.
pub open spec fn ring_elements(g: int, j: int) -> Seq<
    (GeoPointIndex, GeoPointIndex, GeoPointIndex),
> {
    steps_upto(g, j, 4 * (g - j))
}

/// The triangles of the rings below ring `k`.
pub open spec fn rings_upto(g: int, k: int) -> Seq<(GeoPointIndex, GeoPointIndex, GeoPointIndex)>
    decreases k,
{
    if k <= 0 {
        Seq::empty()
    } else {
        rings_upto(g, k - 1) + ring_elements(g, k - 1)
    }
}

/// All triangles of a model with `g` rings per hemisphere, from the equator
/// to the poles.
pub open spec fn obj_elements(g: int) -> Seq<(GeoPointIndex, GeoPointIndex, GeoPointIndex)> {
    rings_upto(g, g)
}

/// The upper ring advances at every step that is no multiple of `m`.
pub proof fn lemma_lift_step(i: int, m: int)
    requires
        1 <= i,
        1 <= m,
    ensures
        lift(i, m) == lift(i - 1, m) + (if i % m != 0 {
            1int
        } else {
            0int
        }),
{
    let q = (i - 1) / m;
    let r = (i - 1) % m;
    vstd::arithmetic::div_mod::lemma_fundamental_div_mod(i - 1, m);
    vstd::arithmetic::div_mod::lemma_mod_bound(i - 1, m);
    if r + 1 < m {
        vstd::arithmetic::div_mod::lemma_fundamental_div_mod_converse(i, m, q, r + 1);
    } else {
        assert(i == (q + 1) * m + 0) by (nonlinear_arith)
            requires
                i - 1 == m * q + r,
                r + 1 == m,
        ;
        vstd::arithmetic::div_mod::lemma_fundamental_div_mod_converse(i, m, q + 1, 0);
    }
}

/// Over a ring of `4 * m` steps the upper ring advances at most `4 * (m - 1)`
/// times, and exactly so often over the whole ring.
pub proof fn lemma_lift_bound(i: int, m: int)
    requires
        1 <= m,
        0 <= i < 4 * m,
    ensures
        0 <= lift(i, m) <= 4 * (m - 1),
        lift(4 * m - 1, m) == 4 * (m - 1),
{
    let q = i / m;
    let r = i % m;
    vstd::arithmetic::div_mod::lemma_fundamental_div_mod(i, m);
    vstd::arithmetic::div_mod::lemma_mod_bound(i, m);
    assert(0 <= q <= 3) by (nonlinear_arith)
        requires
            i == m * q + r,
            0 <= r < m,
            0 <= i < 4 * m,
            1 <= m,
    ;
    assert(i - q <= 4 * (m - 1) && i - q >= 0) by (nonlinear_arith)
        requires
            i == m * q + r,
            0 <= r < m,
            0 <= q <= 3,
            1 <= m,
    ;
    assert(4 * m - 1 == 3 * m + (m - 1));
    vstd::arithmetic::div_mod::lemma_fundamental_div_mod_converse(4 * m - 1, m, 3, m - 1);
}

/// The spacing leads from the equator to a pole, and not beyond, in as many
/// steps as there are rings: a model with this spacing lies on the planet.
pub open spec fn spacing_spans_quarter(sp: Coord, g: int) -> bool {
    0 <= sp.num && sp.num * (2 * g) <= 180 * sp.den
}

/// With a spacing that spans a quarter in `g` steps, `4 g` steps stay within
/// the full circle and `g` steps within the quarter.
pub proof fn lemma_spacing_steps(sp: Coord, g: int, i: int, j: int)
    requires
        sp.wf(),
        spacing_spans_quarter(sp, g),
        0 <= i < 4 * g,
        0 <= j <= g,
    ensures
        0 <= sp.num * i < 360 * sp.den,
        0 <= sp.num * j <= 90 * sp.den,
{
    let n = sp.num as int;
    let d = sp.den as int;
    assert(0 <= n * i && 0 <= n * j) by (nonlinear_arith)
        requires
            0 <= n,
            0 <= i,
            0 <= j,
    ;
    assert(n * i < 360 * d) by (nonlinear_arith)
        requires
            0 <= n,
            0 <= i < 4 * g,
            n * (2 * g) <= 180 * d,
            d > 0,
    ;
    assert(n * j <= 90 * d) by (nonlinear_arith)
        requires
            0 <= n,
            0 <= j <= g,
            n * (2 * g) <= 180 * d,
    ;
}

/// A model whose texture points can be counted in `usize` has fewer than
/// `2^31` rings per hemisphere.
pub proof fn lemma_ring_count_bound(g: int)
    requires
        1 <= g,
        texture_count(g) <= usize::MAX,
    ensures
        g < 0x8000_0000,
        4 * g <= 4 * g * g,
        4 * g * g + 2 * g + 1 <= usize::MAX,
{
    assert(4 * g <= 4 * g * g) by (nonlinear_arith)
        requires
            1 <= g,
    ;
    assert(g < 0x8000_0000) by (nonlinear_arith)
        requires
            1 <= g,
            4 * g * g + 2 * g + 1 <= 0xffff_ffff_ffff_ffff,
    ;
}

/// The lattice and the texture map of a model with `gnn` rings per
/// hemisphere.
fn obj_points(gnn: usize, sp: Coord) -> (res: (GeoPoints, PointsMapping))
    requires
        gnn >= 1,
        sp.wf(),
        texture_count(gnn as int) <= usize::MAX,
        180 * sp.den + magnitude(sp.num as int) * (4 * gnn) <= i64::MAX,
    ensures
        is_obj_lattice(res.0@, gnn as int, sp),
        is_obj_texture_map(res.1@, gnn as int),
        forall|k: int|
            0 <= k < res.0@.len() ==> (#[trigger] res.0@[k]).placed(
                spacing_spans_quarter(sp, gnn as int),
            ),
{
    let ghost g = gnn as int;
    let ghost ok = spacing_spans_quarter(sp, g);
    proof {
        lemma_ring_count_bound(g);
        lemma_ring_starts(g, 0);
    }
    let mut geopoints: GeoPoints = Vec::new();
    let mut texture_points: PointsMapping = Vec::new();

    // equator points
    let mut i: usize = 0;
    while i < 4 * gnn
        invariant
            g == gnn,
            gnn >= 1,
            sp.wf(),
            4 * g <= usize::MAX,
            g < 0x8000_0000,
            180 * sp.den + magnitude(sp.num as int) * (4 * gnn) <= i64::MAX,
            i <= 4 * gnn,
            geopoints.len() == i,
            texture_points.len() == i,
            forall|k: int| 0 <= k < i ==> #[trigger] geopoints[k] == equator_point(sp, k),
            forall|k: int| 0 <= k < i ==> #[trigger] texture_points[k] == k,
            ok == spacing_spans_quarter(sp, g),
            forall|k: int| 0 <= k < geopoints.len() ==> (#[trigger] geopoints[k]).placed(ok),
        decreases 4 * gnn - i,
    {
        proof {
            if ok {
                lemma_spacing_steps(sp, g, i as int, 0);
            }
            lemma_scaled_bound(sp.num as int, i as int, 4 * g);
            assert(magnitude(sp.num as int) * (4 * g) >= 0) by (nonlinear_arith)
                requires
                    g >= 0,
                    magnitude(sp.num as int) >= 0,
            ;
            assert(180 * sp.den <= i64::MAX);
            assert(sp.num * (i as i64) <= magnitude(sp.num as int) * (4 * g));
            assert(sp.num * (i as i64) >= -(magnitude(sp.num as int) * (4 * g)));
        }
        let west: i64 = 180 * sp.den;
        let east: i64 = sp.num * (i as i64);
        geopoints.push(
            GeoPoint {
                lon: Fraction { num: east - west, den: sp.den },
                lat: Fraction { num: 0, den: 1 },
            },
        );
        texture_points.push(i);
        i += 1;
    }
    texture_points.push(0);

    // north and south hemispheres points
    let mut j: usize = 1;
    while j < gnn
        invariant
            g == gnn,
            gnn >= 1,
            sp.wf(),
            g < 0x8000_0000,
            texture_count(g) <= usize::MAX,
            180 * sp.den + magnitude(sp.num as int) * (4 * gnn) <= i64::MAX,
            1 <= j <= gnn,
            geopoints.len() == lattice_start(g, j as int),
            texture_points.len() == texture_start(g, j as int),
            forall|k: int| 0 <= k < 4 * g ==> #[trigger] geopoints[k] == equator_point(sp, k),
            forall|k: int| 0 <= k < 4 * g ==> #[trigger] texture_points[k] == k,
            texture_points[4 * g] == 0,
            ok == spacing_spans_quarter(sp, g),
            forall|k: int| 0 <= k < geopoints.len() ==> (#[trigger] geopoints[k]).placed(ok),
            forall|jj: int, ii: int|
                #![trigger lattice_index(g, jj, ii)]
                1 <= jj < j && 0 <= ii < 4 * (g - jj) ==> {
                    &&& 0 <= lattice_index(g, jj, ii)
                    &&& lattice_index(g, jj, ii) + 1 < geopoints.len()
                    &&& geopoints[lattice_index(g, jj, ii)] == ring_point(sp, g, jj, ii, true)
                    &&& geopoints[lattice_index(g, jj, ii) + 1] == ring_point(
                        sp,
                        g,
                        jj,
                        ii,
                        false,
                    )
                },
            forall|jj: int, ii: int|
                #![trigger texture_index(g, jj, ii)]
                1 <= jj < j && 0 <= ii < 4 * (g - jj) ==> {
                    &&& 0 <= texture_index(g, jj, ii)
                    &&& texture_index(g, jj, ii) + 1 < texture_points.len()
                    &&& texture_points[texture_index(g, jj, ii)] == lattice_index(g, jj, ii)
                    &&& texture_points[texture_index(g, jj, ii) + 1] == lattice_index(g, jj, ii)
                        + 1
                },
            forall|jj: int|
                #![trigger texture_start(g, jj)]
                1 <= jj < j ==> {
                    &&& 0 <= texture_index(g, jj, 4 * (g - jj))
                    &&& texture_index(g, jj, 4 * (g - jj)) + 1 < texture_points.len()
                    &&& texture_points[texture_index(g, jj, 4 * (g - jj))] == lattice_start(g, jj)
                    &&& texture_points[texture_index(g, jj, 4 * (g - jj)) + 1] == lattice_start(
                        g,
                        jj,
                    ) + 1
                },
        decreases gnn - j,
    {
        let start_point_index_n: usize = geopoints.len();
        let i_len: usize = 4 * (gnn - j);
        let ghost tstart = texture_points.len() as int;
        proof {
            lemma_ring_starts(g, j as int);
            lemma_ring_starts_monotonic(g, j as int + 1, g);
            lemma_pole_starts(g);
            lemma_scaled_bound(sp.num as int, j as int, 4 * g);
            if ok {
                lemma_spacing_steps(sp, g, 0, j as int);
            }
            assert(magnitude(sp.num as int) * (4 * g) >= 0) by (nonlinear_arith)
                requires
                    g >= 0,
                    magnitude(sp.num as int) >= 0,
            ;
        }
        let lat_n: Fraction = Fraction { num: sp.num * (j as i64), den: sp.den };
        let lat_s: Fraction = Fraction { num: -(sp.num * (j as i64)), den: sp.den };
        let mut i: usize = 0;
        while i < i_len
            invariant
                g == gnn,
                1 <= j < gnn,
                g < 0x8000_0000,
                i_len == 4 * (g - j),
                i <= i_len,
                start_point_index_n == lattice_start(g, j as int),
                tstart == texture_start(g, j as int),
                lattice_start(g, j as int) + 8 * (g - j) <= usize::MAX,
                texture_start(g, j as int) + 8 * (g - j) + 2 <= usize::MAX,
                geopoints.len() == start_point_index_n + 2 * i,
                texture_points.len() == tstart + 2 * i,
                lat_n == frac(sp.num * j, sp.den as int),
                lat_s == frac(-(sp.num * j), sp.den as int),
                sp.wf(),
                ok ==> 0 <= sp.num * j <= 90 * sp.den,
                forall|k: int| 0 <= k < geopoints.len() ==> (#[trigger] geopoints[k]).placed(ok),
                forall|k: int| 0 <= k < 4 * g ==> #[trigger] geopoints[k] == equator_point(sp, k),
                forall|k: int| 0 <= k < 4 * g ==> #[trigger] texture_points[k] == k,
                4 * g < texture_points.len(),
                4 * g <= geopoints.len(),
                texture_points[4 * g] == 0,
                forall|jj: int, ii: int|
                    #![trigger lattice_index(g, jj, ii)]
                    (1 <= jj < j && 0 <= ii < 4 * (g - jj)) || (jj == j && 0 <= ii < i) ==> {
                        &&& 0 <= lattice_index(g, jj, ii)
                        &&& lattice_index(g, jj, ii) + 1 < geopoints.len()
                        &&& geopoints[lattice_index(g, jj, ii)] == ring_point(sp, g, jj, ii, true)
                        &&& geopoints[lattice_index(g, jj, ii) + 1] == ring_point(
                            sp,
                            g,
                            jj,
                            ii,
                            false,
                        )
                    },
                forall|jj: int, ii: int|
                    #![trigger texture_index(g, jj, ii)]
                    (1 <= jj < j && 0 <= ii < 4 * (g - jj)) || (jj == j && 0 <= ii < i) ==> {
                        &&& 0 <= texture_index(g, jj, ii)
                        &&& texture_index(g, jj, ii) + 1 < texture_points.len()
                        &&& texture_points[texture_index(g, jj, ii)] == lattice_index(g, jj, ii)
                        &&& texture_points[texture_index(g, jj, ii) + 1] == lattice_index(
                            g,
                            jj,
                            ii,
                        ) + 1
                    },
                forall|jj: int|
                    #![trigger texture_start(g, jj)]
                    1 <= jj < j ==> {
                        &&& 0 <= texture_index(g, jj, 4 * (g - jj))
                        &&& texture_index(g, jj, 4 * (g - jj)) + 1 < texture_points.len()
                        &&& texture_points[texture_index(g, jj, 4 * (g - jj))] == lattice_start(
                            g,
                            jj,
                        )
                        &&& texture_points[texture_index(g, jj, 4 * (g - jj)) + 1]
                            == lattice_start(g, jj) + 1
                    },
            decreases i_len - i,
        {
            let point_index_r: usize = geopoints.len();
            let lon: Fraction = Fraction {
                num: 360 * (i as i64) - 180 * (i_len as i64),
                den: i_len as i64,
            };
            // north, then south
            geopoints.push(GeoPoint { lon, lat: lat_n });
            texture_points.push(point_index_r);
            geopoints.push(GeoPoint { lon, lat: lat_s });
            texture_points.push(point_index_r + 1);
            assert(lattice_index(g, j as int, i as int) == point_index_r);
            assert(texture_index(g, j as int, i as int) == tstart + 2 * i);
            i += 1;
        }
        texture_points.push(start_point_index_n);
        texture_points.push(start_point_index_n + 1);
        assert(texture_index(g, j as int, 4 * (g - j)) == tstart + 2 * i_len);
        j += 1;
    }

    // north and south poles points
    proof {
        lemma_pole_starts(g);
    }
    let point_index_r: usize = geopoints.len();
    geopoints.push(
        GeoPoint { lon: Fraction { num: 0, den: 1 }, lat: Fraction { num: 90, den: 1 } },
    );
    texture_points.push(point_index_r);
    geopoints.push(
        GeoPoint { lon: Fraction { num: 0, den: 1 }, lat: Fraction { num: -90, den: 1 } },
    );
    texture_points.push(point_index_r + 1);

    (geopoints, texture_points)
}

/// The triangles of a model with `gnn` rings per hemisphere.
fn obj_triangles(gnn: usize) -> (elements: Elements)
    requires
        gnn >= 1,
        texture_count(gnn as int) <= usize::MAX,
    ensures
        elements@ == obj_elements(gnn as int),
{
    let ghost g = gnn as int;
    proof {
        lemma_ring_count_bound(g);
        lemma_ring_starts(g, 0);
        lemma_pole_starts(g);
        lemma_ring_starts_monotonic(g, 1, g);
    }
    let mut elements: Elements = Vec::new();

    // equator triangles
    let mut index_low: usize = 0;
    let mut index_hi_n: usize = 4 * gnn + 1;
    let mut index_hi_s: usize = 4 * gnn + 2;
    let i_len: usize = 4 * gnn;
    if i_len > 4 {
        proof {
            lemma_ring_starts(g, 1);
            lemma_ring_starts_monotonic(g, 2, g);
        }
        let mut i: usize = 0;
        while i < i_len
            invariant
                g == gnn,
                gnn >= 2,
                i_len == 4 * g,
                i <= i_len,
                index_low == i,
                index_hi_n == texture_start(g, 1) + 2 * (if i == 0 {
                    0
                } else {
                    lift(i - 1, g)
                }),
                index_hi_s == index_hi_n + 1,
                texture_start(g, 1) + 8 * (g - 1) + 2 <= usize::MAX,
                elements@ == steps_upto(g, 0, i as int),
            decreases i_len - i,
        {
            proof {
                if i >= 1 {
                    lemma_lift_step(i as int, g);
                } else {
                    vstd::arithmetic::div_mod::lemma_fundamental_div_mod_converse(0, g, 0, 0);
                }
                lemma_lift_bound(i as int, g);
                if i >= 1 {
                    lemma_lift_bound(i as int - 1, g);
                }
            }
            let gap: bool = i % gnn != 0;
            if gap {
                index_hi_n += 2;
                index_hi_s += 2;
            }
            assert(index_hi_n == upper_index(g, 0, i as int));
            elements.push((index_low, index_low + 1, index_hi_n));
            elements.push((index_low + 1, index_low, index_hi_s));
            if gap {
                elements.push((index_low, index_hi_n, index_hi_n - 2));
                elements.push((index_low, index_hi_s - 2, index_hi_s));
            }
            assert(elements@ =~= steps_upto(g, 0, i as int) + step_elements(g, 0, i as int));
            index_low += 1;
            i += 1;
        }
        proof {
            lemma_lift_bound(0, g);
            assert(elements@ =~= rings_upto(g, 0) + ring_elements(g, 0));
        }
    }
    // north and south hemisphere triangles

    let mut index_low_n: usize = index_low + 1;
    let mut index_low_s: usize = index_low + 2;
    index_hi_n += 2;
    index_hi_s += 2;
    let mut j: usize = 1;
    while j < gnn - 1
        invariant
            g == gnn,
            gnn >= 1,
            1 <= j,
            gnn >= 2 ==> j <= gnn - 1,
            texture_count(g) <= usize::MAX,
            gnn >= 2 ==> {
                &&& index_low_n == texture_start(g, j as int)
                &&& index_low_s == index_low_n + 1
                &&& index_hi_n == texture_start(g, j + 1)
                &&& index_hi_s == index_hi_n + 1
                &&& elements@ == rings_upto(g, j as int)
            },
            gnn == 1 ==> {
                &&& index_low == 0
                &&& index_hi_n == 7
                &&& index_hi_s == 8
                &&& elements@ == Seq::<(GeoPointIndex, GeoPointIndex, GeoPointIndex)>::empty()
            },
        decreases gnn - j,
    {
        let m: usize = gnn - j;
        let i_len: usize = 4 * m;
        let ghost ring_low = texture_start(g, j as int);
        let ghost ring_hi = texture_start(g, j + 1);
        proof {
            lemma_ring_starts(g, j as int);
            lemma_ring_starts(g, j + 1);
            lemma_ring_starts_monotonic(g, j + 2, g);
            lemma_pole_starts(g);
        }
        let mut i: usize = 0;
        while i < i_len
            invariant
                g == gnn,
                1 <= j < gnn - 1,
                m == g - j,
                i_len == 4 * m,
                i <= i_len,
                ring_low == texture_start(g, j as int),
                ring_hi == texture_start(g, j + 1),
                ring_low + 8 * m + 2 == ring_hi,
                ring_hi + 8 * (m - 1) + 2 <= usize::MAX,
                index_low_n == ring_low + 2 * i,
                index_low_s == index_low_n + 1,
                index_hi_n == ring_hi + 2 * (if i == 0 {
                    0
                } else {
                    lift(i - 1, m as int)
                }),
                index_hi_s == index_hi_n + 1,
                elements@ == rings_upto(g, j as int) + steps_upto(g, j as int, i as int),
            decreases i_len - i,
        {
            proof {
                if i >= 1 {
                    lemma_lift_step(i as int, m as int);
                } else {
                    vstd::arithmetic::div_mod::lemma_fundamental_div_mod_converse(
                        0,
                        m as int,
                        0,
                        0,
                    );
                }
                lemma_lift_bound(i as int, m as int);
                if i >= 1 {
                    lemma_lift_bound(i as int - 1, m as int);
                }
            }
            let gap: bool = i % m != 0;
            if gap {
                index_hi_n += 2;
                index_hi_s += 2;
            }
            assert(index_hi_n == upper_index(g, j as int, i as int));
            assert(index_low_n == lower_index(g, j as int, i as int));
            elements.push((index_low_n, index_low_n + 2, index_hi_n));
            elements.push((index_low_s + 2, index_low_s, index_hi_s));
            if gap {
                elements.push((index_low_n, index_hi_n, index_hi_n - 2));
                elements.push((index_low_s, index_hi_s - 2, index_hi_s));
            }
            assert(elements@ =~= rings_upto(g, j as int) + (steps_upto(g, j as int, i as int)
                + step_elements(g, j as int, i as int)));
            index_low_n += 2;
            index_low_s += 2;
            i += 1;
        }
        proof {
            lemma_lift_bound(0, m as int);
            assert(elements@ =~= rings_upto(g, j as int) + ring_elements(g, j as int));
        }
        index_hi_n += 2;
        index_hi_s += 2;
        index_low_n += 2;
        index_low_s += 2;
        j += 1;
    }

    // pole triangles
    if gnn != 1 {
        let ghost top = g - 1;
        proof {
            lemma_ring_starts(g, top);
        }
        let mut k: usize = 0;
        while k < 4
            invariant
                g == gnn,
                gnn >= 2,
                top == g - 1,
                k <= 4,
                texture_start(g, g) + 1 <= usize::MAX,
                texture_start(g, top) + 10 == texture_start(g, g),
                index_low_n == texture_start(g, top) + 2 * k,
                index_low_s == index_low_n + 1,
                index_hi_n == texture_start(g, g),
                index_hi_s == index_hi_n + 1,
                elements@ == rings_upto(g, top) + steps_upto(g, top, k as int),
            decreases 4 - k,
        {
            assert(lift(k as int, g - top) == 0);
            assert(upper_index(g, top, k as int) == index_hi_n);
            elements.push((index_low_n, index_low_n + 2, index_hi_n));
            elements.push((index_low_s + 2, index_low_s, index_hi_s));
            assert(elements@ =~= rings_upto(g, top) + (steps_upto(g, top, k as int)
                + step_elements(g, top, k as int)));
            index_low_n += 2;
            index_low_s += 2;
            k += 1;
        }
        assert(elements@ =~= rings_upto(g, top) + ring_elements(g, top));
    } else {
        let mut k: usize = 0;
        while k < 4
            invariant
                g == 1,
                k <= 4,
                index_low == k,
                index_hi_n == 7,
                index_hi_s == 8,
                elements@ == steps_upto(g, 0, k as int),
            decreases 4 - k,
        {
            assert(lift(k as int, g) == 0);
            assert(upper_index(g, 0, k as int) == 5);
            elements.push((index_low, index_low + 1, index_hi_n - 2));
            elements.push((index_low + 1, index_low, index_hi_s - 2));
            assert(elements@ =~= steps_upto(g, 0, k as int) + step_elements(g, 0, k as int));
            index_low += 1;
            k += 1;
        }
        assert(elements@ =~= rings_upto(g, 0) + ring_elements(g, 0));
    }
    elements
}

/// The model size that a requested size stands for: the default where none
/// is given, at least the minimum, and even.
pub open spec fn spec_valid_model_size(model_size: Option<GeoPointIndex>) -> GeoPointIndex {
    let wanted = match model_size {
        Some(n) => n,
        None => DEFAULT_MODEL_SIZE,
    };
    if wanted < MIN_VALID_MODEL_SIZE {
        MIN_VALID_MODEL_SIZE
    } else if wanted % 2 == 0 {
        wanted
    } else {
        (wanted - 1) as usize
    }
}

/// `tcs` holds the texture coordinates of a model with `g` rings per
/// hemisphere, in the order of its texture points: the equator at
/// `v = 1/2`, each ring `j` at `v = 1/2 ± j / (2 g)` with `u` running from 0
/// to 1 inclusive, the poles at `v = 1` and `v = 0`.
pub open spec fn is_obj_texture_coordinates(
    tcs: Seq<(Fraction, Fraction)>,
    g: int,
) -> bool {
    &&& tcs.len() == texture_count(g)
    &&& forall|i: int| 0 <= i <= 4 * g ==> #[trigger] tcs[i] == (frac(i, 4 * g), frac(1, 2))
    &&& forall|j: int, i: int|
        #![trigger texture_index(g, j, i)]
        1 <= j < g && 0 <= i <= 4 * (g - j) ==> {
            &&& 0 <= texture_index(g, j, i)
            &&& texture_index(g, j, i) + 1 < tcs.len()
            &&& tcs[texture_index(g, j, i)] == (frac(i, 4 * (g - j)), frac(g + j, 2 * g))
            &&& tcs[texture_index(g, j, i) + 1] == (frac(i, 4 * (g - j)), frac(g - j, 2 * g))
        }
    &&& tcs[4 * g * g + 2 * g - 1] == (frac(0, 1), frac(1, 1))
    &&& tcs[4 * g * g + 2 * g] == (frac(0, 1), frac(0, 1))
}

/// Every index of the triangle is a texture point of a model with `g` rings
/// per hemisphere.
pub open spec fn triangle_in_range(t: (GeoPointIndex, GeoPointIndex, GeoPointIndex), g: int) -> bool {
    t.0 < texture_count(g) && t.1 < texture_count(g) && t.2 < texture_count(g)
}

/// Number of steps among the first `n` of a ring with quarter length `m` at
/// which the upper ring advances.
pub open spec fn gaps_before(n: int, m: int) -> int {
    if n <= 0 {
        0
    } else {
        lift(n - 1, m)
    }
}

/// The first `n` steps of ring `j` give two triangles each and two more for
/// each step at which the upper ring advances, and all of them join texture
/// points of the model.
pub proof fn lemma_steps(g: int, j: int, n: int)
    requires
        0 <= j < g,
        0 <= n <= 4 * (g - j),
    ensures
        steps_upto(g, j, n).len() == 2 * n + 2 * gaps_before(n, g - j),
        forall|k: int|
            0 <= k < steps_upto(g, j, n).len() ==> triangle_in_range(
                #[trigger] steps_upto(g, j, n)[k],
                g,
            ),
    decreases n,
{
    let m = g - j;
    if n > 0 {
        let i = n - 1;
        lemma_steps(g, j, i);
        lemma_lift_bound(i, m);
        if i >= 1 {
            lemma_lift_step(i, m);
        } else {
            vstd::arithmetic::div_mod::lemma_fundamental_div_mod_converse(0, m, 0, 0);
        }
        lemma_ring_starts(g, j);
        lemma_ring_starts_monotonic(g, j + 1, g);
        lemma_pole_starts(g);
        if j + 1 < g {
            lemma_ring_starts(g, j + 1);
            lemma_ring_starts_monotonic(g, j + 2, g);
        }
        let step = step_elements(g, j, i);
        let hn = upper_index(g, j, i);
        let a_n = lower_index(g, j, i);
        assert(0 <= a_n && a_n + 3 < texture_count(g));
        assert(2 <= hn && hn + 1 < texture_count(g));
        assert(i % m != 0 ==> hn - 2 >= 0);
        assert forall|k: int| 0 <= k < step.len() implies triangle_in_range(
            #[trigger] step[k],
            g,
        ) by {
            if texture_count(g) > usize::MAX {
                // a model too large for the machine: every index is in range
                assert(step[k].0 <= usize::MAX && step[k].1 <= usize::MAX && step[k].2
                    <= usize::MAX);
            }
        }
        assert(steps_upto(g, j, n) == steps_upto(g, j, i) + step);
    }
}

/// The rings below ring `k` hold `16 g k - 8 k²` triangles, all of which
/// join texture points of the model.
pub proof fn lemma_rings(g: int, k: int)
    requires
        0 <= k <= g,
    ensures
        rings_upto(g, k).len() == 16 * (g * k) - 8 * (k * k),
        forall|t: int|
            0 <= t < rings_upto(g, k).len() ==> triangle_in_range(
                #[trigger] rings_upto(g, k)[t],
                g,
            ),
    decreases k,
{
    if k > 0 {
        let j = k - 1;
        let m = g - j;
        lemma_rings(g, j);
        lemma_steps(g, j, 4 * m);
        lemma_lift_bound(0, m);
        assert(ring_elements(g, j).len() == 16 * m - 8);
        assert(16 * (g * j) - 8 * (j * j) + 16 * (g - j) - 8 == 16 * (g * k) - 8 * (k * k))
            by (nonlinear_arith)
            requires
                j == k - 1,
        ;
        assert(rings_upto(g, k) == rings_upto(g, j) + ring_elements(g, j));
    } else {
        assert(16 * (g * k) - 8 * (k * k) == 0) by (nonlinear_arith)
            requires
                k == 0,
        ;
    }
}

/// A texture point of ring `j` or a later ring stands for a lattice point.
pub proof fn lemma_ring_texture_point(g: int, map: Seq<GeoPointIndex>, t: int, j: int)
    requires
        1 <= j <= g,
        is_obj_texture_map(map, g),
        texture_start(g, j) <= t < texture_count(g),
    ensures
        map[t] < lattice_count(g),
    decreases g - j,
{
    lemma_pole_starts(g);
    if j < g {
        lemma_ring_starts(g, j);
        lemma_ring_starts_monotonic(g, j + 1, g);
        if t >= texture_start(g, j + 1) {
            lemma_ring_texture_point(g, map, t, j + 1);
        } else {
            let off = t - texture_start(g, j);
            if off >= 8 * (g - j) {
                assert(texture_index(g, j, 4 * (g - j)) == texture_start(g, j) + 8 * (g - j));
            } else {
                let i = off / 2;
                assert(texture_index(g, j, i) == texture_start(g, j) + 2 * i);
                assert(lattice_index(g, j, i) == lattice_start(g, j) + 2 * i);
            }
        }
    }
}

/// Every texture point stands for a lattice point.
pub proof fn lemma_texture_point_in_lattice(g: int, map: Seq<GeoPointIndex>, t: int)
    requires
        1 <= g,
        is_obj_texture_map(map, g),
        0 <= t < texture_count(g),
    ensures
        map[t] < lattice_count(g),
{
    assert(4 * g <= 4 * g * g) by (nonlinear_arith)
        requires
            1 <= g,
    ;
    if t > 4 * g {
        lemma_ring_starts(g, 0);
        lemma_ring_texture_point(g, map, t, 1);
    } else if t < 4 * g {
        assert(map[t] == t);
    }
}

/// A model with `g` rings per hemisphere has `4 g² + 2` lattice points,
/// `4 g² + 2 g + 1` texture points and `8 g²` triangles; every triangle
/// joins texture points, and every texture point stands for a lattice
/// point.
pub proof fn lemma_obj_counts(
    g: int,
    sp: Coord,
    pts: Seq<GeoPoint>,
    map: Seq<GeoPointIndex>,
    elements: Seq<(GeoPointIndex, GeoPointIndex, GeoPointIndex)>,
)
    requires
        1 <= g,
        is_obj_lattice(pts, g, sp),
        is_obj_texture_map(map, g),
        elements == obj_elements(g),
    ensures
        pts.len() == 4 * g * g + 2,
        map.len() == 4 * g * g + 2 * g + 1,
        elements.len() == 8 * g * g,
        forall|t: int|
            0 <= t < elements.len() ==> {
                &&& (#[trigger] elements[t]).0 < map.len()
                &&& elements[t].1 < map.len()
                &&& elements[t].2 < map.len()
            },
        forall|t: int| 0 <= t < map.len() ==> #[trigger] map[t] < pts.len(),
{
    assert forall|t: int| 0 <= t < map.len() implies #[trigger] map[t] < pts.len() by {
        lemma_texture_point_in_lattice(g, map, t);
    }
    lemma_rings(g, g);
    assert(16 * (g * g) - 8 * (g * g) == 8 * g * g) by (nonlinear_arith);
    assert forall|t: int| 0 <= t < elements.len() implies {
        &&& (#[trigger] elements[t]).0 < map.len()
        &&& elements[t].1 < map.len()
        &&& elements[t].2 < map.len()
    } by {
        assert(triangle_in_range(rings_upto(g, g)[t], g));
    }
}

/// A model of an even size `m` has `m² + 2` lattice points, `m² + m + 1`
/// texture points and `2 m²` triangles.
pub proof fn lemma_obj_counts_by_size(model_size: int)
    requires
        2 <= model_size,
        model_size % 2 == 0,
    ensures
        lattice_count(model_size / 2) == model_size * model_size + 2,
        texture_count(model_size / 2) == model_size * model_size + model_size + 1,
        obj_elements(model_size / 2).len() == 2 * model_size * model_size,
{
    let g = model_size / 2;
    lemma_rings(g, g);
    assert(4 * g * g == model_size * model_size && 16 * (g * g) - 8 * (g * g) == 2 * model_size
        * model_size) by (nonlinear_arith)
        requires
            model_size == 2 * g,
    ;
}

/// A model of the pole-collapsing topology.
#[derive(Debug)]
pub struct Obj {
    pub heights: Heights,
    pub modelpoints: ModelPoints,
    pub elements: Elements,
    pub model_type_data: ModelTypeData,
    pub color_precision: ColorPrecision,
}

/// The complaint about a texture point that the mapping does not hold.
pub open spec fn missing_point_message(corner: Seq<char>, index: GeoPointIndex) -> Seq<char> {
    "Point "@ + corner + "="@ + decimal_digits(index as nat) + " isn't found in points mapping"@
}

/// The lattice points of the corners of a triangle, or the complaint about
/// the first corner that the mapping does not hold.
pub open spec fn spec_face(
    map: Seq<GeoPointIndex>,
    element: (GeoPointIndex, GeoPointIndex, GeoPointIndex),
) -> Result<(GeoPointIndex, GeoPointIndex, GeoPointIndex), Seq<char>> {
    if element.0 >= map.len() {
        Err(missing_point_message("tv0"@, element.0))
    } else if element.1 >= map.len() {
        Err(missing_point_message("tv1"@, element.1))
    } else if element.2 >= map.len() {
        Err(missing_point_message("tv2"@, element.2))
    } else {
        Ok((map[element.0 as int], map[element.1 as int], map[element.2 as int]))
    }
}

/// The faces of the first `n` triangles, or the complaint about the first
/// triangle with a corner that the mapping does not hold.
pub open spec fn faces_upto(
    map: Seq<GeoPointIndex>,
    elements: Seq<(GeoPointIndex, GeoPointIndex, GeoPointIndex)>,
    n: int,
) -> Result<Seq<(GeoPointIndex, GeoPointIndex, GeoPointIndex)>, Seq<char>>
    decreases n,
{
    if n <= 0 {
        Ok(Seq::empty())
    } else {
        match faces_upto(map, elements, n - 1) {
            Err(e) => Err(e),
            Ok(faces) => match spec_face(map, elements[n - 1]) {
                Err(e) => Err(e),
                Ok(face) => Ok(faces.push(face)),
            },
        }
    }
}

/// The faces of a model, each triangle over lattice points; a model
/// without a mapping of its texture points has none to offer.
pub open spec fn spec_faces(
    points_map_opt: Option<Seq<GeoPointIndex>>,
    elements: Seq<(GeoPointIndex, GeoPointIndex, GeoPointIndex)>,
) -> Result<Seq<(GeoPointIndex, GeoPointIndex, GeoPointIndex)>, Seq<char>> {
    match points_map_opt {
        None => Err("Critical: Texture Appearance must use points mapping"@),
        Some(map) => faces_upto(map, elements, elements.len() as int),
    }
}

/// A complaint stands: the triangles that follow do not change it.
pub proof fn lemma_faces_error_stands(
    map: Seq<GeoPointIndex>,
    elements: Seq<(GeoPointIndex, GeoPointIndex, GeoPointIndex)>,
    l: int,
    n: int,
)
    requires
        0 <= l <= n,
        faces_upto(map, elements, l) is Err,
    ensures
        faces_upto(map, elements, n) == faces_upto(map, elements, l),
    decreases n - l,
{
    if l < n {
        lemma_faces_error_stands(map, elements, l, n - 1);
    }
}

/// The triangles of the topology have faces: each corner is a texture
/// point that the mapping holds.
pub proof fn lemma_obj_faces(g: int, map: Seq<GeoPointIndex>, n: int)
    requires
        1 <= g,
        is_obj_texture_map(map, g),
        0 <= n <= obj_elements(g).len(),
    ensures
        faces_upto(map, obj_elements(g), n) is Ok,
    decreases n,
{
    if n > 0 {
        lemma_obj_faces(g, map, n - 1);
        lemma_rings(g, g);
        assert(triangle_in_range(rings_upto(g, g)[n - 1], g));
    }
}

/// The complaint about a texture point that the mapping does not hold.
fn make_missing_point_message(corner: &str, index: GeoPointIndex) -> (msg: String)
    ensures
        msg@ == missing_point_message(corner@, index),
{
    let mut msg: String = with_prefix("Point ", corner);
    msg.append("=");
    let number: String = decimal(index);
    msg.append(number.as_str());
    msg.append(" isn't found in points mapping");
    msg
}

/// The lattice points of the corners of a triangle.
fn face_of(map: &PointsMapping, element: (GeoPointIndex, GeoPointIndex, GeoPointIndex)) -> (r: Result<
    (GeoPointIndex, GeoPointIndex, GeoPointIndex),
    String,
>)
    ensures
        match spec_face(map@, element) {
            Ok(face) => r == Ok::<(GeoPointIndex, GeoPointIndex, GeoPointIndex), String>(face),
            Err(e) => r matches Err(msg) && msg@ == e,
        },
{
    let (tvt0, tvt1, tvt2) = element;
    if tvt0 >= map.len() {
        Err(make_missing_point_message("tv0", tvt0))
    } else if tvt1 >= map.len() {
        Err(make_missing_point_message("tv1", tvt1))
    } else if tvt2 >= map.len() {
        Err(make_missing_point_message("tv2", tvt2))
    } else {
        Ok((map[tvt0], map[tvt1], map[tvt2]))
    }
}

impl Obj {
    /// Texture model constructor
    pub fn build_texture_model(
        heights: Heights,
        modelpoints: ModelPoints,
        elements: Elements,
        model_type_data: ModelTypeData,
    ) -> (model: Obj)
        ensures
            model == (Obj { heights, modelpoints, elements, model_type_data, color_precision: 0 }),
    {
        Obj { heights, modelpoints, elements, model_type_data, color_precision: 0 }
    }

    /// Color model constructor
    pub fn build_color_model(
        heights: Heights,
        modelpoints: ModelPoints,
        elements: Elements,
        model_type_data: ModelTypeData,
        color_precision: ColorPrecision,
    ) -> (model: Obj)
        ensures
            model == (Obj { heights, modelpoints, elements, model_type_data, color_precision }),
    {
        Obj { heights, modelpoints, elements, model_type_data, color_precision }
    }

    /// The faces of the model: each triangle over the lattice points of its
    /// corners. Fails on a model without a mapping of its texture points,
    /// and on the first triangle with a corner that the mapping does not
    /// hold.
    pub fn faces(&self) -> (r: Result<Vec<(GeoPointIndex, GeoPointIndex, GeoPointIndex)>, String>)
        ensures
            match spec_faces(
                match self.modelpoints.points_map_opt {
                    Some(map) => Some(map@),
                    None => None,
                },
                self.elements@,
            ) {
                Ok(faces) => r matches Ok(v) && v@ == faces,
                Err(e) => r matches Err(msg) && msg@ == e,
            },
    {
        let pmap: &PointsMapping = match &self.modelpoints.points_map_opt {
            None => {
                return Err(String::from_str("Critical: Texture Appearance must use points mapping"));
            },
            Some(a) => a,
        };
        let mut faces: Vec<(GeoPointIndex, GeoPointIndex, GeoPointIndex)> = Vec::new();
        let mut n: usize = 0;
        while n < self.elements.len()
            invariant
                n <= self.elements.len(),
                self.modelpoints.points_map_opt == Some(*pmap),
                faces_upto(pmap@, self.elements@, n as int) == Ok::<
                    Seq<(GeoPointIndex, GeoPointIndex, GeoPointIndex)>,
                    Seq<char>,
                >(faces@),
            decreases self.elements.len() - n,
        {
            match face_of(pmap, self.elements[n]) {
                Ok(face) => {
                    faces.push(face);
                },
                Err(msg) => {
                    proof {
                        lemma_faces_error_stands(
                            pmap@,
                            self.elements@,
                            n + 1,
                            self.elements.len() as int,
                        );
                    }
                    return Err(msg);
                },
            }
            n += 1;
        }
        Ok(faces)
    }

    /// The nearest valid model size: the default where none is asked for,
    /// at least the minimum, and even.
    pub fn make_valid_model_size(model_size: Option<GeoPointIndex>) -> (r: GeoPointIndex)
        ensures
            r == spec_valid_model_size(model_size),
            r >= MIN_VALID_MODEL_SIZE,
            r % 2 == 0,
    {
        let wanted: usize = match model_size {
            Some(n) => n,
            None => DEFAULT_MODEL_SIZE,
        };
        if wanted < MIN_VALID_MODEL_SIZE {
            MIN_VALID_MODEL_SIZE
        } else {
            if 2 * (wanted / 2) == wanted {
                wanted
            } else {
                wanted - 1
            }
        }
    }

    /// The spacing of the equator points, in degrees: `180 / model_size`.
    pub fn define_spacing(model_size: GeoPointIndex) -> (sp: Coord)
        requires
            0 < model_size <= i64::MAX,
        ensures
            sp == frac(180, model_size as int),
            sp.wf(),
            spacing_spans_quarter(sp, model_size as int / 2),
    {
        Fraction { num: 180, den: model_size as i64 }
    }

    /// The lattice, the texture map and the triangles of a model of the
    /// given size, whose equator points are `j_spacing` apart.
    pub fn create_modelpoints(model_size: GeoPointIndex, j_spacing: Coord) -> (res: (
        ModelPoints,
        Elements,
    ))
        requires
            obj_size_fits(model_size as int, j_spacing),
        ensures
            is_obj_lattice(res.0.geopoints@, model_size as int / 2, j_spacing),
            res.0.points_map_opt is Some,
            is_obj_texture_map(res.0.points_map_opt->0@, model_size as int / 2),
            res.1@ == obj_elements(model_size as int / 2),
            forall|k: int|
                0 <= k < res.0.geopoints@.len() ==> (#[trigger] res.0.geopoints@[k]).placed(
                    spacing_spans_quarter(j_spacing, model_size as int / 2),
                ),
    {
        let gnn: usize = model_size / 2;
        proof {
            assert(magnitude(j_spacing.num as int) * (4 * gnn) <= magnitude(j_spacing.num as int)
                * (2 * model_size)) by (nonlinear_arith)
                requires
                    4 * gnn <= 2 * model_size,
                    magnitude(j_spacing.num as int) >= 0,
            ;
        }
        let (geopoints, texture_points) = obj_points(gnn, j_spacing);
        let elements = obj_triangles(gnn);
        (ModelPoints { geopoints, points_map_opt: Some(texture_points) }, elements)
    }

    /// The texture coordinates of the texture points of a model of the given
    /// size.
    pub fn create_texture_coordinates(model_size: GeoPointIndex) -> (tcs: TextureCoordinates)
        requires
            model_size >= 2,
            texture_count(model_size as int / 2) <= usize::MAX,
        ensures
            is_obj_texture_coordinates(tcs@, model_size as int / 2),
    {
        let gnn: usize = model_size / 2;
        let ghost g = gnn as int;
        proof {
            lemma_ring_count_bound(g);
            lemma_ring_starts(g, 0);
        }
        let mut texture_coordinates: TextureCoordinates = Vec::new();
        let half: Fraction = Fraction { num: 1, den: 2 };

        // equator points
        let e_len: usize = 4 * gnn;
        let mut i: usize = 0;
        while i <= e_len
            invariant
                g == gnn,
                gnn >= 1,
                g < 0x8000_0000,
                e_len == 4 * g,
                i <= e_len + 1,
                half == frac(1, 2),
                texture_coordinates.len() == i,
                forall|k: int|
                    0 <= k < i ==> #[trigger] texture_coordinates[k] == (frac(k, 4 * g), frac(1, 2)),
            decreases e_len + 1 - i,
        {
            texture_coordinates.push((Fraction { num: i as i64, den: e_len as i64 }, half));
            i += 1;
        }

        // north and south hemispheres points
        let mut j: usize = 1;
        while j < gnn
            invariant
                g == gnn,
                gnn >= 1,
                g < 0x8000_0000,
                texture_count(g) <= usize::MAX,
                1 <= j <= gnn,
                texture_coordinates.len() == texture_start(g, j as int),
                forall|k: int|
                    0 <= k <= 4 * g ==> #[trigger] texture_coordinates[k] == (
                        frac(k, 4 * g),
                        frac(1, 2),
                    ),
                forall|jj: int, ii: int|
                    #![trigger texture_index(g, jj, ii)]
                    1 <= jj < j && 0 <= ii <= 4 * (g - jj) ==> {
                        &&& 0 <= texture_index(g, jj, ii)
                        &&& texture_index(g, jj, ii) + 1 < texture_coordinates.len()
                        &&& texture_coordinates[texture_index(g, jj, ii)] == (
                            frac(ii, 4 * (g - jj)),
                            frac(g + jj, 2 * g),
                        )
                        &&& texture_coordinates[texture_index(g, jj, ii) + 1] == (
                            frac(ii, 4 * (g - jj)),
                            frac(g - jj, 2 * g),
                        )
                    },
            decreases gnn - j,
        {
            let i_len: usize = 4 * (gnn - j);
            let ghost tstart = texture_coordinates.len() as int;
            proof {
                lemma_ring_starts(g, j as int);
                lemma_ring_starts_monotonic(g, j as int + 1, g);
                lemma_pole_starts(g);
            }
            let v_n: Fraction = Fraction { num: (gnn + j) as i64, den: (2 * gnn) as i64 };
            let v_s: Fraction = Fraction { num: (gnn - j) as i64, den: (2 * gnn) as i64 };
            let mut i: usize = 0;
            while i <= i_len
                invariant
                    g == gnn,
                    1 <= j < gnn,
                    g < 0x8000_0000,
                    i_len == 4 * (g - j),
                    i <= i_len + 1,
                    tstart == texture_start(g, j as int),
                    tstart > 4 * g,
                    texture_start(g, j as int) + 8 * (g - j) + 2 <= usize::MAX,
                    texture_coordinates.len() == tstart + 2 * i,
                    v_n == frac(g + j, 2 * g),
                    v_s == frac(g - j, 2 * g),
                    forall|k: int|
                        0 <= k <= 4 * g ==> #[trigger] texture_coordinates[k] == (
                            frac(k, 4 * g),
                            frac(1, 2),
                        ),
                    forall|jj: int, ii: int|
                        #![trigger texture_index(g, jj, ii)]
                        (1 <= jj < j && 0 <= ii <= 4 * (g - jj)) || (jj == j && 0 <= ii < i) ==> {
                            &&& 0 <= texture_index(g, jj, ii)
                            &&& texture_index(g, jj, ii) + 1 < texture_coordinates.len()
                            &&& texture_coordinates[texture_index(g, jj, ii)] == (
                                frac(ii, 4 * (g - jj)),
                                frac(g + jj, 2 * g),
                            )
                            &&& texture_coordinates[texture_index(g, jj, ii) + 1] == (
                                frac(ii, 4 * (g - jj)),
                                frac(g - jj, 2 * g),
                            )
                        },
                decreases i_len + 1 - i,
            {
                let u: Fraction = Fraction { num: i as i64, den: i_len as i64 };
                // north, then south
                texture_coordinates.push((u, v_n));
                texture_coordinates.push((u, v_s));
                assert(texture_index(g, j as int, i as int) == tstart + 2 * i);
                i += 1;
            }
            j += 1;
        }

        // north and south pole points
        proof {
            lemma_pole_starts(g);
        }
        texture_coordinates.push((Fraction { num: 0, den: 1 }, Fraction { num: 1, den: 1 }));
        texture_coordinates.push((Fraction { num: 0, den: 1 }, Fraction { num: 0, den: 1 }));
        texture_coordinates
    }
}

} // verus!

//! Numeric types of the model: exact fractions, points and indices.

use vstd::prelude::*;

verus! {

/// Elevation in whole metres.
pub type Height = i16;

/// Elevation as stored in a tile.
pub type HeightInt = i16;

/// Index of a lattice point or of a texture point.
pub type GeoPointIndex = usize;

/// An exact fraction `num / den`.
#[derive(Clone, Copy, Debug)]
pub struct Fraction {
    pub num: i64,
    pub den: i64,
}

/// A coordinate in degrees.
pub type Coord = Fraction;

/// A texture coordinate in `[0, 1]`.
pub type TextureCoordinate = Fraction;

/// A point on the planet: longitude and latitude in degrees.
#[derive(Clone, Copy, Debug)]
pub struct GeoPoint {
    pub lon: Coord,
    pub lat: Coord,
}

impl GeoPoint {
    /// Both coordinates are well-formed fractions.
    pub open spec fn wf(&self) -> bool {
        self.lon.wf() && self.lat.wf()
    }

    /// The point lies on the planet: its longitude in `[-180, 180)`, its
    /// latitude in `[-90, 90]`.
    pub open spec fn on_planet(&self) -> bool {
        &&& self.wf()
        &&& -180 * self.lon.den <= self.lon.num < 180 * self.lon.den
        &&& -90 * self.lat.den <= self.lat.num <= 90 * self.lat.den
    }

    /// The point is well formed, and lies on the planet where that is
    /// asked for.
    pub open spec fn placed(&self, on_planet: bool) -> bool {
        self.wf() && (on_planet ==> self.on_planet())
    }
}

/// The fraction `num / den` of two integers that fit the machine.
pub open spec fn frac(num: int, den: int) -> Fraction {
    Fraction { num: num as i64, den: den as i64 }
}

impl Fraction {
    /// A fraction is well formed when its denominator is positive.
    pub open spec fn wf(&self) -> bool {
        self.den > 0
    }

    /// The largest integer not above the fraction.
    pub open spec fn spec_floor(&self) -> int {
        self.num as int / self.den as int
    }

    /// The fraction lies in `[0, 1]`.
    pub open spec fn is_unit(&self) -> bool {
        0 <= self.num <= self.den && self.den > 0
    }

    /// The largest integer not above the fraction.
    pub fn floor(&self) -> (r: i64)
        requires
            self.wf(),
        ensures
            r == self.spec_floor(),
    {
        let n: i64 = self.num;
        let d: i64 = self.den;
        if n >= 0 {
            n / d
        } else {
            // n < 0: floor(n / d) = -ceil(-n / d) = -((-(n + 1)) / d + 1)
            let m: i64 = -(n + 1);
            let q: i64 = m / d;
            proof {
                lemma_floor_negative(n as int, d as int);
            }
            -q - 1
        }
    }
}

/// For a negative numerator, the floor is found from a division of
/// non-negative numbers.
pub proof fn lemma_floor_negative(n: int, d: int)
    requires
        n < 0,
        d > 0,
    ensures
        n / d == -((-(n + 1)) / d) - 1,
{
    let m = -(n + 1);
    let q = m / d;
    let r = m % d;
    vstd::arithmetic::div_mod::lemma_fundamental_div_mod(m, d);
    vstd::arithmetic::div_mod::lemma_mod_bound(m, d);
    // n = -m - 1 = -(d * q + r) - 1 = d * (-q - 1) + (d - 1 - r)
    assert(n == d * (-q - 1) + (d - 1 - r)) by (nonlinear_arith)
        requires
            m == d * q + r,
            n == -m - 1,
    ;
    vstd::arithmetic::div_mod::lemma_fundamental_div_mod_converse(n, d, -q - 1, d - 1 - r);
}

} // verus!

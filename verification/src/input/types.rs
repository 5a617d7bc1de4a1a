//! Tiles, and what an elevation source offers.

use crate::common::types::{GeoPoint, Height, HeightInt};
use crate::common::util::{decimal_i16, signed_digits};
use std::sync::atomic::AtomicUsize;
use std::sync::atomic::Ordering;
use vstd::prelude::*;
use vstd::string::StringExecFns;

verus! {

pub type CoordInt = i16;

/// Number of tiles that cover the planet.
pub const TILE_SPACE: usize = 64800;

/// The largest limit up to which tiles can be counted: beyond it a
/// longitude no longer fits its 16 bits.
pub const TILE_LIMIT_MAX: usize = 5898240;

/// The tile whose extent is `[lon, lon + 1) x [lat, lat + 1)` degrees.
#[derive(Debug, Clone, Copy, PartialEq, Eq, Hash, Structural)]
pub struct TileID {
    pub lon: CoordInt,
    pub lat: CoordInt,
}

/// An integer brought into the range of 16 bits.
pub open spec fn clamp_i16(x: int) -> i16 {
    if x < -32768 {
        -32768i16
    } else if x > 32767 {
        32767i16
    } else {
        x as i16
    }
}

/// The tile that holds a point: both coordinates rounded down.
pub open spec fn tile_of(p: GeoPoint) -> TileID {
    TileID { lon: clamp_i16(p.lon.spec_floor()), lat: clamp_i16(p.lat.spec_floor()) }
}

/// The tile with the given number in the sequence of tiles: west to east,
/// and south to north within one longitude.
pub open spec fn tile_at(count: int) -> TileID {
    TileID { lon: (count / 180 - 180) as i16, lat: (count % 180 - 90) as i16 }
}

impl TileID {
    /// The tile lies on the planet.
    pub open spec fn in_domain(&self) -> bool {
        -180 <= self.lon < 180 && -90 <= self.lat < 90
    }

    /// The number of a tile of the planet in the sequence of tiles.
    pub open spec fn sequence_number(&self) -> int {
        (self.lon + 180) * 180 + (self.lat + 90)
    }

    /// The tile as text.
    pub open spec fn spec_text(&self) -> Seq<char> {
        "TileId ("@ + signed_digits(self.lon as int) + ", "@ + signed_digits(self.lat as int)
            + ")"@
    }

    /// Whether the tile lies on the planet.
    pub fn is_in_domain(&self) -> (b: bool)
        ensures
            b == self.in_domain(),
    {
        -180 <= self.lon && self.lon < 180 && -90 <= self.lat && self.lat < 90
    }

    /// Takes the next number from the shared counter.
    pub fn next_integer(counter: &AtomicUsize) -> usize {
        counter.fetch_add(1, Ordering::SeqCst)
    }

    /// The tile with the given number, while the number is below the limit.
    pub fn from_count(count: usize, limit: usize) -> (r: Option<TileID>)
        requires
            limit <= TILE_LIMIT_MAX,
        ensures
            r == (if count >= limit {
                None
            } else {
                Some(tile_at(count as int))
            }),
    {
        if count >= limit {
            None
        } else {
            Some(TileID { lon: ((count / 180) as i32 - 180) as i16, lat: ((count % 180) as i16) - 90 })
        }
    }

    /// The next tile of the sequence that the workers share: each call takes
    /// one number from the counter, and the sequence ends at the limit.
    pub fn next(counter: &AtomicUsize, limit: usize) -> (r: Option<TileID>)
        requires
            limit <= TILE_LIMIT_MAX,
        ensures
            r matches Some(t) ==> exists|count: int| 0 <= count < limit && t == tile_at(count),
    {
        let count: usize = TileID::next_integer(counter);
        TileID::from_count(count, limit)
    }

    /// The tile as text: `TileId (lon, lat)`.
    pub fn text(&self) -> (s: String)
        ensures
            s@ == self.spec_text(),
    {
        let mut s: String = String::from_str("TileId (");
        let lon: String = decimal_i16(self.lon);
        s.append(lon.as_str());
        s.append(", ");
        let lat: String = decimal_i16(self.lat);
        s.append(lat.as_str());
        s.append(")");
        s
    }
}

/// The numbers below the size of the tile space and the tiles of the planet
/// stand one to one: each number gives a tile of the planet, each tile of
/// the planet has its number, and the two mappings undo each other.
pub proof fn lemma_tile_sequence(count: int, t: TileID)
    ensures
        0 <= count < TILE_SPACE ==> tile_at(count).in_domain() && tile_at(count).sequence_number()
            == count,
        t.in_domain() ==> 0 <= t.sequence_number() < TILE_SPACE && tile_at(t.sequence_number())
            == t,
{
}

/// What an elevation source is configured with and knows of its tiles.
pub trait DataSourceOpts: Sized {
    /// The elevation that stands for the sea.
    spec fn sea_level(&self) -> HeightInt;

    /// The sample value that marks missing data.
    spec fn nodata(&self) -> HeightInt;

    /// The source's options; its own defaults take the place of what is not
    /// given.
    fn new_opts(nodata: Option<HeightInt>, sea_level: Option<HeightInt>) -> (opts: Self)
        ensures
            nodata matches Some(n) ==> opts.nodata() == n,
            sea_level matches Some(s) ==> opts.sea_level() == s,
    ;

    /// Get sea level
    fn get_sea_level(&self) -> (r: HeightInt)
        ensures
            r == self.sea_level(),
    ;

    /// Get nodata value
    fn get_nodata(&self) -> (r: HeightInt)
        ensures
            r == self.nodata(),
    ;

    /// The tile that holds the point.
    fn find_tile_id(&self, geo_point: &GeoPoint) -> (t: TileID)
        requires
            geo_point.wf(),
        ensures
            t == tile_of(*geo_point),
    ;

    /// The size of the tile space: the limit of the tile sequence.
    fn get_max_number_of_tiles(&self) -> (n: usize)
        ensures
            n <= TILE_LIMIT_MAX,
    ;
}

/// The samples of one tile.
pub trait TileData: Sized {
    /// The tile holds what its source promises.
    spec fn wf(&self) -> bool;

    /// The elevation at a point: none outside the tile.
    spec fn height_at(&self, geo_point: GeoPoint) -> Option<Height>;

    /// Calculate elevation at geographic coordinates
    fn calc_height(&self, geo_point: &GeoPoint) -> (h: Option<Height>)
        requires
            self.wf(),
            geo_point.wf(),
        ensures
            h == self.height_at(*geo_point),
    ;
}

} // verus!

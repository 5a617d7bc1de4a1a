//! Tiles of one degree with samples every three arc seconds.

use crate::common::types::{Fraction, GeoPoint, Height, HeightInt};
use crate::common::util::{be_i16_seq, decimal, decimal_digits, digit_char, digit_str, vec_u8_to_i16, with_prefix};
use crate::input::types::{clamp_i16, tile_of, CoordInt, DataSourceOpts, TileData, TileID, TILE_SPACE};
use vstd::prelude::*;
use vstd::string::StringExecFns;

verus! {

/// Number of sample intervals along one edge of a tile.
pub const DEM_SIZE: usize = 1200;

/// Number of samples along one edge of a tile.
pub const DEM_EDGE_SIZE: usize = 1201;

/// Number of samples of a tile.
pub const DEM_ARRAY_SIZE: usize = 1442401;

/// Number of bytes of a tile file.
pub const DEM_FILE_SIZE: usize = 2884802;

pub const DEFAULT_NODATA: HeightInt = -32767;

pub const DEFAULT_SEA_LEVEL: HeightInt = 0;

/// Arc3Sec dem options type
#[derive(Debug, Clone, Copy)]
pub struct DemArc3SecOpts {
    pub nodata: HeightInt,
    pub sea_level: HeightInt,
}

/// The largest integer not above the fraction, as a 16-bit coordinate.
fn floor_i16(x: &Fraction) -> (r: i16)
    requires
        x.wf(),
    ensures
        r == clamp_i16(x.spec_floor()),
{
    let f: i64 = x.floor();
    if f < -32768 {
        -32768
    } else if f > 32767 {
        32767
    } else {
        f as i16
    }
}

impl DataSourceOpts for DemArc3SecOpts {
    open spec fn sea_level(&self) -> HeightInt {
        self.sea_level
    }

    open spec fn nodata(&self) -> HeightInt {
        self.nodata
    }

    /// Constructor of DemArc3SecOpts struct
    fn new_opts(nodata: Option<HeightInt>, sea_level: Option<HeightInt>) -> (opts: Self)
        ensures
            opts.nodata == (match nodata {
                Some(n) => n,
                None => DEFAULT_NODATA,
            }),
            opts.sea_level == (match sea_level {
                Some(s) => s,
                None => DEFAULT_SEA_LEVEL,
            }),
    {
        DemArc3SecOpts {
            nodata: match nodata {
                Some(n) => n,
                None => DEFAULT_NODATA,
            },
            sea_level: match sea_level {
                Some(s) => s,
                None => DEFAULT_SEA_LEVEL,
            },
        }
    }

    /// Get sea level
    fn get_sea_level(&self) -> (r: HeightInt) {
        self.sea_level
    }

    /// Get nodata value
    fn get_nodata(&self) -> (r: HeightInt) {
        self.nodata
    }

    /// Finds tileId for tile containing specified geopoint
    fn find_tile_id(&self, geo_point: &GeoPoint) -> (t: TileID) {
        TileID { lon: floor_i16(&geo_point.lon), lat: floor_i16(&geo_point.lat) }
    }

    /// Get maximum number of tiles
    fn get_max_number_of_tiles(&self) -> (n: usize)
        ensures
            n == TILE_SPACE,
    {
        TILE_SPACE
    }
}

/// The samples of one tile, row by row from its north-west corner.
#[derive(Debug)]
pub struct DemArc3SecData {
    pub lon_left: CoordInt,
    pub lat_bottom: CoordInt,
    pub nodata: HeightInt,
    pub sea_level: HeightInt,
    pub dem_data: Option<Vec<i16>>,
}

/// The coordinate lies in the degree that starts at `start`.
pub open spec fn in_degree(x: Fraction, start: int) -> bool {
    start * x.den <= x.num < (start + 1) * x.den
}

/// The sample interval that holds a coordinate of the degree that starts at
/// `start`: the offset into the degree in units of sample intervals,
/// rounded down.
pub open spec fn cell_of(x: Fraction, start: int) -> int {
    ((x.num - start * x.den) * 1200) / (x.den as int)
}

/// Two digits, with a leading zero where needed.
pub open spec fn two_digits(n: int) -> Seq<char> {
    seq![digit_char(n / 10), digit_char(n % 10)]
}

/// Three digits, with leading zeros where needed.
pub open spec fn three_digits(n: int) -> Seq<char> {
    seq![digit_char(n / 100), digit_char((n / 10) % 10), digit_char(n % 10)]
}

/// The name of the file of a tile: the hemisphere and the degrees of the
/// latitude of its south-west corner, then those of its longitude.
pub open spec fn spec_tile_file_name(t: TileID) -> Seq<char> {
    (if t.lat >= 0 {
        seq!['N'] + two_digits(t.lat as int)
    } else {
        seq!['S'] + two_digits(-t.lat)
    }) + (if t.lon >= 0 {
        seq!['E'] + three_digits(t.lon as int)
    } else {
        seq!['W'] + three_digits(-t.lon)
    }) + ".hgt"@
}

/// A coordinate inside a degree falls into one of its 1200 sample
/// intervals.
pub proof fn lemma_cell_bounds(x: Fraction, start: int)
    requires
        x.wf(),
        in_degree(x, start),
    ensures
        0 <= cell_of(x, start) < 1200,
{
    let d = x.num - start * x.den;
    let den = x.den as int;
    assert(0 <= d < den) by (nonlinear_arith)
        requires
            d == x.num - start * x.den,
            start * x.den <= x.num < (start + 1) * x.den,
            den == x.den,
    ;
    vstd::arithmetic::div_mod::lemma_fundamental_div_mod(d * 1200, den);
    vstd::arithmetic::div_mod::lemma_mod_bound(d * 1200, den);
    let q = (d * 1200) / den;
    let r = (d * 1200) % den;
    assert(0 <= q < 1200) by (nonlinear_arith)
        requires
            d * 1200 == den * q + r,
            0 <= r < den,
            0 <= d < den,
    ;
}

/// The name of the file that holds a tile of the planet.
pub fn tile_file_name(tile_id: &TileID) -> (name: String)
    requires
        tile_id.in_domain(),
    ensures
        name@ == spec_tile_file_name(*tile_id),
{
    proof {
        reveal_strlit("N");
        reveal_strlit("S");
        reveal_strlit("E");
        reveal_strlit("W");
    }
    let lat: i16 = tile_id.lat;
    let lon: i16 = tile_id.lon;
    let mut name: String = if lat >= 0 {
        String::from_str("N")
    } else {
        String::from_str("S")
    };
    let lat_abs: u8 = if lat >= 0 {
        lat as u8
    } else {
        (-lat) as u8
    };
    name.append(digit_str(lat_abs / 10));
    name.append(digit_str(lat_abs % 10));
    if lon >= 0 {
        name.append("E");
    } else {
        name.append("W");
    }
    let lon_abs: u8 = if lon >= 0 {
        lon as u8
    } else {
        (-lon) as u8
    };
    name.append(digit_str(lon_abs / 100));
    name.append(digit_str((lon_abs / 10) % 10));
    name.append(digit_str(lon_abs % 10));
    name.append(".hgt");
    assert(name@ =~= spec_tile_file_name(*tile_id));
    name
}

impl DemArc3SecData {
    /// The sample at column `i` of row `j`, rows counted from the north.
    pub open spec fn sample(&self, i: int, j: int) -> Option<i16> {
        match self.dem_data {
            Some(data) => Some(data@[j * 1201 + i]),
            None => None,
        }
    }

    /// What `load` answers for a tile and the bytes of its file, where the
    /// file was found.
    pub open spec fn spec_load(
        nodata: HeightInt,
        sea_level: HeightInt,
        tile_id: TileID,
        file: Option<Seq<u8>>,
    ) -> Result<Option<(CoordInt, CoordInt, HeightInt, HeightInt, Seq<i16>)>, Seq<char>> {
        if !tile_id.in_domain() {
            Err("Invalid tile specification: "@ + tile_id.spec_text())
        } else {
            match file {
                None => Ok(None),
                Some(bytes) => if bytes.len() != DEM_FILE_SIZE {
                    Err(
                        "Invalid file size of "@ + tile_id.spec_text() + ": "@ + decimal_digits(
                            bytes.len(),
                        ),
                    )
                } else {
                    Ok(Some((tile_id.lon, tile_id.lat, nodata, sea_level, be_i16_seq(bytes))))
                },
            }
        }
    }

    /// The tile as the plain values that `spec_load` speaks of.
    pub open spec fn content(&self) -> (CoordInt, CoordInt, HeightInt, HeightInt, Seq<i16>) {
        (self.lon_left, self.lat_bottom, self.nodata, self.sea_level, self.dem_data->0@)
    }

    /// Get elevation at i row and j column in dem tile
    pub fn get_dem_height(&self, i: usize, j: usize) -> (h: Option<i16>)
        requires
            TileData::wf(self),
            i < DEM_EDGE_SIZE,
            j < DEM_EDGE_SIZE,
        ensures
            h == self.sample(i as int, j as int),
    {
        match &self.dem_data {
            Some(data) => Some(data[j * DEM_EDGE_SIZE + i]),
            None => None,
        }
    }

    /// Makes the tile from the bytes of its file, where the file was found.
    /// A tile outside the planet is refused, and so is a file of the wrong
    /// size; a tile without a file is absent.
    pub fn load<O: DataSourceOpts>(opts: &O, tile_id: &TileID, file: Option<Vec<u8>>) -> (r: Result<
        Option<Self>,
        String,
    >)
        ensures
            match Self::spec_load(
                opts.nodata(),
                opts.sea_level(),
                *tile_id,
                match file {
                    Some(bytes) => Some(bytes@),
                    None => None,
                },
            ) {
                Err(msg) => r matches Err(e) && e@ == msg,
                Ok(None) => r matches Ok(None),
                Ok(Some(content)) => r matches Ok(Some(tile)) && tile.dem_data is Some
                    && tile.content() == content && TileData::wf(&tile),
            },
    {
        if !tile_id.is_in_domain() {
            let id: String = tile_id.text();
            return Err(with_prefix("Invalid tile specification: ", id.as_str()));
        }
        match file {
            None => Ok(None),
            Some(bytes) => {
                if bytes.len() != DEM_FILE_SIZE {
                    let id: String = tile_id.text();
                    let mut msg: String = with_prefix("Invalid file size of ", id.as_str());
                    msg.append(": ");
                    let len: String = decimal(bytes.len());
                    msg.append(len.as_str());
                    Err(msg)
                } else {
                    let data: Vec<i16> = vec_u8_to_i16(bytes);
                    Ok(
                        Some(
                            DemArc3SecData {
                                lon_left: tile_id.lon,
                                lat_bottom: tile_id.lat,
                                nodata: opts.get_nodata(),
                                sea_level: opts.get_sea_level(),
                                dem_data: Some(data),
                            },
                        ),
                    )
                }
            },
        }
    }
}

impl TileData for DemArc3SecData {
    /// The samples, where there are any, fill the grid of the tile.
    open spec fn wf(&self) -> bool {
        self.dem_data matches Some(data) ==> data@.len() == DEM_ARRAY_SIZE
    }

    /// Outside the tile there is no elevation. Inside, it is the sample of
    /// the interval that holds the point, rows counted from the north; the
    /// sea level stands for a sample that marks missing data, and for a
    /// tile without samples.
    open spec fn height_at(&self, geo_point: GeoPoint) -> Option<Height> {
        if !in_degree(geo_point.lon, self.lon_left as int) || !in_degree(
            geo_point.lat,
            self.lat_bottom as int,
        ) {
            None
        } else {
            let i = cell_of(geo_point.lon, self.lon_left as int);
            let j = cell_of(geo_point.lat, self.lat_bottom as int);
            match self.sample(i, 1200 - j) {
                Some(h) => if h == self.nodata {
                    Some(self.sea_level)
                } else {
                    Some(h)
                },
                None => Some(self.sea_level),
            }
        }
    }

    /// Calculate elevation at a geopoint
    fn calc_height(&self, geo_point: &GeoPoint) -> (h: Option<Height>) {
        let lon_num: i128 = geo_point.lon.num as i128;
        let lon_den: i128 = geo_point.lon.den as i128;
        let lat_num: i128 = geo_point.lat.num as i128;
        let lat_den: i128 = geo_point.lat.den as i128;
        let left: i128 = self.lon_left as i128;
        let bottom: i128 = self.lat_bottom as i128;
        proof {
            assert(-0x8000 * lon_den <= left * lon_den <= 0x8000 * lon_den) by (nonlinear_arith)
                requires
                    -0x8000 <= left < 0x8000,
                    lon_den > 0,
            ;
            assert(-0x8000 * lat_den <= bottom * lat_den <= 0x8000 * lat_den) by (nonlinear_arith)
                requires
                    -0x8000 <= bottom < 0x8000,
                    lat_den > 0,
            ;
            assert((left + 1) * lon_den == left * lon_den + lon_den) by (nonlinear_arith);
            assert((bottom + 1) * lat_den == bottom * lat_den + lat_den) by (nonlinear_arith);
        }
        let x: i128 = lon_num - left * lon_den;
        let y: i128 = lat_num - bottom * lat_den;
        if x < 0 || x >= lon_den || y < 0 || y >= lat_den {
            return None;
        }
        proof {
            lemma_cell_bounds(geo_point.lon, self.lon_left as int);
            lemma_cell_bounds(geo_point.lat, self.lat_bottom as int);
        }
        let i: usize = ((x * 1200) / lon_den) as usize;
        let j: usize = ((y * 1200) / lat_den) as usize;

        let h: HeightInt = match self.get_dem_height(i, 1200 - j) {
            Some(h_int) => if h_int == self.nodata {
                self.sea_level
            } else {
                h_int
            },
            None => self.sea_level,
        };
        Some(h)
    }
}

} // verus!

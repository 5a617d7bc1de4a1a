use planet_materializer::common::types::{Fraction, GeoPoint};
use planet_materializer::common::util::{
    check_dir, check_file, decimal, decimal_i16, vec_u8_to_i16,
};
use planet_materializer::input::dem::arcsec3::{
    tile_file_name, DemArc3SecData, DemArc3SecOpts, DEM_ARRAY_SIZE, DEM_EDGE_SIZE, DEM_FILE_SIZE,
};
use planet_materializer::input::types::{DataSourceOpts, TileData, TileID};
use std::sync::atomic::AtomicUsize;

const DEM_SIZE: f64 = 1200.0;

fn point(lon: (i64, i64), lat: (i64, i64)) -> GeoPoint {
    GeoPoint { lon: Fraction { num: lon.0, den: lon.1 }, lat: Fraction { num: lat.0, den: lat.1 } }
}

#[test]
fn vec_u8_to_i16_t0() {
    let vec_u8 = vec![1u8; 16];
    let vec_i16 = vec_u8_to_i16(vec_u8);

    assert_eq!(vec_i16, vec![257; 8])
}

#[test]
fn calc_height_t0() -> Result<(), String> {
    let mut dem_data = vec![1; DEM_ARRAY_SIZE];
    dem_data[DEM_ARRAY_SIZE / 2] = 100;
    dem_data[DEM_ARRAY_SIZE / 2 + 1] = 0;
    dem_data[DEM_ARRAY_SIZE / 2 + DEM_EDGE_SIZE] = 10;
    dem_data[DEM_ARRAY_SIZE / 2 + 1 + DEM_EDGE_SIZE] = 30;
    let dem_tile = DemArc3SecOpts { nodata: -32767, sea_level: 0 };

    let dem = DemArc3SecData {
        lon_left: 50,
        lat_bottom: 50,
        nodata: dem_tile.get_nodata(),
        sea_level: dem_tile.get_sea_level(),
        dem_data: Some(dem_data),
    };
    // 50.5 + 0.5 / DEM_SIZE, as an exact fraction
    assert_eq!(121201.0 / 2400.0, 50.5 + 0.5 / DEM_SIZE);
    let p = point((121201, 2400), (121201, 2400));
    let height = dem.calc_height(&p).unwrap() as f64;
    if (height - 100.0).abs() < 0.00001 {
        Ok(())
    } else {
        Err(format!("invalid height result: {}", height))
    }
}

#[test]
fn next_t0() {
    let counter = AtomicUsize::new(0);
    assert!(matches!(TileID::next(&counter, 180 * 360), Some(TileID { lon: -180, lat: -90 })));
    assert!(matches!(TileID::next(&counter, 180 * 360), Some(TileID { lon: -180, lat: -89 })));
    assert!(matches!(TileID::next(&counter, 180 * 360), Some(TileID { lon: -180, lat: -88 })));
}

#[test]
fn tile_sequence_ends_at_the_limit() {
    let counter = AtomicUsize::new(0);
    assert!(TileID::next(&counter, 2).is_some());
    assert!(TileID::next(&counter, 2).is_some());
    assert!(TileID::next(&counter, 2).is_none());
    assert!(TileID::next(&counter, 2).is_none());
    assert_eq!(TileID::from_count(0, 0), None);
    assert_eq!(TileID::from_count(179, 64800), Some(TileID { lon: -180, lat: 89 }));
    assert_eq!(TileID::from_count(180, 64800), Some(TileID { lon: -179, lat: -90 }));
    assert_eq!(TileID::from_count(64799, 64800), Some(TileID { lon: 179, lat: 89 }));
    assert_eq!(TileID::from_count(64800, 64800), None);
    assert_eq!(TileID::from_count(5898239, 5898240), Some(TileID { lon: 32587, lat: 89 }));
}

#[test]
fn tile_sequence_visits_each_tile_once() {
    let mut seen = std::collections::HashSet::new();
    for count in 0..64800 {
        let t = TileID::from_count(count, 64800).unwrap();
        assert!(t.is_in_domain());
        assert!(seen.insert((t.lon, t.lat)));
    }
    assert_eq!(seen.len(), 64800);
}

#[test]
fn two_bytes_decode_big_endian() {
    assert_eq!(vec_u8_to_i16(vec![1, 1]), vec![257]);
    assert_eq!(vec_u8_to_i16(vec![0x80, 0x01]), vec![-32767]);
    assert_eq!(vec_u8_to_i16(vec![0xff, 0xff, 0x7f, 0xff, 0, 0]), vec![-1, 32767, 0]);
    assert_eq!(vec_u8_to_i16(vec![]), Vec::<i16>::new());
}

#[test]
fn tile_of_repeated_bytes_is_uniform() {
    let opts = DemArc3SecOpts::new_opts(None, None);
    let id = TileID { lon: 10, lat: -3 };
    let tile = DemArc3SecData::load(&opts, &id, Some(vec![1u8; DEM_FILE_SIZE])).unwrap().unwrap();
    let data = tile.dem_data.as_ref().unwrap();
    assert_eq!(data.len(), DEM_ARRAY_SIZE);
    assert!(data.iter().all(|v| *v == 257));
    assert_eq!(tile.get_dem_height(0, 0), Some(257));
    assert_eq!(tile.get_dem_height(1200, 1200), Some(257));
    assert_eq!(tile.calc_height(&point((21, 2), (-5, 2))), Some(257));
    assert_eq!((tile.lon_left, tile.lat_bottom), (10, -3));
}

#[test]
fn load_answers() {
    let opts = DemArc3SecOpts::new_opts(Some(-1), Some(5));
    assert_eq!((opts.get_nodata(), opts.get_sea_level()), (-1, 5));
    let defaults = DemArc3SecOpts::new_opts(None, None);
    assert_eq!((defaults.get_nodata(), defaults.get_sea_level()), (-32767, 0));
    assert_eq!(defaults.get_max_number_of_tiles(), 180 * 360);

    let inside = TileID { lon: 0, lat: 0 };
    assert!(matches!(DemArc3SecData::load(&opts, &inside, None), Ok(None)));
    match DemArc3SecData::load(&opts, &inside, Some(vec![0u8; 10])) {
        Err(e) => assert_eq!(e, "Invalid file size of TileId (0, 0): 10"),
        _ => panic!("the short file was accepted"),
    }
    for (lon, lat) in [(180, 0), (-181, 0), (0, 90), (0, -91)] {
        match DemArc3SecData::load(&opts, &TileID { lon, lat }, None) {
            Err(e) => assert_eq!(e, format!("Invalid tile specification: TileId ({}, {})", lon, lat)),
            _ => panic!("a tile outside the planet was accepted"),
        }
    }
}

#[test]
fn height_lookup() {
    let mut data = vec![7i16; DEM_ARRAY_SIZE];
    data[0] = 11; // north-west corner
    data[1200 * DEM_EDGE_SIZE] = 22; // south-west corner
    data[1 * DEM_EDGE_SIZE + 1199] = -32767; // no data
    let tile = DemArc3SecData {
        lon_left: -7,
        lat_bottom: 3,
        nodata: -32767,
        sea_level: -2,
        dem_data: Some(data),
    };
    // south-west corner of the tile: column 0, row 1200
    assert_eq!(tile.calc_height(&point((-7, 1), (3, 1))), Some(22));
    // just below the northern edge: row 1
    assert_eq!(tile.calc_height(&point((-7, 1), (4 * 1200 - 1, 1200))), Some(7));
    // the sample that marks missing data gives the sea level
    assert_eq!(tile.calc_height(&point((-6 * 1200 - 1, 1200), (4 * 1200 - 1, 1200))), Some(-2));
    // outside
    assert_eq!(tile.calc_height(&point((-6, 1), (3, 1))), None);
    assert_eq!(tile.calc_height(&point((-7, 1), (4, 1))), None);
    assert_eq!(tile.calc_height(&point((-15, 2), (3, 1))), None);
    assert_eq!(tile.calc_height(&point((-7, 1), (5, 2))), None);
    // a tile without samples gives the sea level
    let empty = DemArc3SecData { lon_left: 0, lat_bottom: 0, nodata: 0, sea_level: 9, dem_data: None };
    assert_eq!(empty.calc_height(&point((1, 2), (1, 2))), Some(9));
    assert_eq!(empty.get_dem_height(0, 0), None);
}

#[test]
fn finds_tiles() {
    let opts = DemArc3SecOpts::new_opts(None, None);
    let t = |lon, lat| {
        let id = opts.find_tile_id(&point(lon, lat));
        (id.lon, id.lat)
    };
    assert_eq!(t((0, 1), (0, 1)), (0, 0));
    assert_eq!(t((-1, 2), (1, 2)), (-1, 0));
    assert_eq!(t((-180, 1), (-90, 1)), (-180, -90));
    assert_eq!(t((359, 2), (90, 1)), (179, 90));
    assert_eq!(t((-3, 3), (-7, 2)), (-1, -4));
    assert_eq!(t((1_000_000, 1), (-1_000_000, 1)), (32767, -32768));
}

#[test]
fn names_tile_files() {
    assert_eq!(tile_file_name(&TileID { lon: 0, lat: 0 }), "N00E000.hgt");
    assert_eq!(tile_file_name(&TileID { lon: -180, lat: -90 }), "S90W180.hgt");
    assert_eq!(tile_file_name(&TileID { lon: 179, lat: 89 }), "N89E179.hgt");
    assert_eq!(tile_file_name(&TileID { lon: -7, lat: 5 }), "N05W007.hgt");
    assert_eq!(tile_file_name(&TileID { lon: 45, lat: -12 }), "S12E045.hgt");
    assert_eq!(TileID { lon: -7, lat: 5 }.text(), "TileId (-7, 5)");
}

#[test]
fn writes_decimals() {
    assert_eq!(decimal(0), "0");
    assert_eq!(decimal(9), "9");
    assert_eq!(decimal(10), "10");
    assert_eq!(decimal(2884802), "2884802");
    assert_eq!(decimal(usize::MAX), usize::MAX.to_string());
    assert_eq!(decimal_i16(-32768), "-32768");
    assert_eq!(decimal_i16(32767), "32767");
    assert_eq!(decimal_i16(0), "0");
}

#[test]
fn path_verdicts() {
    assert_eq!(check_dir("./data", true), Ok(()));
    assert_eq!(
        check_dir("./data", false),
        Err(String::from("Directory path is invalid or can't be read: ./data"))
    );
    assert_eq!(check_file("a.txt", true), Ok(()));
    assert_eq!(
        check_file("a.txt", false),
        Err(String::from("File path is invalid or can't be read: a.txt"))
    );
}

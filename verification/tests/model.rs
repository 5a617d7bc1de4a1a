use planet_materializer::common::types::{Fraction, GeoPoint};
use planet_materializer::model::obj::Obj;
use planet_materializer::model::types::ModelPoints;
use planet_materializer::model::x3dgeospatial::X3DGeospatial;

fn f64_of(c: Fraction) -> f64 {
    c.num as f64 / c.den as f64
}

fn coords(tcs: &Vec<(Fraction, Fraction)>) -> Vec<(f64, f64)> {
    tcs.iter().map(|(u, v)| (f64_of(*u), f64_of(*v))).collect()
}

fn degrees(p: &GeoPoint) -> (f64, f64) {
    (f64_of(p.lon), f64_of(p.lat))
}

#[test]
fn create_geopoints_t0() {
    let model_size = Obj::make_valid_model_size(Some(3));
    let j_spacing = Obj::define_spacing(model_size);
    let (ModelPoints { geopoints, points_map_opt: pmap_opt }, elms) =
        Obj::create_modelpoints(model_size, j_spacing);
    let pmap = pmap_opt.unwrap();
    assert_eq!(geopoints.len(), 6);
    assert_eq!(pmap.len(), 7);
    let elms_res = [
        (0, 1, 5), (1, 0, 6), (1, 2, 5), (2, 1, 6),
        (2, 3, 5), (3, 2, 6), (3, 4, 5), (4, 3, 6)
        ];
    assert_eq!(elms.len(), 8);
    assert_eq!(elms, elms_res);
}

#[test]
fn create_geopoints_t1() {
    let model_size = Obj::make_valid_model_size(Some(4));
    let j_spacing = Obj::define_spacing(model_size);
    let (ModelPoints { geopoints, points_map_opt: pmap_opt }, elms) =
        Obj::create_modelpoints(model_size, j_spacing);
    let pmap = pmap_opt.unwrap();
    assert_eq!(geopoints.len(), 18);
    assert_eq!(pmap.len(), 21);
    let elms_res = [
        (0, 1, 9), (1, 0, 10), (1, 2, 11), (2, 1, 12), (1, 11, 9),
        (1, 10, 12), (2, 3, 11), (3, 2, 12), (3, 4, 13), (4, 3, 14),
        (3, 13, 11), (3, 12, 14), (4, 5, 13), (5, 4, 14), (5, 6, 15),
        (6, 5, 16), (5, 15, 13), (5, 14, 16), (6, 7, 15), (7, 6, 16),
        (7, 8, 17), (8, 7, 18), (7, 17, 15), (7, 16, 18), (9, 11, 19),
        (12, 10, 20), (11, 13, 19), (14, 12, 20), (13, 15, 19), (16, 14, 20), (15, 17, 19), (18, 16, 20)
    ];
    assert_eq!(elms.len(), 32);
    assert_eq!(elms, elms_res);
}

#[test]
fn create_geopoints_t2() {
    let model_size = Obj::make_valid_model_size(Some(8));
    let j_spacing = Obj::define_spacing(model_size);
    let (ModelPoints { geopoints, points_map_opt: pmap_opt }, elms) =
        Obj::create_modelpoints(model_size, j_spacing);
    let pmap = pmap_opt.unwrap();
    assert_eq!(geopoints.len(), 66);
    assert_eq!(pmap.len(), 73);
    let elms_res = [
        (0, 1, 17), (1, 0, 18), (1, 2, 19), (2, 1, 20), (1, 19, 17), (1, 18, 20), (2, 3, 21),
        (3, 2, 22), (2, 21, 19), (2, 20, 22), (3, 4, 23), (4, 3, 24), (3, 23, 21), (3, 22, 24),
        (4, 5, 23), (5, 4, 24), (5, 6, 25), (6, 5, 26), (5, 25, 23), (5, 24, 26), (6, 7, 27),
        (7, 6, 28), (6, 27, 25), (6, 26, 28), (7, 8, 29), (8, 7, 30), (7, 29, 27), (7, 28, 30),
        (8, 9, 29), (9, 8, 30), (9, 10, 31), (10, 9, 32), (9, 31, 29), (9, 30, 32), (10, 11, 33),
        (11, 10, 34), (10, 33, 31), (10, 32, 34), (11, 12, 35), (12, 11, 36), (11, 35, 33), (11, 34, 36),
        (12, 13, 35), (13, 12, 36), (13, 14, 37), (14, 13, 38), (13, 37, 35), (13, 36, 38), (14, 15, 39),
        (15, 14, 40), (14, 39, 37), (14, 38, 40), (15, 16, 41), (16, 15, 42), (15, 41, 39), (15, 40, 42),

        (17, 19, 43), (20, 18, 44), (19, 21, 45), (22, 20, 46), (19, 45, 43),
        (20, 44, 46), (21, 23, 47), (24, 22, 48), (21, 47, 45), (22, 46, 48),
        (23, 25, 47), (26, 24, 48), (25, 27, 49), (28, 26, 50), (25, 49, 47),
        (26, 48, 50), (27, 29, 51), (30, 28, 52), (27, 51, 49), (28, 50, 52),
        (29, 31, 51), (32, 30, 52), (31, 33, 53), (34, 32, 54), (31, 53, 51),
        (32, 52, 54), (33, 35, 55), (36, 34, 56), (33, 55, 53), (34, 54, 56),
        (35, 37, 55), (38, 36, 56), (37, 39, 57), (40, 38, 58), (37, 57, 55),
        (38, 56, 58), (39, 41, 59), (42, 40, 60), (39, 59, 57), (40, 58, 60),

        (43, 45, 61), (46, 44, 62), (45, 47, 63), (48, 46, 64), (45, 63, 61), (46, 62, 64),
        (47, 49, 63), (50, 48, 64), (49, 51, 65), (52, 50, 66), (49, 65, 63), (50, 64, 66),
        (51, 53, 65), (54, 52, 66), (53, 55, 67), (56, 54, 68), (53, 67, 65), (54, 66, 68),
        (55, 57, 67), (58, 56, 68), (57, 59, 69), (60, 58, 70), (57, 69, 67), (58, 68, 70),

        (61, 63, 71), (64, 62, 72), (63, 65, 71), (66, 64, 72),
        (65, 67, 71), (68, 66, 72), (67, 69, 71), (70, 68, 72)
    ];
    assert_eq!(elms.len(), 128);
    assert_eq!(elms, elms_res);
}

#[test]
fn create_texture_coordinates_t0() {
    let model_size = Obj::make_valid_model_size(Some(3));
    let tcs = Obj::create_texture_coordinates(model_size);
    assert_eq!(tcs.len(), 7);
    let tcs_res = [
        (0.0, 0.5), (0.25, 0.5), (0.5, 0.5), (0.75, 0.5), (1.0, 0.5),
        (0.0, 1.0), (0.0, 0.0)
        ];
    assert_eq!(coords(&tcs), tcs_res);
}

#[test]
fn create_texture_coordinates_t1() {
    let model_size = Obj::make_valid_model_size(Some(4));
    let tcs = Obj::create_texture_coordinates(model_size);
    assert_eq!(tcs.len(), 21);
    let tcs_res = [
        (0.0, 0.5), (0.125, 0.5), (0.25, 0.5), (0.375, 0.5), (0.5, 0.5), (0.625, 0.5), (0.75, 0.5), (0.875, 0.5), (1.0, 0.5),
        (0.0, 0.75), (0.0, 0.25), (0.25, 0.75), (0.25, 0.25), (0.5, 0.75), (0.5, 0.25), (0.75, 0.75), (0.75, 0.25), (1.0, 0.75), (1.0, 0.25),
        (0.0, 1.0), (0.0, 0.0)
        ];
    assert_eq!(coords(&tcs), tcs_res);
}

#[test]
fn obj_model_sizes() {
    assert_eq!(Obj::make_valid_model_size(None), 16);
    assert_eq!(Obj::make_valid_model_size(Some(0)), 2);
    assert_eq!(Obj::make_valid_model_size(Some(1)), 2);
    assert_eq!(Obj::make_valid_model_size(Some(2)), 2);
    assert_eq!(Obj::make_valid_model_size(Some(3)), 2);
    assert_eq!(Obj::make_valid_model_size(Some(7)), 6);
    assert_eq!(Obj::make_valid_model_size(Some(usize::MAX)), usize::MAX - 1);
    let sp = Obj::define_spacing(8);
    assert_eq!((sp.num, sp.den), (180, 8));
}

#[test]
fn obj_counts_follow_the_closed_forms() {
    for gnn in 1..=12usize {
        let model_size = 2 * gnn;
        let (points, elements) = Obj::create_modelpoints(model_size, Obj::define_spacing(model_size));
        let pmap = points.points_map_opt.unwrap();
        assert_eq!(points.geopoints.len(), 4 * gnn * gnn + 2);
        assert_eq!(pmap.len(), 4 * gnn * gnn + 2 * gnn + 1);
        assert_eq!(elements.len(), 8 * gnn * gnn);
        assert_eq!(Obj::create_texture_coordinates(model_size).len(), pmap.len());
        assert!(elements.iter().all(|(a, b, c)| *a < pmap.len() && *b < pmap.len() && *c < pmap.len()));
        assert!(pmap.iter().all(|r| *r < points.geopoints.len()));
        // every lattice point is reached by a texture point
        let mut reached = vec![false; points.geopoints.len()];
        for r in pmap.iter() {
            reached[*r] = true;
        }
        assert!(reached.iter().all(|b| *b));
    }
}

#[test]
fn obj_lattice_points() {
    let (points, _) = Obj::create_modelpoints(4, Obj::define_spacing(4));
    let pts: Vec<(f64, f64)> = points.geopoints.iter().map(degrees).collect();
    let expected = [
        (-180.0, 0.0), (-135.0, 0.0), (-90.0, 0.0), (-45.0, 0.0),
        (0.0, 0.0), (45.0, 0.0), (90.0, 0.0), (135.0, 0.0),
        (-180.0, 45.0), (-180.0, -45.0), (-90.0, 45.0), (-90.0, -45.0),
        (0.0, 45.0), (0.0, -45.0), (90.0, 45.0), (90.0, -45.0),
        (0.0, 90.0), (0.0, -90.0),
    ];
    assert_eq!(pts, expected);
    let pmap = points.points_map_opt.unwrap();
    assert_eq!(pmap, vec![0, 1, 2, 3, 4, 5, 6, 7, 0, 8, 9, 10, 11, 12, 13, 14, 15, 8, 9, 16, 17]);
}

#[test]
fn uniform_grid() {
    assert_eq!(X3DGeospatial::make_valid_model_size(None), 4);
    assert_eq!(X3DGeospatial::make_valid_model_size(Some(3)), 4);
    assert_eq!(X3DGeospatial::make_valid_model_size(Some(5)), 5);
    for model_size in [0usize, 1, 4, 5, 9] {
        let spacing = Fraction { num: 180, den: if model_size == 0 { 1 } else { model_size as i64 } };
        let (points, elements) = X3DGeospatial::create_modelpoints(model_size, spacing);
        assert_eq!(points.geopoints.len(), (2 * model_size + 1) * (model_size + 1));
        assert!(points.points_map_opt.is_none());
        assert!(elements.is_empty());
    }
    let sp = X3DGeospatial::define_spacing(2);
    assert_eq!((sp.num, sp.den), (180, 2));
    let (points, _) = X3DGeospatial::create_modelpoints(2, sp);
    let pts: Vec<(f64, f64)> = points.geopoints.iter().map(degrees).collect();
    let expected = [
        (-180.0, -90.0), (-90.0, -90.0), (0.0, -90.0), (90.0, -90.0), (-180.0, -90.0),
        (-180.0, 0.0), (-90.0, 0.0), (0.0, 0.0), (90.0, 0.0), (-180.0, 0.0),
        (-180.0, 90.0), (-90.0, 90.0), (0.0, 90.0), (90.0, 90.0), (-180.0, 90.0),
    ];
    assert_eq!(pts, expected);
}

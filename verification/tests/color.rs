use planet_materializer::common::color::{
    build_color_table, get_color_mapping, make_allowed_color_function, parse_channel,
    parse_height, parse_profile_line, ChannelText, ColorRecord, LineOutcome, RGB,
};
use planet_materializer::common::color::{build_color_mapping, get_color_interval, make_rgb_color};
use planet_materializer::common::types::Fraction;

fn f32_of(c: Fraction) -> f32 {
    c.num as f32 / c.den as f32
}

fn rows(table: &Vec<ColorRecord>) -> Vec<(i16, f32, f32, f32)> {
    table.iter().map(|r| (r.0, f32_of(r.1), f32_of(r.2), f32_of(r.3))).collect()
}

fn rgb_f32(c: RGB) -> (f32, f32, f32) {
    (f32_of(c.0), f32_of(c.1), f32_of(c.2))
}

fn unit(num: i64, den: i64) -> Fraction {
    Fraction { num, den }
}

#[test]
fn build_color_table_t0() -> Result<(), String> {
    let file_content: Vec<String> = vec![
        String::from("0       0       0       0.7"),
        String::from("1       0       0.7     0  "),
        String::from("500     0.5     0.7     0  "),
        String::from("1500    0.5     0.5     0  "),
        String::from("4000    0.6     0.4     0.1"),
        String::from("8000    0.8     0.2     0  "),
    ];

    match build_color_table(file_content) {
        Err(err) => Err(err),
        Ok(color_table) => {
            let color_table0: Vec<(i16, f32, f32, f32)> = vec![
                (0, 0.0, 0.0, 0.7),
                (1, 0.0, 0.7, 0.0),
                (500, 0.5, 0.7, 0.0),
                (1500, 0.5, 0.5, 0.0),
                (4000, 0.6, 0.4, 0.1),
                (8000, 0.8, 0.2, 0.0),
            ];
            if rows(&color_table) == color_table0 {
                Ok(())
            } else {
                Err(format!("wrong color_table: {:?}", color_table))
            }
        }
    }
}

#[test]
fn build_color_table_t1() -> Result<(), String> {
    let file_content: Vec<String> = vec![
        String::from("1500    0.5     0.5     0  "),
        String::from(" 4000    0.6     0.4     0.1"),
        String::from("8000    0.8     0.2     0  "),
    ];

    match build_color_table(file_content) {
        Err(err) => Err(err),
        Ok(color_table) => {
            let color_table0: Vec<(i16, f32, f32, f32)> =
                vec![(1500, 0.5, 0.5, 0.0), (8000, 0.8, 0.2, 0.0)];
            if rows(&color_table) == color_table0 {
                Ok(())
            } else {
                Err(format!("wrong color_table: {:?}", color_table))
            }
        }
    }
}

#[test]
fn build_color_table_t2() -> Result<(), String> {
    let file_content: Vec<String> = vec![
        String::from("0       0       0       0.7"),
        String::from("#1       0       0.7     0  "),
        String::from("500     0.5     0.7     0  "),
    ];

    match build_color_table(file_content) {
        Err(err) => Err(err),
        Ok(color_table) => {
            let color_table0: Vec<(i16, f32, f32, f32)> =
                vec![(0, 0.0, 0.0, 0.7), (500, 0.5, 0.7, 0.0)];
            if rows(&color_table) == color_table0 {
                Ok(())
            } else {
                Err(format!("wrong color_table: {:?}", color_table))
            }
        }
    }
}

#[test]
fn build_color_table_t3() -> Result<(), String> {
    let file_content: Vec<String> = vec![
        String::from("0       0       0       0.7"),
        String::from("1       0       0.7   "),
        String::from("500     0.5     0.7     0  "),
    ];

    match build_color_table(file_content) {
        Err(err) => Err(err),
        Ok(color_table) => {
            let color_table0: Vec<(i16, f32, f32, f32)> =
                vec![(0, 0.0, 0.0, 0.7), (1, 0.0, 0.7, 0.0), (500, 0.5, 0.7, 0.0)];
            if rows(&color_table) == color_table0 {
                Err(format!("wrong color_table: {:?}", color_table))
            } else {
                Ok(())
            }
        }
    }
}

#[test]
fn build_color_table_t4() -> Result<(), String> {
    let file_content: Vec<String> = vec![
        String::from("0       0       0       0.7"),
        String::from("1500    0.5     0.5     0  "),
        String::from("500     0.5     0.7     0  "),
        String::from("4000    0.6     0.4     0.1"),
    ];

    match build_color_table(file_content) {
        Err(err) => {
            if err
                == format!(
                    "Heights in color profile must be strictly incremental: first column of line {}",
                    3
                )
            {
                Ok(())
            } else {
                Err(format!("Got: {}", err))
            }
        }
        Ok(color_table) => Err(format!("wrong color_table: {:?}", color_table)),
    }
}

#[test]
fn build_color_table_t5() -> Result<(), String> {
    let file_content: Vec<String> = vec![
        String::from("0       0       0       0.7"),
        String::from("500     1.5     0.7     0  "),
        String::from("1500    0.5     0.5     0  "),
        String::from("4000    0.6     0.4     0.1"),
    ];

    match build_color_table(file_content) {
        Err(err) => {
            if err == format!("Invalid number in second column of line {} in color profile", 2) {
                Ok(())
            } else {
                Err(format!("Got: {}", err))
            }
        }
        Ok(color_table) => Err(format!("wrong color_table: {:?}", color_table)),
    }
}

#[test]
fn build_color_table_t6() -> Result<(), String> {
    let file_content: Vec<String> = vec![
        String::from("0       0       0       0.7"),
        String::from("500     0.5     2.7     0  "),
        String::from("1500    0.5     0.5     0  "),
        String::from("4000    0.6     0.4     0.1"),
    ];

    match build_color_table(file_content) {
        Err(err) => {
            if err == format!("Invalid number in third column of line {} in color profile", 2) {
                Ok(())
            } else {
                Err(format!("Got: {}", err))
            }
        }
        Ok(color_table) => Err(format!("wrong color_table: {:?}", color_table)),
    }
}

#[test]
fn build_color_table_t7() -> Result<(), String> {
    let file_content: Vec<String> = vec![
        String::from("0       0       0       0.7"),
        String::from("500     0.5     0.7     1.0001  "),
        String::from("1500    0.5     0.5     0  "),
        String::from("4000    0.6     0.4     0.1"),
    ];

    match build_color_table(file_content) {
        Err(err) => {
            if err == format!("Invalid number in fourth column of line {} in color profile", 2) {
                Ok(())
            } else {
                Err(format!("Got: {}", err))
            }
        }
        Ok(color_table) => Err(format!("wrong color_table: {:?}", color_table)),
    }
}

#[test]
fn build_color_table_t8() -> Result<(), String> {
    let file_content: Vec<String> = vec![
        String::from(" 0       0       0       0.7"),
        String::from("#500     0.5     0.7     0.1  "),
    ];

    match build_color_table(file_content) {
        Err(err) => {
            if err == format!("Color table is empty") {
                Ok(())
            } else {
                Err(format!("Got: {}", err))
            }
        }
        Ok(color_table) => Err(format!("wrong color_table: {:?}", color_table)),
    }
}

#[test]
fn allowed_color_function_t0() {
    let color0 = RGB(unit(0, 1), unit(35, 100), unit(1, 1));

    let f1 = make_allowed_color_function(1);
    let (c, id) = f1.apply(color0);
    assert_eq!((rgb_f32(c), id), ((0.0, 0.0, 1.0), (0, 0, 1)));

    let f2 = make_allowed_color_function(2);
    let (c, id) = f2.apply(color0);
    assert_eq!((rgb_f32(c), id), ((0.0, 0.5, 1.0), (0, 1, 2)));

    let f4 = make_allowed_color_function(4);
    let (c, id) = f4.apply(color0);
    assert_eq!((rgb_f32(c), id), ((0.0, 0.25, 1.0), (0, 1, 4)));

    let f8 = make_allowed_color_function(8);
    let (c, id) = f8.apply(color0);
    assert_eq!((rgb_f32(c), id), ((0.0, 0.375, 1.0), (0, 3, 8)));

    let f0 = make_allowed_color_function(0);
    let (c, id) = f0.apply(color0);
    assert_eq!((rgb_f32(c), id), ((0.5, 0.5, 0.5), (0, 0, 0)));
}

#[test]
fn rejects_fourth_line_that_does_not_ascend() {
    let file_content: Vec<String> = vec![
        String::from("0 0 0 0.7"),
        String::from("500 0.5 0.7 0"),
        String::from("1500 0.5 0.5 0"),
        String::from("500 0.1 0.1 0.1"),
    ];
    let err = build_color_table(file_content).unwrap_err();
    assert!(err.contains("must be strictly incremental"));
    assert_eq!(
        err,
        "Heights in color profile must be strictly incremental: first column of line 4"
    );
}

#[test]
fn equal_elevation_does_not_ascend() {
    let file_content: Vec<String> =
        vec![String::from("10 0 0 0"), String::from("10 1 1 1")];
    assert_eq!(
        build_color_table(file_content).unwrap_err(),
        "Heights in color profile must be strictly incremental: first column of line 2"
    );
}

#[test]
fn order_complaint_counts_skipped_lines() {
    let file_content: Vec<String> = vec![
        String::from("# heights"),
        String::from("100 0 0 0"),
        String::new(),
        String::from("not a row"),
        String::from("99 1 1 1"),
        String::from("5 2 2 2"),
    ];
    assert_eq!(
        build_color_table(file_content).unwrap_err(),
        "Heights in color profile must be strictly incremental: first column of line 5"
    );
}

#[test]
fn range_complaint_counts_skipped_lines() {
    let file_content: Vec<String> = vec![
        String::from("# a comment"),
        String::new(),
        String::from("0 0 0 0"),
        String::from("7 0 0 1.000000000001"),
    ];
    assert_eq!(
        build_color_table(file_content).unwrap_err(),
        "Invalid number in fourth column of line 4 in color profile"
    );
}

#[test]
fn line_with_a_field_that_is_no_number_is_passed_over() {
    let file_content: Vec<String> = vec![
        String::from("0 0 0 0"),
        String::from("40000 0.5 0.5 0.5"),
        String::from("5 0.1.2 0.5 0.5"),
        String::from("6 . 0.5 0.5"),
        String::from("9 1 1. .5"),
    ];
    let table = build_color_table(file_content).unwrap();
    assert_eq!(rows(&table), vec![(0, 0.0, 0.0, 0.0), (9, 1.0, 1.0, 0.5)]);
}

#[test]
fn building_twice_gives_the_same_table() {
    let lines = vec![String::from("0 0 0 0.7"), String::from("x"), String::from("3 1 0.25 0")];
    let first = build_color_table(lines.clone()).unwrap();
    let second = build_color_table(lines).unwrap();
    assert_eq!(rows(&first), rows(&second));
    assert_eq!(rows(&first), vec![(0, 0.0, 0.0, 0.7), (3, 1.0, 0.25, 0.0)]);
}

#[test]
fn parses_heights() {
    assert_eq!(parse_height("0"), Some(0));
    assert_eq!(parse_height("32767"), Some(32767));
    assert_eq!(parse_height("0032767"), Some(32767));
    assert_eq!(parse_height("32768"), None);
    assert_eq!(parse_height("99999999999999999999"), None);
    assert_eq!(parse_height(""), None);
    assert_eq!(parse_height("-1"), None);
    assert_eq!(parse_height("12a"), None);
}

#[test]
fn parses_channels() {
    let value = |t: &str| match parse_channel(t) {
        ChannelText::Value(f) => Some((f.num, f.den)),
        _ => None,
    };
    assert_eq!(value("0.7"), Some((700_000_000, 1_000_000_000)));
    assert_eq!(value("1"), Some((1_000_000_000, 1_000_000_000)));
    assert_eq!(value("1.000"), Some((1_000_000_000, 1_000_000_000)));
    assert_eq!(value(".5"), Some((500_000_000, 1_000_000_000)));
    assert_eq!(value("0."), Some((0, 1_000_000_000)));
    assert_eq!(value("0.1234567891"), Some((123_456_789, 1_000_000_000)));
    assert_eq!(value("000.25"), Some((250_000_000, 1_000_000_000)));
    assert!(matches!(parse_channel("1.0001"), ChannelText::TooLarge));
    assert!(matches!(parse_channel("1.0000000000001"), ChannelText::TooLarge));
    assert!(matches!(parse_channel("2"), ChannelText::TooLarge));
    assert!(matches!(parse_channel("99999999999999999999999"), ChannelText::TooLarge));
    assert!(matches!(parse_channel("."), ChannelText::Malformed));
    assert!(matches!(parse_channel(""), ChannelText::Malformed));
    assert!(matches!(parse_channel("0.1.2"), ChannelText::Malformed));
    assert!(matches!(parse_channel("0,5"), ChannelText::Malformed));
}

#[test]
fn names_the_first_channel_above_one() {
    assert!(matches!(parse_profile_line("1", "2", "3", "4"), LineOutcome::OutOfRange(2)));
    assert!(matches!(parse_profile_line("1", "1", "3", "4"), LineOutcome::OutOfRange(3)));
    assert!(matches!(parse_profile_line("1", "1", "1", "4"), LineOutcome::OutOfRange(4)));
    assert!(matches!(parse_profile_line("1", "2", "x", "4"), LineOutcome::Skip));
    assert!(matches!(parse_profile_line("x", "0", "0", "0"), LineOutcome::Skip));
    match parse_profile_line("12", "0.5", "1", "0") {
        LineOutcome::Row(r) => assert_eq!((r.0, r.1.num, r.2.num, r.3.num), (12, 500_000_000, 1_000_000_000, 0)),
        _ => panic!("a row was expected"),
    }
}

#[test]
fn color_mapping_interpolates_and_clamps() {
    let lines = vec![
        String::from("0 0 0 0.7"),
        String::from("500 0.5 0.7 0"),
        String::from("1500 0.5 0.5 0"),
    ];
    let mapping = get_color_mapping(lines).unwrap();
    // rows themselves
    assert_eq!(rgb_f32(mapping.color(0)), (0.0, 0.0, 0.7));
    assert_eq!(rgb_f32(mapping.color(500)), (0.5, 0.7, 0.0));
    assert_eq!(rgb_f32(mapping.color(1500)), (0.5, 0.5, 0.0));
    // below and above
    assert_eq!(rgb_f32(mapping.color(-32768)), (0.0, 0.0, 0.7));
    assert_eq!(rgb_f32(mapping.color(-1)), (0.0, 0.0, 0.7));
    assert_eq!(rgb_f32(mapping.color(1501)), (0.5, 0.5, 0.0));
    assert_eq!(rgb_f32(mapping.color(32767)), (0.5, 0.5, 0.0));
    // between: exact fractions
    let c = mapping.color(250);
    assert_eq!((c.0.num, c.0.den), (125_000_000_000, 500_000_000_000));
    assert_eq!((c.1.num, c.1.den), (175_000_000_000, 500_000_000_000));
    assert_eq!((c.2.num, c.2.den), (175_000_000_000, 500_000_000_000));
    let c = mapping.color(1000);
    assert_eq!((c.0.num, c.0.den), (500_000_000_000, 1_000_000_000_000));
    assert_eq!((c.1.num, c.1.den), (600_000_000_000, 1_000_000_000_000));
    assert_eq!((c.2.num, c.2.den), (0, 1_000_000_000_000));
    assert_eq!(c.1.num as f64 / c.1.den as f64, 0.6);
    assert_eq!(mapping.mapping.len(), 1501);
}

#[test]
fn color_mapping_of_one_row() {
    let table = build_color_table(vec![String::from("7 1 0 0.5")]).unwrap();
    let mapping = build_color_mapping(&table);
    assert_eq!(mapping.len(), 1);
    assert_eq!(rgb_f32(*mapping.get(&7).unwrap()), (1.0, 0.0, 0.5));
    let mapping = get_color_mapping(vec![String::from("7 1 0 0.5")]).unwrap();
    assert_eq!(rgb_f32(mapping.color(6)), (1.0, 0.0, 0.5));
    assert_eq!(rgb_f32(mapping.color(8)), (1.0, 0.0, 0.5));
}

#[test]
fn color_mapping_passes_the_complaint_on() {
    assert_eq!(get_color_mapping(vec![]).err().unwrap(), "Color table is empty");
}

#[test]
fn snaps_to_the_nearest_step() {
    let f = make_allowed_color_function(10);
    // half way goes up
    let (c, id) = f.apply(RGB(unit(35, 100), unit(34, 100), unit(1, 3)));
    assert_eq!(id, (4, 3, 3));
    assert_eq!(((c.0.num, c.0.den), (c.1.num, c.1.den), (c.2.num, c.2.den)), ((4, 10), (3, 10), (3, 10)));
    let f = make_allowed_color_function(65535);
    let (_, id) = f.apply(RGB(unit(1, 1), unit(0, 1), unit(1, 2)));
    assert_eq!(id, (65535, 0, 32768));
}

#[test]
fn palette_colors() {
    let interval = get_color_interval(4);
    assert_eq!((interval.num, interval.den), (1, 4));
    let c = make_rgb_color(interval, 0, 3, 4);
    assert_eq!(rgb_f32(c), (0.0, 0.75, 1.0));
}

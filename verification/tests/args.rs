use planet_materializer::common::args::{
    default_jobs, default_planet_name, get_data_source_name, get_model_type, same_text, Args,
    CLIArgsObj, CLIArgsX3DGeospatial, DataSourceName, ModelType, MySubCommandEnum, TopLevelCommands,
};
use planet_materializer::common::settings::Parameter::{Found, Invalid, Missing};
use planet_materializer::common::settings::{
    choose_directory, get_parameter_value, Settings, SettingsFile, DEFAULT_DATA_SOURCE_DIR,
    DEFAULT_OUTPUT_DIR,
};

#[test]
fn names_of_model_types_and_sources() {
    assert_eq!(get_model_type("texture"), Ok(ModelType::TextureModelType));
    assert_eq!(get_model_type("color"), Ok(ModelType::ColorModelType));
    assert_eq!(get_model_type("Color"), Err(String::from("Unknown model type")));
    assert_eq!(get_model_type(""), Err(String::from("Unknown model type")));
    assert_eq!(get_data_source_name("DemArcSec3"), Ok(DataSourceName::DemArcSec3));
    assert_eq!(get_data_source_name("demarcsec3"), Err(String::from("Unknown data source")));
    assert!(same_text("äb", "äb"));
    assert!(!same_text("ab", "abc"));
    assert!(!same_text("abd", "abc"));
}

#[test]
fn defaults() {
    assert_eq!(default_planet_name(), "Unknown_planet");
    assert_eq!(default_jobs(0), 0);
    assert_eq!(default_jobs(1), 1);
    assert_eq!(default_jobs(2), 2);
    assert_eq!(default_jobs(64), 2);
}

#[test]
fn getters_and_settings() {
    let obj = CLIArgsObj {
        model_type: ModelType::ColorModelType,
        data_source: DataSourceName::DemArcSec3,
        planet_name: String::from("Mars"),
        model_size: Some(32),
        jobs: 3,
        data_source_dir: Some(String::from("/data")),
        output_dir: None,
    };
    assert_eq!(obj.model_type(), ModelType::ColorModelType);
    assert_eq!(obj.data_source(), DataSourceName::DemArcSec3);
    assert_eq!(obj.planet_name(), "Mars");
    assert_eq!(obj.model_size(), Some(32));
    assert_eq!(obj.jobs(), 3);
    assert_eq!(obj.data_source_dir(), Some(&String::from("/data")));
    assert_eq!(obj.output_dir(), None);
    assert_eq!(choose_directory(None, Some(&String::from("/etc")), "./"), "/etc");
    assert_eq!(choose_directory(None, None, DEFAULT_OUTPUT_DIR), "./");
    assert_eq!(choose_directory(obj.data_source_dir(), None, DEFAULT_DATA_SOURCE_DIR), "/data");
    let commands = TopLevelCommands { inner_enum: MySubCommandEnum::SubCommandObj(obj) };
    let file = SettingsFile {
        has_data_source: true,
        data_source_path: Some(String::from("/etc")),
        nodata: None,
        sea_level: Some(-3),
        has_common: true,
        has_specific: true,
        common_output_dir: Found(String::from("/common")),
        specific_output_dir: Missing,
    };
    assert_eq!(Settings::model_name(&commands), "Obj");
    assert_eq!(Settings::data_source_dir_of(&commands, &file), "/data");
    assert_eq!(Settings::output_dir_of(&commands, &file), "/common");
    let settings = Settings::make_settings(&commands, &file, true, true).unwrap();
    assert_eq!(settings.planet_name, "Mars");
    assert_eq!(settings.model_size, Some(32));
    assert_eq!(settings.jobs, 3);
    assert_eq!(settings.data_source, DataSourceName::DemArcSec3);
    assert_eq!(settings.data_source_dir, "/data");
    assert_eq!(settings.output_dir, "/common");
    assert_eq!((settings.nodata, settings.sea_level), (None, Some(-3)));

    let x3d = CLIArgsX3DGeospatial {
        model_type: ModelType::TextureModelType,
        data_source: DataSourceName::DemArcSec3,
        planet_name: default_planet_name(),
        model_size: None,
        jobs: default_jobs(8),
        data_source_dir: None,
        output_dir: Some(String::from("out")),
    };
    assert_eq!(x3d.model_type(), ModelType::TextureModelType);
    assert_eq!(x3d.data_source(), DataSourceName::DemArcSec3);
    assert_eq!(x3d.model_size(), None);
    assert_eq!(x3d.data_source_dir(), None);
    assert_eq!(x3d.output_dir(), Some(&String::from("out")));
    let commands = TopLevelCommands { inner_enum: MySubCommandEnum::SubCommandX3DGeospatial(x3d) };
    let file = SettingsFile {
        has_data_source: true,
        data_source_path: None,
        nodata: Some(1),
        sea_level: None,
        has_common: true,
        has_specific: true,
        common_output_dir: Missing,
        specific_output_dir: Found(String::from("/specific")),
    };
    assert_eq!(Settings::model_name(&commands), "X3DGeospatial");
    let settings = Settings::make_settings(&commands, &file, true, true).unwrap();
    assert_eq!(settings.planet_name, "Unknown_planet");
    assert_eq!((settings.jobs, settings.model_size), (2, None));
    assert_eq!((settings.data_source_dir.as_str(), settings.output_dir.as_str()), ("./", "out"));
    assert_eq!((settings.nodata, settings.sea_level), (Some(1), None));
}

fn obj_commands(output_dir: Option<&str>) -> TopLevelCommands {
    TopLevelCommands {
        inner_enum: MySubCommandEnum::SubCommandObj(CLIArgsObj {
            model_type: ModelType::TextureModelType,
            data_source: DataSourceName::DemArcSec3,
            planet_name: String::from("Moon"),
            model_size: None,
            jobs: 1,
            data_source_dir: None,
            output_dir: output_dir.map(String::from),
        }),
    }
}

fn whole_file() -> SettingsFile {
    SettingsFile {
        has_data_source: true,
        data_source_path: Some(String::from("/tiles")),
        nodata: Some(-9999),
        sea_level: Some(0),
        has_common: true,
        has_specific: true,
        common_output_dir: Found(String::from("/common")),
        specific_output_dir: Found(String::from("/specific")),
    }
}

#[test]
fn output_directory_by_section() {
    let commands = obj_commands(None);
    let mut file = whole_file();
    // the section of the model type decides
    assert_eq!(Settings::output_dir_of(&commands, &file), "/specific");
    // then the common section
    file.specific_output_dir = Missing;
    assert_eq!(Settings::output_dir_of(&commands, &file), "/common");
    // then the default
    file.common_output_dir = Missing;
    assert_eq!(Settings::output_dir_of(&commands, &file), "./");
    file.common_output_dir = Invalid;
    assert_eq!(Settings::output_dir_of(&commands, &file), "./");
    // a value that is no text names no directory, whatever the common section holds
    file.common_output_dir = Found(String::from("/common"));
    file.specific_output_dir = Invalid;
    assert_eq!(Settings::output_dir_of(&commands, &file), "./");
    // the command line comes first
    assert_eq!(Settings::output_dir_of(&obj_commands(Some("/asked")), &whole_file()), "/asked");
    // the data tiles: command line, data source, default
    assert_eq!(Settings::data_source_dir_of(&commands, &whole_file()), "/tiles");
    file.data_source_path = None;
    assert_eq!(Settings::data_source_dir_of(&commands, &file), "./");
    let settings = Settings::make_settings(&commands, &whole_file(), true, true).unwrap();
    assert_eq!((settings.nodata, settings.sea_level), (Some(-9999), Some(0)));
    assert_eq!((settings.data_source_dir.as_str(), settings.output_dir.as_str()), ("/tiles", "/specific"));
}

#[test]
fn settings_complaints_in_order() {
    let commands = obj_commands(None);
    let complaint = |file: &SettingsFile, data: bool, out: bool| -> String {
        Settings::make_settings(&commands, file, data, out).err().unwrap()
    };
    let mut file = whole_file();
    file.has_data_source = false;
    file.has_common = false;
    file.has_specific = false;
    assert_eq!(complaint(&file, false, false), "Common section for 'Obj' is missed in settings file");
    file.has_data_source = true;
    assert_eq!(complaint(&file, false, false), "Directory path is invalid or can't be read: /tiles");
    assert_eq!(complaint(&file, true, false), "Common section for 'Obj' is missed in settings file");
    file.has_common = true;
    assert_eq!(
        complaint(&file, true, false),
        "The model type section for 'Obj' is missed in settings file"
    );
    file.has_specific = true;
    assert_eq!(complaint(&file, true, false), "Directory path is invalid or can't be read: /specific");
    assert!(Settings::make_settings(&commands, &file, true, true).is_ok());
}

#[test]
fn parameters() {
    assert_eq!(Settings::get_parameter_i64("p", Found(1), Found(2), 3), Ok(1));
    assert_eq!(Settings::get_parameter_i64("p", Missing, Found(2), 3), Ok(2));
    assert_eq!(Settings::get_parameter_i64("p", Missing, Missing, 3), Ok(3));
    assert_eq!(
        Settings::get_parameter_i64("color_precision", Invalid, Found(2), 3),
        Err(String::from("invalid 'color_precision' parameter in the settings file"))
    );
    assert_eq!(
        Settings::get_parameter_i64("p", Missing, Invalid, 3),
        Err(String::from("invalid 'p' parameter in the settings file"))
    );
    assert_eq!(Settings::get_parameter_i64("p", Found(1), Invalid, 3), Ok(1));
    assert_eq!(
        Settings::get_parameter_string("t", Missing, Missing, String::from("./obj.template")),
        Ok(String::from("./obj.template"))
    );
    assert_eq!(
        Settings::get_parameter_string("t", Found(String::from("x")), Missing, String::from("d")),
        Ok(String::from("x"))
    );
    assert_eq!(get_parameter_value("b", Missing, Found(true), false), Ok(true));
}

//! The settings of a run: how they follow from the command line and from
//! what the settings file holds, and how a parameter is chosen among the
//! sections of the settings file.

use crate::common::args::{Args, DataSourceName, MySubCommandEnum, TopLevelCommands};
use crate::common::types::{GeoPointIndex, HeightInt};
use crate::common::util::{check_dir, with_prefix};
use vstd::prelude::*;
use vstd::string::StringExecFns;

verus! {

pub const DEFAULT_DATA_SOURCE_DIR: &'static str = "./";

pub const DEFAULT_OUTPUT_DIR: &'static str = "./";

/// What a section of the settings file holds under a name.
#[derive(Debug, Clone, Copy)]
pub enum Parameter<V> {
    /// Nothing.
    Missing,
    /// A value of another type than the one asked for.
    Invalid,
    /// A value of the type asked for.
    Found(V),
}

/// Main settings structure
#[derive(Debug)]
pub struct Settings {
    /// planet name
    pub planet_name: String,
    /// model size
    pub model_size: Option<GeoPointIndex>,
    /// number of jobs
    pub jobs: usize,
    /// source data type
    pub data_source: DataSourceName,
    /// path to data tiles
    pub data_source_dir: String,
    /// output_path
    pub output_dir: String,
    /// nodata value
    pub nodata: Option<HeightInt>,
    /// default sea level
    pub sea_level: Option<HeightInt>,
}

/// The value of a parameter: the section of the model type decides where it
/// holds anything under the name, else the common section; where neither
/// does, the default stands. A value of another type is refused.
pub open spec fn spec_parameter<V>(
    parameter: Seq<char>,
    specific: Parameter<V>,
    common: Parameter<V>,
    default: V,
) -> Result<V, Seq<char>> {
    let chosen = if specific is Missing {
        common
    } else {
        specific
    };
    match chosen {
        Parameter::Missing => Ok(default),
        Parameter::Invalid => Err("invalid '"@ + parameter + "' parameter in the settings file"@),
        Parameter::Found(v) => Ok(v),
    }
}

/// The directory to use: the one of the command line, else the one of the
/// settings file, else the default.
pub open spec fn spec_directory(
    asked: Option<Seq<char>>,
    configured: Option<Seq<char>>,
    default: Seq<char>,
) -> Seq<char> {
    match asked {
        Some(dir) => dir,
        None => match configured {
            Some(dir) => dir,
            None => default,
        },
    }
}

/// The view of a text that may be absent.
pub open spec fn text_of(s: Option<&String>) -> Option<Seq<char>> {
    match s {
        Some(text) => Some(text@),
        None => None,
    }
}

/// The directory to use.
pub fn choose_directory(asked: Option<&String>, configured: Option<&String>, default: &str) -> (dir:
    String)
    ensures
        dir@ == spec_directory(text_of(asked), text_of(configured), default@),
{
    match asked {
        Some(dir) => dir.clone(),
        None => match configured {
            Some(dir) => dir.clone(),
            None => String::from_str(default),
        },
    }
}

/// The value of a parameter.
pub fn get_parameter_value<V>(
    parameter: &str,
    specific: Parameter<V>,
    common: Parameter<V>,
    default: V,
) -> (r: Result<V, String>)
    ensures
        match spec_parameter(parameter@, specific, common, default) {
            Ok(v) => r matches Ok(x) && x == v,
            Err(e) => r matches Err(msg) && msg@ == e,
        },
{
    let chosen: Parameter<V> = match specific {
        Parameter::Missing => common,
        _ => specific,
    };
    match chosen {
        Parameter::Missing => Ok(default),
        Parameter::Invalid => {
            let mut msg: String = String::from_str("invalid '");
            msg.append(parameter);
            msg.append("' parameter in the settings file");
            Err(msg)
        },
        Parameter::Found(v) => Ok(v),
    }
}

/// What the settings file holds for a run: whether its sections are there,
/// and what they hold under the names that decide the settings.
#[derive(Debug)]
pub struct SettingsFile {
    /// whether the section of the data source is there
    pub has_data_source: bool,
    /// the path of the data tiles, where the data source names one
    pub data_source_path: Option<String>,
    /// the value that marks missing data, where the data source names one
    pub nodata: Option<HeightInt>,
    /// the sea level, where the data source names one
    pub sea_level: Option<HeightInt>,
    /// whether the common section of the model is there
    pub has_common: bool,
    /// whether the section of the model type is there
    pub has_specific: bool,
    /// the output directory in the common section of the model
    pub common_output_dir: Parameter<String>,
    /// the output directory in the section of the model type
    pub specific_output_dir: Parameter<String>,
}

/// The name of the model in the settings file.
pub open spec fn spec_model_name(tl_commands: TopLevelCommands) -> Seq<char> {
    match tl_commands.inner_enum {
        MySubCommandEnum::SubCommandX3DGeospatial(_) => "X3DGeospatial"@,
        MySubCommandEnum::SubCommandObj(_) => "Obj"@,
    }
}

/// The directory of the data tiles that the command line asks for.
pub open spec fn asked_data_source_dir(tl_commands: TopLevelCommands) -> Option<Seq<char>> {
    match tl_commands.inner_enum {
        MySubCommandEnum::SubCommandX3DGeospatial(args) => text_of_owned(args.data_source_dir),
        MySubCommandEnum::SubCommandObj(args) => text_of_owned(args.data_source_dir),
    }
}

/// The output directory that the command line asks for.
pub open spec fn asked_output_dir(tl_commands: TopLevelCommands) -> Option<Seq<char>> {
    match tl_commands.inner_enum {
        MySubCommandEnum::SubCommandX3DGeospatial(args) => text_of_owned(args.output_dir),
        MySubCommandEnum::SubCommandObj(args) => text_of_owned(args.output_dir),
    }
}

/// The view of a text that may be absent.
pub open spec fn text_of_owned(s: Option<String>) -> Option<Seq<char>> {
    match s {
        Some(text) => Some(text@),
        None => None,
    }
}

/// The output directory that the settings file names: the section of the
/// model type decides where it holds anything under the name, else the
/// common section; a value that is no text names none.
pub open spec fn configured_output_dir(file: SettingsFile) -> Option<Seq<char>> {
    match file.specific_output_dir {
        Parameter::Found(dir) => Some(dir@),
        Parameter::Invalid => None,
        Parameter::Missing => match file.common_output_dir {
            Parameter::Found(dir) => Some(dir@),
            _ => None,
        },
    }
}

/// The directory of the data tiles of a run: the one of the command line,
/// else the one of the data source in the settings file, else the default.
pub open spec fn spec_data_source_dir(tl_commands: TopLevelCommands, file: SettingsFile) -> Seq<
    char,
> {
    spec_directory(
        asked_data_source_dir(tl_commands),
        text_of_owned(file.data_source_path),
        DEFAULT_DATA_SOURCE_DIR@,
    )
}

/// The output directory of a run: the one of the command line, else the one
/// of the settings file, else the default.
pub open spec fn spec_output_dir(tl_commands: TopLevelCommands, file: SettingsFile) -> Seq<char> {
    spec_directory(asked_output_dir(tl_commands), configured_output_dir(file), DEFAULT_OUTPUT_DIR@)
}

/// The complaint about a section that the settings file lacks.
pub open spec fn missing_section_message(section: Seq<char>, model: Seq<char>) -> Seq<char> {
    section + " section for '"@ + model + "' is missed in settings file"@
}

/// The complaint about a directory that was not found.
pub open spec fn missing_directory_message(dir: Seq<char>) -> Seq<char> {
    "Directory path is invalid or can't be read: "@ + dir
}

/// What stands in the way of the settings of a run, the first of: the
/// section of the data source is missing, the directory of the data tiles
/// was not found, the common section of the model is missing, the section of
/// the model type is missing, the output directory was not found.
pub open spec fn settings_complaint(
    tl_commands: TopLevelCommands,
    file: SettingsFile,
    data_source_dir_found: bool,
    output_dir_found: bool,
) -> Option<Seq<char>> {
    if !file.has_data_source {
        Some(missing_section_message("Common"@, spec_model_name(tl_commands)))
    } else if !data_source_dir_found {
        Some(missing_directory_message(spec_data_source_dir(tl_commands, file)))
    } else if !file.has_common {
        Some(missing_section_message("Common"@, spec_model_name(tl_commands)))
    } else if !file.has_specific {
        Some(missing_section_message("The model type"@, spec_model_name(tl_commands)))
    } else if !output_dir_found {
        Some(missing_directory_message(spec_output_dir(tl_commands, file)))
    } else {
        None
    }
}

/// The planet name that the command line asks for.
pub open spec fn planet_name_of(tl_commands: TopLevelCommands) -> String {
    match tl_commands.inner_enum {
        MySubCommandEnum::SubCommandX3DGeospatial(args) => args.planet_name,
        MySubCommandEnum::SubCommandObj(args) => args.planet_name,
    }
}

/// The model size that the command line asks for.
pub open spec fn model_size_of(tl_commands: TopLevelCommands) -> Option<GeoPointIndex> {
    match tl_commands.inner_enum {
        MySubCommandEnum::SubCommandX3DGeospatial(args) => args.model_size,
        MySubCommandEnum::SubCommandObj(args) => args.model_size,
    }
}

/// The number of jobs that the command line asks for.
pub open spec fn jobs_of(tl_commands: TopLevelCommands) -> usize {
    match tl_commands.inner_enum {
        MySubCommandEnum::SubCommandX3DGeospatial(args) => args.jobs,
        MySubCommandEnum::SubCommandObj(args) => args.jobs,
    }
}

/// The data source that the command line asks for.
pub open spec fn data_source_of(tl_commands: TopLevelCommands) -> DataSourceName {
    match tl_commands.inner_enum {
        MySubCommandEnum::SubCommandX3DGeospatial(args) => args.data_source,
        MySubCommandEnum::SubCommandObj(args) => args.data_source,
    }
}

/// The message about a section that the settings file lacks.
fn make_missing_section_message(section: &str, model: &str) -> (msg: String)
    ensures
        msg@ == missing_section_message(section@, model@),
{
    let mut msg: String = with_prefix(section, " section for '");
    msg.append(model);
    msg.append("' is missed in settings file");
    msg
}

impl Settings {
    /// The settings are those of the command line and the settings file:
    /// what the command line asks for, the directories that were settled
    /// on, and the overrides of the data source.
    pub open spec fn is_settings_of(&self, tl_commands: TopLevelCommands, file: SettingsFile) -> bool {
        &&& self.planet_name == planet_name_of(tl_commands)
        &&& self.model_size == model_size_of(tl_commands)
        &&& self.jobs == jobs_of(tl_commands)
        &&& self.data_source == data_source_of(tl_commands)
        &&& self.data_source_dir@ == spec_data_source_dir(tl_commands, file)
        &&& self.output_dir@ == spec_output_dir(tl_commands, file)
        &&& self.nodata == file.nodata
        &&& self.sea_level == file.sea_level
    }

    /// The name of the model in the settings file.
    pub fn model_name(tl_commands: &TopLevelCommands) -> (name: &'static str)
        ensures
            name@ == spec_model_name(*tl_commands),
    {
        match &tl_commands.inner_enum {
            MySubCommandEnum::SubCommandX3DGeospatial(_) => "X3DGeospatial",
            MySubCommandEnum::SubCommandObj(_) => "Obj",
        }
    }

    /// The directory of the data tiles of a run.
    pub fn data_source_dir_of(tl_commands: &TopLevelCommands, file: &SettingsFile) -> (dir: String)
        ensures
            dir@ == spec_data_source_dir(*tl_commands, *file),
    {
        let asked: Option<&String> = match &tl_commands.inner_enum {
            MySubCommandEnum::SubCommandX3DGeospatial(args) => args.data_source_dir(),
            MySubCommandEnum::SubCommandObj(args) => args.data_source_dir(),
        };
        choose_directory(asked, file.data_source_path.as_ref(), DEFAULT_DATA_SOURCE_DIR)
    }

    /// The output directory of a run.
    pub fn output_dir_of(tl_commands: &TopLevelCommands, file: &SettingsFile) -> (dir: String)
        ensures
            dir@ == spec_output_dir(*tl_commands, *file),
    {
        let asked: Option<&String> = match &tl_commands.inner_enum {
            MySubCommandEnum::SubCommandX3DGeospatial(args) => args.output_dir(),
            MySubCommandEnum::SubCommandObj(args) => args.output_dir(),
        };
        let configured: Option<&String> = match &file.specific_output_dir {
            Parameter::Found(dir) => Some(dir),
            Parameter::Invalid => None,
            Parameter::Missing => match &file.common_output_dir {
                Parameter::Found(dir) => Some(dir),
                _ => None,
            },
        };
        choose_directory(asked, configured, DEFAULT_OUTPUT_DIR)
    }

    /// Puts the settings of a run together from the command line and from
    /// what the settings file holds, given whether the two directories of
    /// the run were found. Fails with the first complaint, if there is one.
    pub fn make_settings(
        tl_commands: &TopLevelCommands,
        file: &SettingsFile,
        data_source_dir_found: bool,
        output_dir_found: bool,
    ) -> (r: Result<Settings, String>)
        ensures
            match settings_complaint(*tl_commands, *file, data_source_dir_found, output_dir_found) {
                Some(complaint) => r matches Err(msg) && msg@ == complaint,
                None => r matches Ok(settings) && settings.is_settings_of(*tl_commands, *file),
            },
    {
        let model: &'static str = Settings::model_name(tl_commands);
        if !file.has_data_source {
            return Err(make_missing_section_message("Common", model));
        }
        let data_source_dir: String = Settings::data_source_dir_of(tl_commands, file);
        match check_dir(data_source_dir.as_str(), data_source_dir_found) {
            Err(msg) => {
                return Err(msg);
            },
            Ok(()) => {},
        }
        if !file.has_common {
            return Err(make_missing_section_message("Common", model));
        }
        if !file.has_specific {
            return Err(make_missing_section_message("The model type", model));
        }
        let output_dir: String = Settings::output_dir_of(tl_commands, file);
        match check_dir(output_dir.as_str(), output_dir_found) {
            Err(msg) => {
                return Err(msg);
            },
            Ok(()) => {},
        }
        Ok(
            match &tl_commands.inner_enum {
                MySubCommandEnum::SubCommandX3DGeospatial(args) => Settings {
                    planet_name: args.planet_name().clone(),
                    model_size: args.model_size(),
                    jobs: args.jobs(),
                    data_source: args.data_source(),
                    data_source_dir,
                    output_dir,
                    nodata: file.nodata,
                    sea_level: file.sea_level,
                },
                MySubCommandEnum::SubCommandObj(args) => Settings {
                    planet_name: args.planet_name().clone(),
                    model_size: args.model_size(),
                    jobs: args.jobs(),
                    data_source: args.data_source(),
                    data_source_dir,
                    output_dir,
                    nodata: file.nodata,
                    sea_level: file.sea_level,
                },
            },
        )
    }

    /// The value of a parameter that is a text.
    pub fn get_parameter_string(
        parameter: &str,
        specific: Parameter<String>,
        common: Parameter<String>,
        default: String,
    ) -> (r: Result<String, String>)
        ensures
            match spec_parameter(parameter@, specific, common, default) {
                Ok(v) => r matches Ok(x) && x == v,
                Err(e) => r matches Err(msg) && msg@ == e,
            },
    {
        get_parameter_value(parameter, specific, common, default)
    }

    /// The value of a parameter that is an integer.
    pub fn get_parameter_i64(
        parameter: &str,
        specific: Parameter<i64>,
        common: Parameter<i64>,
        default: i64,
    ) -> (r: Result<i64, String>)
        ensures
            match spec_parameter(parameter@, specific, common, default) {
                Ok(v) => r matches Ok(x) && x == v,
                Err(e) => r matches Err(msg) && msg@ == e,
            },
    {
        get_parameter_value(parameter, specific, common, default)
    }
}

} // verus!

//! What the command line asks for.

use crate::common::types::GeoPointIndex;
use vstd::prelude::*;
use vstd::string::StrSliceExecFns;
use vstd::string::StringExecFns;

verus! {

/// 3d model type that determines its appearance
#[derive(Debug, Clone, Copy, PartialEq, Eq, Structural)]
pub enum ModelType {
    TextureModelType,
    ColorModelType,
}

/// Source data type
#[derive(Debug, Clone, Copy, PartialEq, Eq, Structural)]
pub enum DataSourceName {
    DemArcSec3,
}

/// Whether two texts are the same.
pub fn same_text(a: &str, b: &str) -> (same: bool)
    ensures
        same == (a@ == b@),
{
    let len: usize = a.unicode_len();
    if len != b.unicode_len() {
        return false;
    }
    let mut k: usize = 0;
    while k < len
        invariant
            len == a@.len(),
            len == b@.len(),
            k <= len,
            forall|i: int| 0 <= i < k ==> a@[i] == b@[i],
        decreases len - k,
    {
        if a.get_char(k) != b.get_char(k) {
            return false;
        }
        k += 1;
    }
    assert(a@ =~= b@);
    true
}

/// The model type that a word of the command line names.
pub open spec fn spec_model_type(value: Seq<char>) -> Option<ModelType> {
    if value == "texture"@ {
        Some(ModelType::TextureModelType)
    } else if value == "color"@ {
        Some(ModelType::ColorModelType)
    } else {
        None
    }
}

/// Get model type identificator depending on specific command argument
pub fn get_model_type(value: &str) -> (r: Result<ModelType, String>)
    ensures
        match spec_model_type(value@) {
            Some(t) => r == Ok::<ModelType, String>(t),
            None => r matches Err(msg) && msg@ == "Unknown model type"@,
        },
{
    if same_text(value, "texture") {
        Ok(ModelType::TextureModelType)
    } else if same_text(value, "color") {
        Ok(ModelType::ColorModelType)
    } else {
        Err(String::from_str("Unknown model type"))
    }
}

/// The data source that a word of the command line names.
pub open spec fn spec_data_source_name(value: Seq<char>) -> Option<DataSourceName> {
    if value == "DemArcSec3"@ {
        Some(DataSourceName::DemArcSec3)
    } else {
        None
    }
}

/// Get source data type identificator depending on specific command argument
pub fn get_data_source_name(value: &str) -> (r: Result<DataSourceName, String>)
    ensures
        match spec_data_source_name(value@) {
            Some(n) => r == Ok::<DataSourceName, String>(n),
            None => r matches Err(msg) && msg@ == "Unknown data source"@,
        },
{
    if same_text(value, "DemArcSec3") {
        Ok(DataSourceName::DemArcSec3)
    } else {
        Err(String::from_str("Unknown data source"))
    }
}

/// Default planet name
pub fn default_planet_name() -> (name: String)
    ensures
        name@ == "Unknown_planet"@,
{
    String::from_str("Unknown_planet")
}

/// Default number of worker threads: two, or fewer where the machine
/// offers less parallelism.
pub fn default_jobs(parallelism: usize) -> (jobs: usize)
    ensures
        jobs == (if parallelism < 2 {
            parallelism
        } else {
            2
        }),
{
    if parallelism < 2 {
        parallelism
    } else {
        2
    }
}

/// Top-level commands
#[derive(Debug)]
pub struct TopLevelCommands {
    pub inner_enum: MySubCommandEnum,
}

#[derive(Debug)]
pub enum MySubCommandEnum {
    SubCommandX3DGeospatial(CLIArgsX3DGeospatial),
    SubCommandObj(CLIArgsObj),
}

/// Common arguments getters trait
pub trait Args {
    fn data_source(&self) -> DataSourceName;

    fn model_type(&self) -> ModelType;

    fn planet_name(&self) -> &String;

    fn model_size(&self) -> Option<GeoPointIndex>;

    fn jobs(&self) -> usize;

    fn data_source_dir(&self) -> Option<&String>;

    fn output_dir(&self) -> Option<&String>;
}

/// Subcommand for X3DGeospatial mode
#[derive(Debug)]
pub struct CLIArgsX3DGeospatial {
    /// model type (Texture or Color)
    pub model_type: ModelType,
    /// data source type
    pub data_source: DataSourceName,
    /// planet name (will be used in output file names)
    pub planet_name: String,
    /// model size (may be implicitly changed to the nearest valid value)
    pub model_size: Option<GeoPointIndex>,
    /// number of jobs
    pub jobs: usize,
    /// data source path (default: current directory)
    pub data_source_dir: Option<String>,
    /// output path (default: current directory)
    pub output_dir: Option<String>,
}

impl Args for CLIArgsX3DGeospatial {
    fn data_source(&self) -> (r: DataSourceName)
        ensures
            r == self.data_source,
    {
        self.data_source
    }

    fn model_type(&self) -> (r: ModelType)
        ensures
            r == self.model_type,
    {
        self.model_type
    }

    fn planet_name(&self) -> (r: &String)
        ensures
            *r == self.planet_name,
    {
        &self.planet_name
    }

    fn model_size(&self) -> (r: Option<GeoPointIndex>)
        ensures
            r == self.model_size,
    {
        self.model_size
    }

    fn jobs(&self) -> (r: usize)
        ensures
            r == self.jobs,
    {
        self.jobs
    }

    fn data_source_dir(&self) -> (r: Option<&String>)
        ensures
            r == (match self.data_source_dir {
                Some(dir) => Some(&dir),
                None => None,
            }),
    {
        self.data_source_dir.as_ref()
    }

    fn output_dir(&self) -> (r: Option<&String>)
        ensures
            r == (match self.output_dir {
                Some(dir) => Some(&dir),
                None => None,
            }),
    {
        self.output_dir.as_ref()
    }
}

/// Subcommand for color mode
#[derive(Debug)]
pub struct CLIArgsObj {
    /// model type (Texture or Color)
    pub model_type: ModelType,
    /// data source type
    pub data_source: DataSourceName,
    /// planet name (will be used in output file names)
    pub planet_name: String,
    /// model size (may be implicitly changed to the nearest valid value)
    pub model_size: Option<GeoPointIndex>,
    /// number of jobs
    pub jobs: usize,
    /// data source path (default: current directory)
    pub data_source_dir: Option<String>,
    /// output path (default: current directory)
    pub output_dir: Option<String>,
}

impl Args for CLIArgsObj {
    fn data_source(&self) -> (r: DataSourceName)
        ensures
            r == self.data_source,
    {
        self.data_source
    }

    fn model_type(&self) -> (r: ModelType)
        ensures
            r == self.model_type,
    {
        self.model_type
    }

    fn planet_name(&self) -> (r: &String)
        ensures
            *r == self.planet_name,
    {
        &self.planet_name
    }

    fn model_size(&self) -> (r: Option<GeoPointIndex>)
        ensures
            r == self.model_size,
    {
        self.model_size
    }

    fn jobs(&self) -> (r: usize)
        ensures
            r == self.jobs,
    {
        self.jobs
    }

    fn data_source_dir(&self) -> (r: Option<&String>)
        ensures
            r == (match self.data_source_dir {
                Some(dir) => Some(&dir),
                None => None,
            }),
    {
        self.data_source_dir.as_ref()
    }

    fn output_dir(&self) -> (r: Option<&String>)
        ensures
            r == (match self.output_dir {
                Some(dir) => Some(&dir),
                None => None,
            }),
    {
        self.output_dir.as_ref()
    }
}

} // verus!

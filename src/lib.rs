//! A discovered project: the JSON description of a set of crates, turned into
//! a table of crates whose paths are absolute and whose dependencies name
//! crates by position.

pub mod model;
pub mod path;
pub mod project;
pub mod schema;
pub mod text;

pub use model::{CfgFlag, CrateDisplayName, CrateId, CrateName, Dependency, Edition};
pub use path::AbsPathBuf;
pub use project::{BuildError, PolyJsonCrate, PolyJsonProject};
pub use schema::{
    deserialize_crate_name, EditionData, PolyJsonCrateData, PolyJsonCrateSource, PolyJsonData,
    PolyJsonDepData, SchemaError,
};

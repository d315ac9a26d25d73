//! Front end of a content-description compiler: it ingests a directory tree
//! describing a game-content package (a manifest plus item definition files),
//! validates every file against a strict schema, and assembles a single
//! strongly-typed project model, or fails with a classified error.

pub mod abstract_datapack;
pub mod config_json_obj;
pub mod errors;
pub mod identifier;
pub mod item_json_obj;
pub mod json;
pub mod json_read;
pub mod locate;
pub mod paths;
pub mod project;

use vstd::prelude::*;

verus! {

/// What one build invocation is asked to do: where the source project lies
/// and where the output goes, both as the command line gave them.
#[derive(Debug, Default)]
pub struct BuildOptions {
    pub path_to_project: String,
    pub path_to_output_dir: String,
}

} // verus!

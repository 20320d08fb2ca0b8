//! Commands and assets: command metadata and declarations, the arguments a command runs
//! with, and the life of an asset, with their contracts proved.
pub mod json;
pub mod error;
pub mod text;
pub mod merge;
pub mod command_metadata;
pub mod metadata_json;
pub mod declaration;
pub mod commands;
pub mod assets;
pub mod assets2;
pub mod validate_cli;
pub mod job_queue;
pub mod asset_maps;
pub mod asset_value;

//! A framework for building command-line applications, with its decisions
//! stated as contracts and proved.
pub mod auth;
pub mod builtin_groups;
pub mod cli;
pub mod command;
pub mod command_tree;
pub mod config;
pub mod env_config;
pub mod environment_flags;
pub mod environments;
pub mod error;
pub mod feature_flags;
pub mod flags;
pub mod fs;
pub mod groups;
pub mod guide;
pub mod json;
pub mod json_bridge;
pub mod matched;
pub mod middleware;
pub mod module;
pub mod ordmap;
pub mod output;
pub mod paths;
pub mod sorting;
pub mod text;
pub mod tier;
pub mod toml_doc;
pub mod toml_value;

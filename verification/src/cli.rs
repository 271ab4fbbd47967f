//! The application: its configuration, and what it does with an invocation.
pub mod args;
pub mod argv0;
pub mod assembly;
pub mod builtins;
pub mod config;
pub mod help;
pub mod run;
pub mod search;
pub mod settings;
pub mod shape;

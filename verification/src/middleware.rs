//! What happens around a command: authentication, authorization, dry-run, audit
//! and rendering.
pub mod meta;
pub mod render;
pub mod resolver;
pub mod run;

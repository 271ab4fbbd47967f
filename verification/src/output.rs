//! Structured output: envelopes, views, schemas and the output pipeline.
pub mod envelope;
pub mod formats;
pub mod human;
pub mod json_schema;
pub mod json_text;
pub mod pipeline;
pub mod schema;

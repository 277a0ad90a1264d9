//! Building: languages, builders, artifacts, caching and steps.
pub mod archive;
pub mod artifact;
pub mod assembly;
pub mod commands;
pub mod common;
pub mod driver;
pub mod engine;
pub mod builder;
pub mod cache;
pub mod language;
pub mod qt;
pub mod report;
pub mod settings;

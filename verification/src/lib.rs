//! Verified core of a Cargo-style build tool for C/C++ projects.
use vstd::prelude::*;

pub mod cli;
pub mod config;
pub mod deps;
pub mod build;
pub mod build_config;
pub mod manifest;
pub mod manifest_edit;
pub mod paths;
pub mod platform;
pub mod resolve;
pub mod steps;
pub mod text;
pub mod validation;
pub mod value;

verus! {

} // verus!

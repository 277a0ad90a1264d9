//! Command-line argument handling and the text the commands produce.
pub mod calendar;
pub mod clean;
pub mod flags;
pub mod gen;
pub mod ide;
pub mod lint;
pub mod project;
pub mod project_info;
pub mod run;
pub mod update;

pub mod text;
pub mod cli;
pub mod error;
pub mod util;
pub mod package;
pub mod order;
pub mod pkglist;
pub mod registry;
pub mod config;
pub mod detect;
pub mod git;
pub mod commands;
pub mod install;
pub mod versions;
pub mod artifacts;
pub mod json;

//! A command-line HTTP client whose commands come from a declarative
//! configuration tree: the verified engine that extracts parameters,
//! resolves templates against environments and plans each run.

pub mod app_config;
pub mod case;
pub mod cli;
pub mod command;
pub mod config;
pub mod env;
pub mod ephenv;
pub mod error;
pub mod http;
pub mod import;
pub mod input;
pub mod params;
pub mod run;
pub mod strmap;
pub mod template;
pub mod text;

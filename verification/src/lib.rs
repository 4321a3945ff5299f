//! Vade: deployments of applications to a Linux server, prepared from a `vade.toml` file.

pub mod app_deployment;
pub mod app_name;
pub mod cli;
pub mod commands;
pub mod config;
pub mod engine;
pub mod templating;
pub mod text;
pub mod util;
pub mod json;

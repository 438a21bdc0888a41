//! Watch files, run commands: the decisions of the `fyr` file watcher, verified.

pub mod text;
pub mod keyed;
pub mod error;
pub mod command;
pub mod config;
pub mod paths;
pub mod tasks;
pub mod cli;
pub mod watcher;
pub mod templates;

//! A task runner that is driven by a configuration file: named commands,
//! alone or in groups, with a working directory, a tool environment and a
//! fail hook each, run one after another or side by side.
//!
//! The library holds the rules: how the configuration is settled, how a
//! name or a reference finds its task, and what a run does step by step.
//! It starts no process and asks no question itself; a host does that
//! for it and reports back.

pub mod cli;
pub mod config;
pub mod engine;
pub mod hooks;
pub mod init;
pub mod names;
pub mod order;
pub mod runner;
pub mod settings;
pub mod templates;
pub mod text;
pub mod utils;

//! Core of a declarative environment-provisioning tool: a configuration
//! describes entries (directory trees to copy or symlink, shell command
//! groups to run), applied under one of three lifecycle modes. This crate
//! holds the verified core — the config value model, the validation
//! engine, path resolution, the tree-synchronization engine, the
//! mode-aware command resolver and the computing half of the shell
//! execution pipeline — while process spawning and terminal output stay
//! with the dispatcher around it.

pub mod strutil;
pub mod config_value;
pub mod task_mode;
pub mod command;
pub mod validation;
pub mod pattern;
pub mod run_cmd;
pub mod tree_sync;
pub mod fsio;
pub mod paths;
pub mod symlink_cmd;
pub mod copy_cmd;

//! Shared configuration handed to every command by the external
//! dispatcher: where the config file lives, which shell interpreter is the
//! default, and where temporary script files go.

use vstd::prelude::*;

verus! {

/// The environment one command execution runs in. The dispatcher fills
/// this once per invocation; the core only reads it.
pub struct CommandConfig {
    /// Directory of the loaded config file; relative source paths in
    /// entries are resolved against it.
    pub config_dir: String,
    /// Interpreter used when a run entry names no shell of its own.
    pub default_shell: String,
    /// Directory in which temporary script files are created.
    pub temp_dir: String,
}

} // verus!

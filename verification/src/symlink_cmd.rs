//! The symlink command: mirrors a source tree into a destination tree by
//! creating a symlink for every regular file, and removes those links on
//! uninstall. The decisions — entry parsing, the same-directory guard,
//! ignore filtering and walk planning — are verified; the filesystem
//! effects run through the trusted wrappers of the boundary module.

use vstd::prelude::*;
use crate::command::CommandConfig;
use crate::config_value::ConfigValue;
use crate::fsio::path_exists;
use crate::paths::{
    check_same_dir, check_source_exists, collect_patterns, dir_spec_of, expand_dir, expand_path,
    force_of, get_source_and_target, patterns_as_values,
};
use crate::tree_sync::{FileAction, walk_files};

verus! {

/// Whether a symlink entry asks to replace existing destination files:
/// true exactly when the entry is a mapping whose `force` key holds true.
pub fn should_force(args: &ConfigValue) -> (r: bool)
    ensures
        r == (args is Hash && force_of(args->Hash_0@)),
{
    let arg_values = match args.as_hash() {
        Some(v) => v,
        None => {
            return false;
        },
    };
    match crate::config_value::hash_get(arg_values, "force") {
        Some(ConfigValue::Bool(b)) => *b,
        _ => false,
    }
}

/// Symlinks every non-ignored regular file under `source` to its mirrored
/// path under `destination`. The source is expanded and must exist; the
/// destination is created as needed; an entry whose source and target
/// resolve to the same directory fails the `check_same_dir` guard before
/// any walk. With `force`, an existing destination regular file is
/// replaced by the link; without it, the link fails and the file is left
/// untouched. The walk follows `spec_plan` over the listed source tree.
pub fn create_symlink(
    source: &str,
    destination: &str,
    ignore: Vec<ConfigValue>,
    force: bool,
) -> (r: Result<(), String>)
    ensures
        crate::paths::dollar_hazard(source@) ==> (r matches Err(m) && m@ == "cannot expand path: "@
            + source@),
{
    let source_dir = match expand_path(source) {
        Ok(d) => d,
        Err(e) => {
            return Err(e);
        },
    };
    match check_source_exists(source, path_exists(source_dir.as_str())) {
        Ok(()) => {},
        Err(e) => {
            return Err(e);
        },
    }
    let destination_dir = match expand_dir(destination, true) {
        Ok(d) => d,
        Err(e) => {
            return Err(e);
        },
    };
    match check_same_dir(source, &source_dir, &destination_dir) {
        Ok(()) => {},
        Err(e) => {
            return Err(e);
        },
    }
    let patterns = collect_patterns(&ignore);
    walk_files(
        source_dir.as_str(),
        destination_dir.as_str(),
        &patterns,
        &FileAction::LinkFile { force },
    )
}

/// Removes the symlink at the mirrored destination path of every regular
/// file under `source`, ignoring nothing, and never touching the source.
/// A destination that is not a symlink is left as it is, so files the
/// install did not create stay untouched and a second uninstall is a
/// no-op.
pub fn remove_symlink(source: &str, destination: &str) -> (r: Result<(), String>)
    ensures
        crate::paths::dollar_hazard(source@) ==> (r matches Err(m) && m@ == "cannot expand path: "@
            + source@),
{
    let source_dir = match expand_path(source) {
        Ok(d) => d,
        Err(e) => {
            return Err(e);
        },
    };
    let destination_dir = match expand_path(destination) {
        Ok(d) => d,
        Err(e) => {
            return Err(e);
        },
    };
    let no_patterns: Vec<String> = Vec::new();
    walk_files(
        source_dir.as_str(),
        destination_dir.as_str(),
        &no_patterns,
        &FileAction::UnlinkFile,
    )
}

/// The symlink command: links a source tree on install, unlinks it on
/// uninstall, and re-links it on update.
pub struct SymlinkCommand {}

impl SymlinkCommand {
    /// Parses the entry and creates the links, honoring its `force` flag;
    /// an entry that does not parse fails with the parse error, before
    /// any filesystem effect.
    pub fn install(&self, args: &ConfigValue, config: &CommandConfig) -> (r: Result<(), String>)
        ensures
            dir_spec_of(*args, config.config_dir@) matches Err(m2) ==> (r matches Err(m) && m@
                == m2),
    {
        let dirs = match get_source_and_target(args, config.config_dir.as_str()) {
            Ok(d) => d,
            Err(e) => {
                return Err(e);
            },
        };
        let ignore = patterns_as_values(&dirs.ignore);
        create_symlink(dirs.src.as_str(), dirs.target.as_str(), ignore, should_force(args))
    }

    /// Parses the entry and removes the links it would have created; an
    /// entry that does not parse fails with the parse error, before any
    /// filesystem effect.
    pub fn uninstall(&self, args: &ConfigValue, config: &CommandConfig) -> (r: Result<(), String>)
        ensures
            dir_spec_of(*args, config.config_dir@) matches Err(m2) ==> (r matches Err(m) && m@
                == m2),
    {
        let dirs = match get_source_and_target(args, config.config_dir.as_str()) {
            Ok(d) => d,
            Err(e) => {
                return Err(e);
            },
        };
        remove_symlink(dirs.src.as_str(), dirs.target.as_str())
    }

    /// Updating forwards to the install, linking being idempotent for
    /// links that already point at the source, so it carries the same
    /// parse-error contract.
    pub fn update(&self, args: &ConfigValue, config: &CommandConfig) -> (r: Result<(), String>)
        ensures
            dir_spec_of(*args, config.config_dir@) matches Err(m2) ==> (r matches Err(m) && m@
                == m2),
    {
        self.install(args, config)
    }
}

} // verus!

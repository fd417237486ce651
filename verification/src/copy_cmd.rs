//! The copy command: mirrors a source tree into a destination tree by
//! copying every regular file, and on uninstall removes exactly the
//! mirrored regular files that such an install put there, leaving
//! unrelated files in the destination untouched. The decisions — entry
//! parsing, the same-directory guard, ignore filtering, walk planning and
//! the per-file policies — are verified; the filesystem effects run
//! through the trusted wrappers of the boundary module.

use vstd::prelude::*;
use crate::command::CommandConfig;
use crate::fsio::remove_tree;
use crate::config_value::ConfigValue;
use crate::paths::{check_same_dir, collect_patterns, dir_spec_of, expand_dir, expand_path,
    get_source_and_target, patterns_as_values};
use crate::tree_sync::{FileAction, walk_files};

verus! {

/// Copies every non-ignored regular file under `source` to its mirrored
/// path under `destination`. Both sides are expanded: the source must be
/// an existing directory (a missing one fails while resolving it), the
/// destination is created as needed, and an entry whose source and target
/// resolve to the same directory fails the `check_same_dir` guard before
/// any walk. A destination file that already exists is a per-file error;
/// the walk still visits the remaining files and reports the first error.
pub fn copy_dir(source: &str, destination: &str, ignore: Vec<ConfigValue>) -> (r: Result<
    (),
    String,
>)
    ensures
        crate::paths::dollar_hazard(source@) ==> (r matches Err(m) && m@ == "cannot expand path: "@
            + source@),
{
    let source_dir = match expand_dir(source, false) {
        Ok(d) => d,
        Err(e) => {
            return Err(e);
        },
    };
    let destination_dir = match expand_dir(destination, true) {
        Ok(d) => d,
        Err(e) => {
            return Err(e);
        },
    };
    match check_same_dir(source, &source_dir, &destination_dir) {
        Ok(()) => {},
        Err(e) => {
            return Err(e);
        },
    }
    let patterns = collect_patterns(&ignore);
    walk_files(source_dir.as_str(), destination_dir.as_str(), &patterns, &FileAction::CopyFile)
}

/// Removes the mirrored regular file of every non-ignored regular file
/// under `source` from under `destination`, and nothing else: symlinks,
/// directories, missing paths and files at non-mirrored paths are left
/// alone (see `remove_decision`), so an uninstall takes back what the
/// matching install copied and keeps the destination's unrelated files.
/// Mirrored directories are kept: a directory may predate the install or
/// hold unrelated files.
pub fn remove_copied(source: &str, destination: &str, ignore: &Vec<String>) -> (r: Result<
    (),
    String,
>)
    ensures
        crate::paths::dollar_hazard(source@) ==> (r matches Err(m) && m@ == "cannot expand path: "@
            + source@),
{
    let source_dir = match expand_dir(source, false) {
        Ok(d) => d,
        Err(e) => {
            return Err(e);
        },
    };
    let destination_dir = match expand_path(destination) {
        Ok(d) => d,
        Err(e) => {
            return Err(e);
        },
    };
    walk_files(source_dir.as_str(), destination_dir.as_str(), ignore, &FileAction::RemoveFile)
}

/// Removes the directory at `target` (expanded, and required to exist)
/// and everything under it, pre-existing contents included. The uninstall
/// path does not use this — it takes back only what install created — but
/// the wholesale removal stays available to callers that want it.
pub fn remove_dir(target: &str) -> (r: Result<(), String>)
    ensures
        crate::paths::dollar_hazard(target@) ==> (r matches Err(m) && m@ == "cannot expand path: "@
            + target@),
{
    let expanded = match expand_dir(target, false) {
        Ok(d) => d,
        Err(e) => {
            return Err(e);
        },
    };
    remove_tree(expanded.as_str())
}

/// The copy command: copies a source tree on install and removes the
/// copied destination tree on uninstall.
pub struct CopyDirCommand {}

impl CopyDirCommand {
    /// Parses the entry and copies the tree; an entry that does not parse
    /// fails with the parse error, before any filesystem effect.
    pub fn install(&self, args: &ConfigValue, config: &CommandConfig) -> (r: Result<(), String>)
        ensures
            dir_spec_of(*args, config.config_dir@) matches Err(m2) ==> (r matches Err(m) && m@
                == m2),
    {
        let dirs = match get_source_and_target(args, config.config_dir.as_str()) {
            Ok(d) => d,
            Err(e) => {
                return Err(e);
            },
        };
        let ignore = patterns_as_values(&dirs.ignore);
        copy_dir(dirs.src.as_str(), dirs.target.as_str(), ignore)
    }

    /// Parses the entry and takes back what the matching install copied:
    /// the mirrored regular files of the source tree, and nothing else
    /// (see `remove_copied`). An entry that does not parse fails with the
    /// parse error, before any filesystem effect.
    pub fn uninstall(&self, args: &ConfigValue, config: &CommandConfig) -> (r: Result<(), String>)
        ensures
            dir_spec_of(*args, config.config_dir@) matches Err(m2) ==> (r matches Err(m) && m@
                == m2),
    {
        let dirs = match get_source_and_target(args, config.config_dir.as_str()) {
            Ok(d) => d,
            Err(e) => {
                return Err(e);
            },
        };
        remove_copied(dirs.src.as_str(), dirs.target.as_str(), &dirs.ignore)
    }

    /// Updating a copied tree is not provided: copying again cannot tell
    /// the destination's files from ones a user changed in place.
    pub fn update(&self, args: &ConfigValue, config: &CommandConfig) -> (r: Result<(), String>)
        ensures
            r matches Err(m) && m@ == "update is not supported for copied directories"@,
    {
        Err(String::from_str("update is not supported for copied directories"))
    }
}

} // verus!

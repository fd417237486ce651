//! The filesystem boundary of the library: every call into the outside
//! world goes through one of these trusted wrappers, each holding exactly
//! one outside call. Their results depend on the state of the disk and the
//! environment, so their contracts state only what holds of every outcome;
//! the verified logic takes their results as plain values and decides from
//! there.

use vstd::prelude::*;
use crate::paths::dollar_hazard;
use crate::tree_sync::TreeEntry;

verus! {

/// Relies on ergo_fs::expand (shellexpand::full): expands a leading `~`
/// and `$`-variables from the environment; input without either character
/// is returned unchanged, and only a `$`-lookup can fail. The expansion
/// slices the input one byte behind a `$` that starts a variable name, so
/// a multi-byte character right after a `$` can make it panic
/// mid-character; `requires` keeps such inputs out, and callers refuse
/// them first.
#[verifier::external_body]
pub(crate) fn expand_str(raw: &str) -> (r: Result<String, String>)
    requires
        !dollar_hazard(raw@),
    ensures
        r matches Ok(e) ==> ((forall|i: int|
            0 <= i < raw@.len() ==> raw@[i] != '~' && raw@[i] != '$') ==> e@ == raw@),
        r matches Err(m) ==> exists|i: int| 0 <= i < raw@.len() && raw@[i] == '$',
{
    ergo_fs::expand(raw).map(|c| c.into_owned()).map_err(|e| e.to_string())
}

/// Relies on path_abs::PathArc::absolute: joins a relative path onto the
/// current directory and resolves `.` and `..` lexically, without
/// requiring the path to exist.
#[verifier::external_body]
pub(crate) fn absolute_path(path: &str) -> (r: Result<String, String>) {
    ergo_fs::PathArc::new(path).absolute().map(|p| p.display().to_string()).map_err(
        |e| e.to_string(),
    )
}

/// Relies on path_abs::PathDir::new: absolutizes the path and errors when
/// it is not an existing directory (the message ends `when resolving
/// <path>`).
#[verifier::external_body]
pub(crate) fn resolve_dir(path: &str) -> (r: Result<String, String>) {
    ergo_fs::PathDir::new(path).map(|d| d.display().to_string()).map_err(|e| e.to_string())
}

/// Relies on path_abs::PathDir::create_all: creates the directory and any
/// missing ancestors; an existing directory is not an error.
#[verifier::external_body]
pub(crate) fn create_dir_all(path: &str) -> (r: Result<String, String>) {
    ergo_fs::PathDir::create_all(path).map(|d| d.display().to_string()).map_err(|e| e.to_string())
}

/// Relies on std::path::Path::exists.
#[verifier::external_body]
pub(crate) fn path_exists(path: &str) -> (r: bool) {
    std::path::Path::new(path).exists()
}

/// Relies on std::path::Path::is_file: true for an existing regular file
/// (following symlinks).
#[verifier::external_body]
pub(crate) fn path_is_file(path: &str) -> (r: bool) {
    std::path::Path::new(path).is_file()
}

/// Relies on std::path::Path::is_symlink: true for an existing symlink,
/// without following it.
#[verifier::external_body]
pub(crate) fn path_is_symlink(path: &str) -> (r: bool) {
    std::path::Path::new(path).is_symlink()
}

/// Relies on path_abs::PathFile::new and PathFile::copy: copies the bytes
/// of the source file to the destination path.
#[verifier::external_body]
pub(crate) fn copy_file(src: &str, dest: &str) -> (r: Result<(), String>) {
    match ergo_fs::PathFile::new(src) {
        Ok(f) => f.copy(dest).map(|_| ()).map_err(|e| e.to_string()),
        Err(e) => Err(e.to_string()),
    }
}

/// Relies on symlink::symlink_file: creates a symlink at `dest` pointing
/// to `src`; fails when `dest` already exists.
#[verifier::external_body]
pub(crate) fn make_symlink(src: &str, dest: &str) -> (r: Result<(), String>) {
    symlink::symlink_file(src, dest).map_err(|e| e.to_string())
}

/// Relies on symlink::remove_symlink_file (std::fs::remove_file on Unix):
/// callers check that the path is a symlink first.
#[verifier::external_body]
pub(crate) fn remove_symlink_at(path: &str) -> (r: Result<(), String>) {
    symlink::remove_symlink_file(path).map_err(|e| e.to_string())
}

/// Relies on path_abs::PathFile::new and PathFile::remove: removes the
/// regular file at the path.
#[verifier::external_body]
pub(crate) fn remove_file_at(path: &str) -> (r: Result<(), String>) {
    match ergo_fs::PathFile::new(path) {
        Ok(f) => f.remove().map_err(|e| e.to_string()),
        Err(e) => Err(e.to_string()),
    }
}

/// Relies on path_abs::PathDir::new and PathDir::remove_all: removes the
/// directory and everything under it.
#[verifier::external_body]
pub(crate) fn remove_tree(path: &str) -> (r: Result<(), String>) {
    match ergo_fs::PathDir::new(path) {
        Ok(d) => d.remove_all().map_err(|e| e.to_string()),
        Err(e) => Err(e.to_string()),
    }
}

/// Relies on walkdir (through ergo_fs::WalkDir) with min_depth(1): yields
/// every entry strictly under the root exactly once, depth first, each
/// with its path relative to the root; the root itself is never yielded,
/// so every relative path is non-empty. Distinct entries have distinct
/// paths, and each is converted exactly (a name that is not valid UTF-8
/// is an error rather than a lossy rendering that could collide with a
/// sibling), so the relative paths stay pairwise distinct.
#[verifier::external_body]
pub(crate) fn list_tree(root: &str) -> (r: Result<Vec<TreeEntry>, String>)
    ensures
        r matches Ok(v) ==> forall|i: int| 0 <= i < v@.len() ==> v@[i].rel@.len() > 0,
        r matches Ok(v) ==> forall|i: int, j: int|
            0 <= i < j < v@.len() ==> v@[i].rel@ != v@[j].rel@,
{
    let mut out: Vec<TreeEntry> = Vec::new();
    for entry in ergo_fs::WalkDir::new(root).min_depth(1) {
        let e = entry.map_err(|e| e.to_string())?;
        let p = e.path().strip_prefix(root).map_err(|e| e.to_string())?;
        let rel = match p.to_str() {
            Some(s) => s.to_string(),
            None => return Err(format!("path is not valid UTF-8: {}", p.display())),
        };
        out.push(TreeEntry { rel, is_dir: e.file_type().is_dir() });
    }
    Ok(out)
}

} // verus!

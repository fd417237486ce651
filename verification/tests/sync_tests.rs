//! Filesystem scenarios for the copy and symlink commands, run in
//! temporary directories.

use std::path::Path;

use provision::command::CommandConfig;
use provision::config_value::ConfigValue;
use provision::copy_cmd::{copy_dir, remove_copied, remove_dir, CopyDirCommand};
use provision::paths::{expand_dir, expand_path};
use provision::symlink_cmd::{create_symlink, remove_symlink};
use tempfile::{tempdir, NamedTempFile};

fn touch(path: &Path) {
    ergo_fs::PathFile::create(path).unwrap();
}

#[test]
fn it_fails_when_src_dir_doesnt_exist() {
    assert!(copy_dir("invalid", "invalid", vec![])
        .unwrap_err()
        .contains("path is not a dir when resolving"));
}

#[test]
fn copy_it_fails_when_dirs_are_the_same() {
    let dir = tempdir().unwrap();
    let src_path = dir.path();
    let _src_file = NamedTempFile::new_in(src_path).unwrap();
    let src = src_path.to_str().unwrap();

    assert!(copy_dir(src, src, vec![])
        .unwrap_err()
        .contains("Source and destination directories are the same"));
}

#[test]
fn it_fails_when_dest_file_exists() {
    let src_dir = tempdir().unwrap();
    let src = src_dir.path().to_str().unwrap();
    let src_file = NamedTempFile::new_in(src_dir.path()).unwrap();

    let dest_dir = tempdir().unwrap();
    let dest = dest_dir.path().to_str().unwrap();
    let dest_file = dest_dir.path().join(src_file.path().file_name().unwrap());
    touch(&dest_file);

    assert!(copy_dir(src, dest, vec![])
        .unwrap_err()
        .contains("Destination file already exists"));
}

#[test]
fn it_copies_files() {
    let src_dir = tempdir().unwrap();
    let src = src_dir.path().to_str().unwrap();
    let src_file = NamedTempFile::new_in(src_dir.path()).unwrap();

    let dest_dir = tempdir().unwrap();
    let dest = dest_dir.path().to_str().unwrap();

    assert!(copy_dir(src, dest, vec![]).is_ok());

    let dest_file = dest_dir.path().join(src_file.path().file_name().unwrap());

    assert!(dest_file.exists());
}

#[test]
fn it_removes_dir() {
    let dir = tempdir().unwrap();
    let path = dir.path().to_str().unwrap();

    assert!(remove_dir(path).is_ok());
    assert!(!dir.path().exists());
}

#[test]
fn copy_skips_ignored_files() {
    let src_dir = tempdir().unwrap();
    let src = src_dir.path().to_str().unwrap();
    touch(&src_dir.path().join("keep.txt"));
    touch(&src_dir.path().join("skip.log"));

    let dest_dir = tempdir().unwrap();
    let dest = dest_dir.path().to_str().unwrap();

    let ignore = vec![ConfigValue::Str(String::from("*.log"))];
    assert!(copy_dir(src, dest, ignore).is_ok());

    assert!(dest_dir.path().join("keep.txt").exists());
    assert!(!dest_dir.path().join("skip.log").exists());
}

#[test]
fn copy_mirrors_subdirectories() {
    let src_dir = tempdir().unwrap();
    let src = src_dir.path().to_str().unwrap();
    ergo_fs::PathDir::create(src_dir.path().join("sub")).unwrap();
    touch(&src_dir.path().join("sub").join("inner.txt"));

    let dest_dir = tempdir().unwrap();
    let dest = dest_dir.path().to_str().unwrap();

    assert!(copy_dir(src, dest, vec![]).is_ok());
    assert!(dest_dir.path().join("sub").join("inner.txt").exists());
}

#[test]
fn symlink_it_fails_when_dirs_are_the_same() {
    let dir = tempdir().unwrap();
    let src_path = dir.path();
    touch(&src_path.join("example.txt"));

    let src = src_path.to_str().unwrap();

    println!("{:?}", create_symlink(src, src, vec![], false));

    assert!(create_symlink(src, src, vec![], false)
        .unwrap_err()
        .contains("Source and destination directories are the same"));
}

#[test]
fn it_symlinks_files() {
    let src_dir = tempdir().unwrap();
    let src = src_dir.path().to_str().unwrap();
    touch(&src_dir.path().join("example.txt"));

    let dest_dir = tempdir().unwrap();
    let dest = dest_dir.path().to_str().unwrap();

    create_symlink(src, dest, vec![], false).unwrap();

    let dest_path = dest_dir.path().join("example.txt");
    assert!(dest_path.is_symlink())
}

#[test]
fn it_overrides_file_with_symlink() {
    let src_dir = tempdir().unwrap();
    let src = src_dir.path().to_str().unwrap();
    touch(&src_dir.path().join("example.txt"));

    let dest_dir = tempdir().unwrap();
    let dest = dest_dir.path().to_str().unwrap();
    let dest_path = dest_dir.path().join("example.txt");

    touch(&dest_path);

    create_symlink(src, dest, vec![], true).unwrap();

    assert!(dest_path.is_symlink());
}

#[test]
fn it_removes_symlink() {
    let src_dir = tempdir().unwrap();
    let src = src_dir.path().to_str().unwrap();
    touch(&src_dir.path().join("example.txt"));

    let dest_dir = tempdir().unwrap();
    let dest = dest_dir.path().to_str().unwrap();

    create_symlink(src, dest, vec![], false).unwrap();

    let dest_path = dest_dir.path().join("example.txt");
    assert!(dest_path.exists());

    remove_symlink(src, dest).unwrap();

    assert!(!dest_path.exists());
}

#[test]
fn without_force_the_existing_file_is_kept() {
    let src_dir = tempdir().unwrap();
    let src = src_dir.path().to_str().unwrap();
    touch(&src_dir.path().join("example.txt"));

    let dest_dir = tempdir().unwrap();
    let dest = dest_dir.path().to_str().unwrap();
    let dest_path = dest_dir.path().join("example.txt");

    touch(&dest_path);

    assert!(create_symlink(src, dest, vec![], false).is_err());
    assert!(dest_path.exists());
    assert!(!dest_path.is_symlink());
}

#[test]
fn installing_twice_is_idempotent() {
    let src_dir = tempdir().unwrap();
    let src = src_dir.path().to_str().unwrap();
    touch(&src_dir.path().join("example.txt"));

    let dest_dir = tempdir().unwrap();
    let dest = dest_dir.path().to_str().unwrap();

    create_symlink(src, dest, vec![], false).unwrap();
    create_symlink(src, dest, vec![], false).unwrap();
    create_symlink(src, dest, vec![], true).unwrap();

    let dest_path = dest_dir.path().join("example.txt");
    assert!(dest_path.is_symlink());
}

#[test]
fn uninstall_removes_only_what_install_created() {
    let src_dir = tempdir().unwrap();
    let src = src_dir.path().to_str().unwrap();
    touch(&src_dir.path().join("example.txt"));

    let dest_dir = tempdir().unwrap();
    let dest = dest_dir.path().to_str().unwrap();
    let unrelated = dest_dir.path().join("unrelated.txt");
    touch(&unrelated);

    create_symlink(src, dest, vec![], false).unwrap();
    remove_symlink(src, dest).unwrap();

    assert!(!dest_dir.path().join("example.txt").exists());
    assert!(unrelated.exists());
    assert!(!unrelated.is_symlink());
}

#[test]
fn symlink_install_ignores_patterns() {
    let src_dir = tempdir().unwrap();
    let src = src_dir.path().to_str().unwrap();
    touch(&src_dir.path().join("keep.txt"));
    touch(&src_dir.path().join("secret.key"));

    let dest_dir = tempdir().unwrap();
    let dest = dest_dir.path().to_str().unwrap();

    let ignore = vec![ConfigValue::Str(String::from("*.key"))];
    create_symlink(src, dest, ignore, false).unwrap();

    assert!(dest_dir.path().join("keep.txt").is_symlink());
    assert!(!dest_dir.path().join("secret.key").exists());
}

#[test]
fn expansion_yields_absolute_paths() {
    let p = expand_path("some-relative-name").unwrap();
    assert!(p.starts_with('/'));
    assert!(p.ends_with("some-relative-name"));
}

#[test]
fn expand_dir_creates_missing_directories() {
    let base = tempdir().unwrap();
    let wanted = base.path().join("a").join("b");
    let raw = wanted.to_str().unwrap();

    assert!(expand_dir(raw, false).is_err());
    let made = expand_dir(raw, true).unwrap();
    assert!(wanted.is_dir());
    assert_eq!(made, raw);
}

#[test]
fn expansion_refuses_a_dollar_before_a_wide_character() {
    let err = expand_path("$\u{e9}x").unwrap_err();
    assert_eq!(err, "cannot expand path: $\u{e9}x");
}

#[test]
fn copy_uninstall_takes_back_only_the_copied_files() {
    let src_dir = tempdir().unwrap();
    let src = src_dir.path().to_str().unwrap();
    touch(&src_dir.path().join("example.txt"));

    let dest_dir = tempdir().unwrap();
    let dest = dest_dir.path().to_str().unwrap();
    let unrelated = dest_dir.path().join("unrelated.txt");
    touch(&unrelated);

    copy_dir(src, dest, vec![]).unwrap();
    assert!(dest_dir.path().join("example.txt").exists());

    remove_copied(src, dest, &vec![]).unwrap();

    assert!(!dest_dir.path().join("example.txt").exists());
    assert!(unrelated.exists());
    assert!(dest_dir.path().exists());
}

#[test]
fn copy_command_round_trips_through_an_entry() {
    let src_dir = tempdir().unwrap();
    touch(&src_dir.path().join("example.txt"));
    let dest_dir = tempdir().unwrap();
    let unrelated = dest_dir.path().join("unrelated.txt");
    touch(&unrelated);

    let entry = ConfigValue::Hash(vec![
        (
            String::from("src"),
            ConfigValue::Str(src_dir.path().to_str().unwrap().to_string()),
        ),
        (
            String::from("target"),
            ConfigValue::Str(dest_dir.path().to_str().unwrap().to_string()),
        ),
    ]);
    let config = CommandConfig {
        config_dir: String::from("."),
        default_shell: String::from("bash"),
        temp_dir: String::from("/tmp"),
    };

    let command = CopyDirCommand {};
    command.install(&entry, &config).unwrap();
    assert!(dest_dir.path().join("example.txt").exists());

    command.uninstall(&entry, &config).unwrap();
    assert!(!dest_dir.path().join("example.txt").exists());
    assert!(unrelated.exists());
}

#[test]
fn copy_uninstall_reports_a_missing_target() {
    let entry = ConfigValue::Hash(vec![(
        String::from("src"),
        ConfigValue::Str(String::from("somewhere")),
    )]);
    let config = CommandConfig {
        config_dir: String::from("."),
        default_shell: String::from("bash"),
        temp_dir: String::from("/tmp"),
    };

    let err = CopyDirCommand {}.uninstall(&entry, &config).unwrap_err();
    assert_eq!(err, "target: value is required");
}

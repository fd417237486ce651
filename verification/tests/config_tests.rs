//! Tests of the config value model, the validation engine, pattern
//! matching and directory entry parsing.

use provision::command::CommandConfig;
use provision::config_value::ConfigValue;
use provision::pattern::{glob_match_str, is_ignored, split_segments};
use provision::paths::get_source_and_target;
use provision::symlink_cmd::{should_force, SymlinkCommand};
use provision::validation::{validate_args, validate_named_args, Rule};

fn hash(entries: Vec<(&str, ConfigValue)>) -> ConfigValue {
    ConfigValue::Hash(entries.into_iter().map(|(k, v)| (String::from(k), v)).collect())
}

#[test]
fn rules_report_their_own_messages() {
    let value = ConfigValue::Bool(true);
    assert_eq!(
        validate_args(&value, &vec![Rule::IsString]).unwrap_err(),
        "value is not a string"
    );
    assert_eq!(
        validate_args(&value, &vec![Rule::IsArray]).unwrap_err(),
        "value is not an array"
    );
    assert_eq!(
        validate_args(&ConfigValue::Absent, &vec![Rule::Required]).unwrap_err(),
        "value is required"
    );
    assert!(validate_args(&value, &vec![Rule::Required]).is_ok());
}

#[test]
fn one_of_joins_all_sub_errors() {
    let rule = Rule::OneOf(vec![Rule::IsArray, Rule::IsString]);
    let err = validate_args(&ConfigValue::Bool(true), &vec![rule]).unwrap_err();
    assert_eq!(err, "value is not an array | value is not a string");
}

#[test]
fn one_of_with_no_sub_rules_fails_empty() {
    let rule = Rule::OneOf(vec![]);
    let err = validate_args(&ConfigValue::Bool(true), &vec![rule]).unwrap_err();
    assert_eq!(err, "");
}

#[test]
fn named_args_prefix_the_failing_key() {
    let args = hash(vec![("present", ConfigValue::Str(String::from("x")))]);
    let named = vec![(String::from("missing"), vec![Rule::Required])];
    assert_eq!(
        validate_named_args(&args, &named).unwrap_err(),
        "missing: value is required"
    );
}

#[test]
fn globs_match_within_a_segment() {
    assert!(glob_match_str("*.log", "debug.log"));
    assert!(glob_match_str("deb?g.log", "debug.log"));
    assert!(!glob_match_str("*.log", "debug.txt"));
    assert!(glob_match_str("*", ""));
    assert!(!glob_match_str("?", ""));
}

#[test]
fn segments_split_on_slashes() {
    assert_eq!(split_segments("a/b/c"), vec!["a", "b", "c"]);
    assert_eq!(split_segments("plain"), vec!["plain"]);
    assert_eq!(split_segments(""), vec![""]);
    assert_eq!(split_segments("a//b"), vec!["a", "", "b"]);
    assert_eq!(split_segments("/lead"), vec!["", "lead"]);
}

#[test]
fn patterns_are_case_sensitive() {
    assert!(!glob_match_str("Readme", "readme"));
    assert!(glob_match_str("readme", "readme"));
}

#[test]
fn a_path_is_ignored_when_any_segment_matches() {
    let patterns = vec![String::from("node_modules"), String::from("*.swp")];
    assert!(is_ignored("node_modules/lib/index.js", &patterns));
    assert!(is_ignored("src/editor.swp", &patterns));
    assert!(!is_ignored("src/main.rs", &patterns));
}

#[test]
fn a_directory_entry_parses_fully() {
    let args = hash(vec![
        ("src", ConfigValue::Str(String::from("dotfiles"))),
        ("target", ConfigValue::Str(String::from("~/config"))),
        (
            "ignore",
            ConfigValue::Array(vec![ConfigValue::Str(String::from("*.bak"))]),
        ),
        ("force", ConfigValue::Bool(true)),
    ]);

    let spec = get_source_and_target(&args, "/etc/provision").unwrap();
    assert_eq!(spec.src, "/etc/provision/dotfiles");
    assert_eq!(spec.target, "~/config");
    assert_eq!(spec.ignore, vec![String::from("*.bak")]);
    assert!(spec.force);
}

#[test]
fn a_relative_target_resolves_against_the_base() {
    let args = hash(vec![
        ("src", ConfigValue::Str(String::from("files"))),
        ("target", ConfigValue::Str(String::from("mirror"))),
    ]);

    let spec = get_source_and_target(&args, "/base").unwrap();
    assert_eq!(spec.src, "/base/files");
    assert_eq!(spec.target, "/base/mirror");
}

#[test]
fn an_absolute_source_is_kept() {
    let args = hash(vec![
        ("src", ConfigValue::Str(String::from("/var/data"))),
        ("target", ConfigValue::Str(String::from("/var/mirror"))),
    ]);

    let spec = get_source_and_target(&args, "/etc/provision").unwrap();
    assert_eq!(spec.src, "/var/data");
    assert_eq!(spec.ignore, Vec::<String>::new());
    assert!(!spec.force);
}

#[test]
fn a_missing_source_is_reported() {
    let args = hash(vec![("target", ConfigValue::Str(String::from("/tmp/x")))]);
    assert_eq!(
        get_source_and_target(&args, "/base").unwrap_err(),
        "src: value is required"
    );
}

#[test]
fn a_non_string_target_is_reported() {
    let args = hash(vec![
        ("src", ConfigValue::Str(String::from("a"))),
        ("target", ConfigValue::Bool(true)),
    ]);
    assert_eq!(
        get_source_and_target(&args, "/base").unwrap_err(),
        "target: value is not a string"
    );
}

#[test]
fn a_non_array_ignore_is_reported() {
    let args = hash(vec![
        ("src", ConfigValue::Str(String::from("a"))),
        ("target", ConfigValue::Str(String::from("b"))),
        ("ignore", ConfigValue::Str(String::from("oops"))),
    ]);
    assert_eq!(
        get_source_and_target(&args, "/base").unwrap_err(),
        "ignore: value is not an array"
    );
}

#[test]
fn force_defaults_to_false() {
    assert!(!should_force(&ConfigValue::Str(String::from("x"))));
    assert!(!should_force(&hash(vec![(
        "force",
        ConfigValue::Str(String::from("yes"))
    )])));
    assert!(should_force(&hash(vec![("force", ConfigValue::Bool(true))])));
    assert!(!should_force(&hash(vec![("force", ConfigValue::Bool(false))])));
}

#[test]
fn duplicate_keys_read_the_first_entry() {
    let args = ConfigValue::Hash(vec![
        (String::from("force"), ConfigValue::Bool(true)),
        (String::from("force"), ConfigValue::Bool(false)),
    ]);
    assert!(should_force(&args));
}

#[test]
fn a_symlink_entry_that_is_no_mapping_fails() {
    let config = CommandConfig {
        config_dir: String::from("/etc/provision"),
        default_shell: String::from("bash"),
        temp_dir: String::from("/tmp"),
    };
    let err = SymlinkCommand {}
        .install(&ConfigValue::Str(String::from("just-a-source")), &config)
        .unwrap_err();
    assert_eq!(err, "args is not an object");
}

#[test]
fn accessors_follow_the_variant() {
    let s = ConfigValue::Str(String::from("x"));
    assert!(s.is_string());
    assert!(!s.is_array());
    assert!(!s.is_hash());
    assert_eq!(s.as_str().unwrap(), "x");
    assert!(s.as_bool().is_none());

    let b = ConfigValue::Bool(true);
    assert_eq!(b.as_bool(), Some(true));
    assert!(b.as_str().is_none());

    let a = ConfigValue::Array(vec![ConfigValue::Bool(false)]);
    assert!(a.is_array());
    assert_eq!(a.as_vec().unwrap().len(), 1);

    let h = hash(vec![("k", ConfigValue::Str(String::from("v")))]);
    assert!(h.is_hash());
    assert_eq!(h.as_hash().unwrap().len(), 1);
}

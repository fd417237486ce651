//! Tests of the command resolver and the shell execution pipeline's
//! computing half.

use provision::config_value::ConfigValue;
use provision::command::CommandConfig;
use provision::run_cmd::{command_outcome, get_commands, prepare_run, render_script, RunCommand};
use provision::task_mode::TaskRunnerMode;

fn hash(entries: Vec<(&str, ConfigValue)>) -> ConfigValue {
    ConfigValue::Hash(entries.into_iter().map(|(k, v)| (String::from(k), v)).collect())
}

#[test]
fn it_gets_command_from_string() {
    let command = "echo hello";

    let commands = get_commands(
        &ConfigValue::Str(command.to_string()),
        TaskRunnerMode::Install,
    );

    assert!(commands.is_ok());
    assert_eq!(vec![command.to_string()], commands.unwrap());
}

#[test]
fn it_gets_commands_from_array() {
    let commands = ConfigValue::Array(vec![
        ConfigValue::Str(String::from("command1")),
        ConfigValue::Str(String::from("command2")),
    ]);

    let commands = get_commands(&commands, TaskRunnerMode::Install);
    assert!(commands.is_ok());
    assert_eq!(
        commands.unwrap(),
        vec![String::from("command1"), String::from("command2")]
    );
}

#[test]
fn it_gets_install_commands() {
    let commands = hash(vec![(
        "install",
        ConfigValue::Array(vec![
            ConfigValue::Str("command1".to_string()),
            ConfigValue::Str("command2".to_string()),
        ]),
    )]);

    let commands = get_commands(&commands, TaskRunnerMode::Install);
    assert!(commands.is_ok());
    assert_eq!(
        commands.unwrap(),
        vec![String::from("command1"), String::from("command2")]
    );
}

#[test]
fn it_gets_install_command_string() {
    let commands = hash(vec![("install", ConfigValue::Str(String::from("command1")))]);

    let commands = get_commands(&commands, TaskRunnerMode::Install);
    assert!(commands.is_ok());
    assert_eq!(commands.unwrap(), vec![String::from("command1")]);
}

#[test]
fn it_gets_uninstall_commands() {
    let commands = hash(vec![(
        "uninstall",
        ConfigValue::Array(vec![
            ConfigValue::Str("command1".to_string()),
            ConfigValue::Str("command2".to_string()),
        ]),
    )]);

    let commands = get_commands(&commands, TaskRunnerMode::Uninstall);
    assert!(commands.is_ok());
    assert_eq!(
        commands.unwrap(),
        vec![String::from("command1"), String::from("command2")]
    );
}

#[test]
fn it_gets_uninstall_command_string() {
    let commands = hash(vec![("uninstall", ConfigValue::Str(String::from("command1")))]);

    let commands = get_commands(&commands, TaskRunnerMode::Uninstall);
    assert!(commands.is_ok());
    assert_eq!(commands.unwrap(), vec![String::from("command1")]);
}

#[test]
fn it_gets_update_commands() {
    let commands = hash(vec![(
        "update",
        ConfigValue::Array(vec![
            ConfigValue::Str("command1".to_string()),
            ConfigValue::Str("command2".to_string()),
        ]),
    )]);

    let commands = get_commands(&commands, TaskRunnerMode::Update);
    assert!(commands.is_ok());
    assert_eq!(
        commands.unwrap(),
        vec![String::from("command1"), String::from("command2")]
    );
}

#[test]
fn it_gets_update_command_string() {
    let commands = hash(vec![("update", ConfigValue::Str(String::from("command1")))]);

    let commands = get_commands(&commands, TaskRunnerMode::Update);
    assert!(commands.is_ok());
    assert_eq!(commands.unwrap(), vec![String::from("command1")]);
}

#[test]
fn it_skips_command_when_method_is_not_defined() {
    let commands = hash(vec![("invalid", ConfigValue::Str(String::from("command1")))]);

    let commands = get_commands(&commands, TaskRunnerMode::Install);

    assert_eq!(commands.unwrap(), vec![] as Vec<String>);
}

#[test]
fn a_bare_string_resolves_for_every_mode() {
    for mode in [
        TaskRunnerMode::Install,
        TaskRunnerMode::Uninstall,
        TaskRunnerMode::Update,
    ] {
        let commands = get_commands(&ConfigValue::Str(String::from("echo hi")), mode);
        assert_eq!(commands.unwrap(), vec![String::from("echo hi")]);
    }
}

#[test]
fn an_install_only_entry_is_empty_under_uninstall() {
    let commands = hash(vec![(
        "install",
        ConfigValue::Array(vec![
            ConfigValue::Str(String::from("a")),
            ConfigValue::Str(String::from("b")),
        ]),
    )]);

    let commands = get_commands(&commands, TaskRunnerMode::Uninstall);
    assert_eq!(commands.unwrap(), vec![] as Vec<String>);
}

#[test]
fn a_non_string_mode_value_names_both_violations() {
    let commands = hash(vec![("install", ConfigValue::Bool(true))]);

    let err = get_commands(&commands, TaskRunnerMode::Install).unwrap_err();
    assert_eq!(
        err,
        "install: value is not an array | value is not a string"
    );
}

#[test]
fn a_non_string_array_element_fails() {
    let commands = ConfigValue::Array(vec![
        ConfigValue::Str(String::from("ok")),
        ConfigValue::Bool(false),
    ]);

    let err = get_commands(&commands, TaskRunnerMode::Install).unwrap_err();
    assert_eq!(err, "value is not a string");
}

#[test]
fn mode_names_are_canonical() {
    assert_eq!(TaskRunnerMode::Install.name(), "install");
    assert_eq!(TaskRunnerMode::Uninstall.name(), "uninstall");
    assert_eq!(TaskRunnerMode::Update.name(), "update");
}

#[test]
fn a_script_holds_header_and_commands() {
    let script = render_script(
        "bash",
        &vec![String::from("echo one"), String::from("echo two")],
    );
    assert_eq!(script, "#!/bin/bash\necho one\necho two");
}

#[test]
fn an_unknown_shell_falls_back_to_bash() {
    let script = render_script("powershell", &vec![String::from("echo hi")]);
    assert_eq!(script, "#!/bin/bash\necho hi");
}

#[test]
fn zsh_gets_its_own_header() {
    let script = render_script("zsh", &vec![String::from("echo hi")]);
    assert_eq!(script, "#!/bin/zsh\necho hi");
}

#[test]
fn a_failing_command_reports_a_non_empty_message() {
    // The outcome a run of ["exit 3"] captures: non-zero status, nothing
    // written to either stream.
    let outcome = command_outcome(false, String::new(), String::new());
    let err = outcome.unwrap_err();
    assert!(!err.is_empty());
}

#[test]
fn a_failing_command_prefers_stderr() {
    let outcome = command_outcome(false, String::from("out"), String::from("boom"));
    assert_eq!(outcome.unwrap_err(), "boom");
}

#[test]
fn a_failing_command_falls_back_to_stdout() {
    let outcome = command_outcome(false, String::from("only out"), String::new());
    assert_eq!(outcome.unwrap_err(), "only out");
}

#[test]
fn a_succeeding_command_returns_its_output() {
    // The outcome a run of ["echo ok"] captures.
    let outcome = command_outcome(true, String::from("ok\n"), String::new());
    assert!(outcome.unwrap().contains("ok"));
}

fn test_config() -> CommandConfig {
    CommandConfig {
        config_dir: String::from("/etc/provision"),
        default_shell: String::from("bash"),
        temp_dir: String::from("/tmp"),
    }
}

#[test]
fn a_run_entry_resolves_to_a_plan() {
    let args = hash(vec![("commands", ConfigValue::Str(String::from("echo ok")))]);

    let plan = RunCommand {}.install(&args, &test_config()).unwrap();
    assert_eq!(plan.shell, "bash");
    assert_eq!(plan.script, "#!/bin/bash\necho ok");
    assert_eq!(plan.temp_dir, "/tmp");
}

#[test]
fn a_run_entry_uses_its_own_shell() {
    let args = hash(vec![
        ("commands", ConfigValue::Str(String::from("echo ok"))),
        ("shell", ConfigValue::Str(String::from("zsh"))),
    ]);

    let plan = prepare_run(&args, TaskRunnerMode::Install, &test_config()).unwrap();
    assert_eq!(plan.shell, "zsh");
    assert_eq!(plan.script, "#!/bin/zsh\necho ok");
}

#[test]
fn a_run_entry_without_commands_fails() {
    let args = hash(vec![("shell", ConfigValue::Str(String::from("bash")))]);

    let err = RunCommand {}.uninstall(&args, &test_config()).unwrap_err();
    assert_eq!(err, "\"commands\" key is missing in args");
}

#[test]
fn a_run_entry_that_is_no_mapping_fails() {
    let err = RunCommand {}
        .update(&ConfigValue::Str(String::from("echo hi")), &test_config())
        .unwrap_err();
    assert_eq!(err, "args is not an object");
}

#[test]
fn a_run_entry_with_a_non_string_shell_fails() {
    let args = hash(vec![
        ("commands", ConfigValue::Str(String::from("echo ok"))),
        ("shell", ConfigValue::Bool(true)),
    ]);

    let err = prepare_run(&args, TaskRunnerMode::Install, &test_config()).unwrap_err();
    assert_eq!(err, "shell is not a string");
}

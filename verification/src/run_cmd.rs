//! The mode-aware command resolver and the computing half of the shell
//! execution pipeline. A run entry's config value (string, array, or
//! mode-keyed mapping) is resolved into an ordered command list for the
//! active mode, rendered into interpreter script text, and a finished
//! process's captured outcome is mapped to success or failure. Spawning
//! the interpreter and streaming its output is I/O and lives outside the
//! library; it receives a `RunPlan` and reports back through
//! `command_outcome`.

use vstd::prelude::*;
use crate::command::CommandConfig;
use crate::config_value::{ConfigValue, hash_get, lookup};
use crate::strutil::{join_seqs, join_strings, str_concat, str_concat3, str_eq, strs};
use crate::task_mode::{TaskRunnerMode, mode_name};
use crate::validation::{Rule, errors_of, first_failure, rule_error, rule_passes, validate_args};

verus! {

/// Whether `v` has an accepted command shape: a string or an array.
pub open spec fn shape_ok(v: ConfigValue) -> bool {
    v is Str || v is Array
}

/// Whether every element of `es` is a string.
pub open spec fn all_strings(es: Seq<ConfigValue>) -> bool {
    forall|i: int| 0 <= i < es.len() ==> es[i] is Str
}

/// Whether `v` converts to a command list: a string, or an array of
/// strings only.
pub open spec fn elems_ok(v: ConfigValue) -> bool {
    v is Str || (v is Array && all_strings(v->Array_0@))
}

/// The strings held by a sequence of string config values, in order.
pub open spec fn strings_of(es: Seq<ConfigValue>) -> Seq<Seq<char>>
    decreases es.len(),
{
    if es.len() == 0 {
        Seq::empty()
    } else {
        seq![es[0]->Str_0@] + strings_of(es.drop_first())
    }
}

/// Reading one more element appends its string.
proof fn lemma_strings_of_push(es: Seq<ConfigValue>, e: ConfigValue)
    ensures
        strings_of(es.push(e)) =~= strings_of(es).push(e->Str_0@),
    decreases es.len(),
{
    if es.len() == 0 {
        assert(es.push(e).drop_first() =~= Seq::<ConfigValue>::empty());
        assert(es.push(e)[0] == e);
        assert(strings_of(Seq::<ConfigValue>::empty()) =~= Seq::<Seq<char>>::empty());
        assert(es =~= Seq::<ConfigValue>::empty());
    } else {
        assert(es.push(e).drop_first() =~= es.drop_first().push(e));
        lemma_strings_of_push(es.drop_first(), e);
        assert(es.push(e)[0] == es[0]);
    }
}

/// The command list a valid value converts to: a string becomes a
/// single-element list, an array contributes its elements in order.
pub open spec fn commands_of(v: ConfigValue) -> Seq<Seq<char>> {
    if v is Str {
        seq![v->Str_0@]
    } else {
        strings_of(v->Array_0@)
    }
}

/// The joined message of the string-or-array rule.
pub open spec fn shape_error() -> Seq<char> {
    "value is not an array"@ + " | "@ + "value is not a string"@
}

/// The message when an array element is not a string.
pub open spec fn element_error() -> Seq<char> {
    "value is not a string"@
}

/// What `get_commands` resolves `args` to under `mode`: the command list,
/// or the reported error message. A mapping without a key for the mode
/// resolves to the empty list (nothing to do, not an error).
pub open spec fn resolve_commands(args: ConfigValue, mode: TaskRunnerMode) -> Result<
    Seq<Seq<char>>,
    Seq<char>,
> {
    if args is Hash {
        match lookup(args->Hash_0@, mode_name(mode)) {
            None => Ok(Seq::empty()),
            Some(mv) => if !shape_ok(mv) {
                Err(mode_name(mode) + ": "@ + shape_error())
            } else if !elems_ok(mv) {
                Err(mode_name(mode) + ": "@ + element_error())
            } else {
                Ok(commands_of(mv))
            },
        }
    } else {
        if !shape_ok(args) {
            Err(shape_error())
        } else if !elems_ok(args) {
            Err(element_error())
        } else {
            Ok(commands_of(args))
        }
    }
}

/// The string-or-array rule every command value is validated with.
fn str_or_array_rule() -> (r: Rule)
    ensures
        r is OneOf,
        r->OneOf_0@ =~= seq![Rule::IsArray, Rule::IsString],
{
    let mut sub: Vec<Rule> = Vec::new();
    sub.push(Rule::IsArray);
    sub.push(Rule::IsString);
    Rule::OneOf(sub)
}

/// The string-or-array rule passes exactly the accepted shapes, and fails
/// with the join of both sub-rule messages.
proof fn lemma_str_or_array(r: Rule, v: ConfigValue)
    requires
        r is OneOf,
        r->OneOf_0@ =~= seq![Rule::IsArray, Rule::IsString],
    ensures
        rule_passes(r, v) <==> shape_ok(v),
        rule_error(r) == shape_error(),
{
    let rs = r->OneOf_0@;
    if v is Array {
        assert(rule_passes(rs[0], v));
    }
    if v is Str {
        assert(rule_passes(rs[1], v));
    }
    if rule_passes(r, v) {
        let i = choose|i: int| 0 <= i < rs.len() && rule_passes(#[trigger] rs[i], v);
        assert(i == 0 || i == 1);
    }
    assert(rs.drop_first() =~= seq![Rule::IsString]);
    assert(rs.drop_first().drop_first() =~= Seq::<Rule>::empty());
    assert(errors_of(rs.drop_first().drop_first()) =~= Seq::<Seq<char>>::empty());
    assert(errors_of(rs.drop_first()) =~= seq![rule_error(Rule::IsString)]);
    assert(errors_of(rs) =~= seq![rule_error(Rule::IsArray), rule_error(Rule::IsString)]);
    assert(errors_of(rs).drop_first() =~= seq![rule_error(Rule::IsString)]);
    assert(errors_of(rs)[0] == rule_error(Rule::IsArray));
    assert(join_seqs(seq![rule_error(Rule::IsString)], " | "@) == rule_error(Rule::IsString));
    assert(join_seqs(errors_of(rs), " | "@) == errors_of(rs)[0] + " | "@ + join_seqs(
        errors_of(rs).drop_first(),
        " | "@,
    ));
    assert(join_seqs(errors_of(rs), " | "@) == rule_error(Rule::IsArray) + " | "@ + rule_error(
        Rule::IsString,
    ));
}

/// Whether every element of `es` is a string, as `all_strings` states.
fn check_all_strings(es: &Vec<ConfigValue>) -> (r: bool)
    ensures
        r == all_strings(es@),
{
    let mut i: usize = 0;
    while i < es.len()
        invariant
            i <= es.len(),
            forall|j: int| 0 <= j < i ==> es@[j] is Str,
        decreases es.len() - i,
    {
        if !es[i].is_string() {
            return false;
        }
        i = i + 1;
    }
    true
}

/// Converts an already-validated command value to its flat command list:
/// a bare string becomes a single-element list.
pub fn get_commands_from_yaml(args: &ConfigValue) -> (r: Vec<String>)
    requires
        elems_ok(*args),
    ensures
        strs(r@) == commands_of(*args),
{
    match args {
        ConfigValue::Str(s) => {
            let mut out: Vec<String> = Vec::new();
            out.push(s.clone());
            proof {
                assert(strs(out@) =~= commands_of(*args));
            }
            out
        },
        ConfigValue::Array(es) => {
            let mut out: Vec<String> = Vec::new();
            let mut i: usize = 0;
            while i < es.len()
                invariant
                    i <= es.len(),
                    all_strings(es@),
                    strs(out@) =~= strings_of(es@.take(i as int)),
                decreases es.len() - i,
            {
                proof {
                    lemma_strings_of_push(es@.take(i as int), es@[i as int]);
                    assert(es@.take(i as int + 1) =~= es@.take(i as int).push(es@[i as int]));
                }
                match &es[i] {
                    ConfigValue::Str(s) => {
                        out.push(s.clone());
                        proof {
                            assert(strs(out@) =~= strs(out@.drop_last()).push(out@.last()@));
                        }
                    },
                    _ => {
                        proof {
                            assert(es@[i as int] is Str);
                        }
                    },
                }
                i = i + 1;
            }
            proof {
                assert(es@.take(es@.len() as int) =~= es@);
                assert(strs(out@) =~= commands_of(*args));
            }
            out
        },
        _ => {
            proof {
                assert(false);
            }
            Vec::new()
        },
    }
}

/// Resolves the ordered command list of `args` for `mode`, as
/// `resolve_commands` states: shorthand strings and arrays apply to every
/// mode, a mode-keyed mapping contributes the value at the mode's name,
/// and a mapping without that key yields the empty list.
pub fn get_commands(args: &ConfigValue, mode: TaskRunnerMode) -> (r: Result<Vec<String>, String>)
    ensures
        match r {
            Ok(v) => resolve_commands(*args, mode) == Ok::<Seq<Seq<char>>, Seq<char>>(strs(v@)),
            Err(m) => resolve_commands(*args, mode) == Err::<Seq<Seq<char>>, Seq<char>>(m@),
        },
{
    let mut rules: Vec<Rule> = Vec::new();
    rules.push(str_or_array_rule());
    proof {
        assert(rules@.drop_first() =~= Seq::<Rule>::empty());
    }
    match args.as_hash() {
        Some(entries) => {
            let mname = mode.name();
            match hash_get(entries, mname.as_str()) {
                None => {
                    let out: Vec<String> = Vec::new();
                    proof {
                        assert(strs(out@) =~= Seq::<Seq<char>>::empty());
                    }
                    Ok(out)
                },
                Some(mv) => {
                    proof {
                        lemma_str_or_array(rules@[0], *mv);
                    }
                    match validate_args(mv, &rules) {
                        Err(m) => {
                            proof {
                                assert(first_failure(rules@, *mv) == Some(m@));
                                assert(first_failure(rules@.drop_first(), *mv) is None);
                                assert(!rule_passes(rules@[0], *mv));
                                assert(m@ == shape_error());
                                assert(!shape_ok(*mv));
                                assert(resolve_commands(*args, mode) == Err::<
                                    Seq<Seq<char>>,
                                    Seq<char>,
                                >(mode_name(mode) + ": "@ + shape_error()));
                            }
                            Err(str_concat3(mname.as_str(), ": ", m.as_str()))
                        },
                        Ok(()) => {
                            match mv {
                                ConfigValue::Array(es) => {
                                    if !check_all_strings(es) {
                                        return Err(str_concat3(
                                            mname.as_str(),
                                            ": ",
                                            "value is not a string",
                                        ));
                                    }
                                },
                                _ => {},
                            }
                            Ok(get_commands_from_yaml(mv))
                        },
                    }
                },
            }
        },
        None => {
            proof {
                lemma_str_or_array(rules@[0], *args);
            }
            match validate_args(args, &rules) {
                Err(m) => {
                    proof {
                        assert(first_failure(rules@.drop_first(), *args) is None);
                        assert(!rule_passes(rules@[0], *args));
                    }
                    Err(m)
                },
                Ok(()) => {
                    match args {
                        ConfigValue::Array(es) => {
                            if !check_all_strings(es) {
                                return Err(String::from_str("value is not a string"));
                            }
                        },
                        _ => {},
                    }
                    Ok(get_commands_from_yaml(args))
                },
            }
        },
    }
}

/// A supported shell interpreter for run entries.
#[derive(Clone, Copy)]
pub enum Shell {
    Bash,
    Zsh,
    Sh,
    Fish,
}

/// The shell an interpreter name selects; an unknown name falls back to
/// bash.
pub open spec fn shell_of(name: Seq<char>) -> Shell {
    if name == "zsh"@ {
        Shell::Zsh
    } else if name == "sh"@ {
        Shell::Sh
    } else if name == "fish"@ {
        Shell::Fish
    } else {
        Shell::Bash
    }
}

/// The interpreter line a script for this shell starts with.
pub open spec fn shell_header(sh: Shell) -> Seq<char> {
    match sh {
        Shell::Bash => "#!/bin/bash\n"@,
        Shell::Zsh => "#!/bin/zsh\n"@,
        Shell::Sh => "#!/bin/sh\n"@,
        Shell::Fish => "#!/bin/fish\n"@,
    }
}

/// Selects the shell an interpreter name names, as `shell_of` states.
pub fn shell_from_name(name: &str) -> (r: Shell)
    ensures
        r == shell_of(name@),
{
    if str_eq(name, "zsh") {
        Shell::Zsh
    } else if str_eq(name, "sh") {
        Shell::Sh
    } else if str_eq(name, "fish") {
        Shell::Fish
    } else {
        Shell::Bash
    }
}

/// The header text of a script for this shell, as `shell_header` states.
pub fn shell_header_text(sh: &Shell) -> (r: String)
    ensures
        r@ == shell_header(*sh),
{
    match sh {
        Shell::Bash => String::from_str("#!/bin/bash\n"),
        Shell::Zsh => String::from_str("#!/bin/zsh\n"),
        Shell::Sh => String::from_str("#!/bin/sh\n"),
        Shell::Fish => String::from_str("#!/bin/fish\n"),
    }
}

/// The full text of the temporary script: the interpreter header of the
/// named shell, then the commands joined by newlines.
pub open spec fn script_text(shell_name: Seq<char>, cmds: Seq<Seq<char>>) -> Seq<char> {
    shell_header(shell_of(shell_name)) + join_seqs(cmds, "\n"@)
}

/// Renders a command list into the script text executed for it, as
/// `script_text` states.
pub fn render_script(shell_name: &str, commands: &Vec<String>) -> (r: String)
    ensures
        r@ == script_text(shell_name@, strs(commands@)),
{
    let sh = shell_from_name(shell_name);
    let header = shell_header_text(&sh);
    let body = join_strings(commands, "\n");
    str_concat(header.as_str(), body.as_str())
}

/// Maps a finished process's outcome to the pipeline's result: success
/// returns the captured standard output; failure reports the captured
/// standard error when non-empty, else the captured standard output, else
/// a generic failure marker.
pub open spec fn outcome_of(success: bool, out: Seq<char>, err: Seq<char>) -> Result<
    Seq<char>,
    Seq<char>,
> {
    if success {
        Ok(out)
    } else if err.len() > 0 {
        Err(err)
    } else if out.len() > 0 {
        Err(out)
    } else {
        Err("command failed with no output"@)
    }
}

/// Maps process success and captured output to the reported result, as
/// `outcome_of` states. A non-zero exit status is a failure.
pub fn command_outcome(success: bool, stdout: String, stderr: String) -> (r: Result<String, String>)
    ensures
        match r {
            Ok(m) => outcome_of(success, stdout@, stderr@) == Ok::<Seq<char>, Seq<char>>(m@),
            Err(m) => outcome_of(success, stdout@, stderr@) == Err::<Seq<char>, Seq<char>>(m@),
        },
{
    if success {
        Ok(stdout)
    } else if stderr.as_str().unicode_len() > 0 {
        Err(stderr)
    } else if stdout.as_str().unicode_len() > 0 {
        Err(stdout)
    } else {
        Err(String::from_str("command failed with no output"))
    }
}

/// Everything the dispatcher needs to execute one resolved run entry: the
/// interpreter to spawn, the script text to hand it, and the directory the
/// temporary script file belongs in.
#[derive(Debug)]
pub struct RunPlan {
    pub shell: String,
    pub script: String,
    pub temp_dir: String,
}

/// What `prepare_run` resolves a run entry to: the interpreter name and
/// script text, or the reported error message.
pub open spec fn plan_of(args: ConfigValue, mode: TaskRunnerMode, default_shell: Seq<char>) -> Result<
    (Seq<char>, Seq<char>),
    Seq<char>,
> {
    if !(args is Hash) {
        Err("args is not an object"@)
    } else {
        match lookup(args->Hash_0@, "commands"@) {
            None => Err("\"commands\" key is missing in args"@),
            Some(cv) => {
                let shell_sel = match lookup(args->Hash_0@, "shell"@) {
                    None => Some(default_shell),
                    Some(sv) => if sv is Str {
                        Some(sv->Str_0@)
                    } else {
                        None
                    },
                };
                match shell_sel {
                    None => Err("shell is not a string"@),
                    Some(sh) => match resolve_commands(cv, mode) {
                        Err(m) => Err(m),
                        Ok(cmds) => Ok((sh, script_text(sh, cmds))),
                    },
                }
            },
        }
    }
}

/// Resolves a run entry under `mode` into a `RunPlan`, as `plan_of`
/// states: the entry must be a mapping with a `commands` value; an
/// optional `shell` value names the interpreter, defaulting to the
/// configured shell; the commands are resolved for the mode and rendered
/// into script text. No process is spawned here.
pub fn prepare_run(args: &ConfigValue, mode: TaskRunnerMode, config: &CommandConfig) -> (r: Result<
    RunPlan,
    String,
>)
    ensures
        match r {
            Ok(plan) => plan_of(*args, mode, config.default_shell@) == Ok::<(Seq<char>, Seq<char>), Seq<char>>(
                (plan.shell@, plan.script@),
            ) && plan.temp_dir@ == config.temp_dir@,
            Err(m) => plan_of(*args, mode, config.default_shell@) == Err::<(Seq<char>, Seq<char>), Seq<char>>(
                m@,
            ),
        },
{
    let entries = match args.as_hash() {
        Some(entries) => entries,
        None => {
            return Err(String::from_str("args is not an object"));
        },
    };
    let commands_val = match hash_get(entries, "commands") {
        Some(v) => v,
        None => {
            return Err(String::from_str("\"commands\" key is missing in args"));
        },
    };
    let shell_name: String = match hash_get(entries, "shell") {
        None => config.default_shell.clone(),
        Some(sv) => match sv.as_str() {
            Some(s) => s.clone(),
            None => {
                return Err(String::from_str("shell is not a string"));
            },
        },
    };
    let cmds = match get_commands(commands_val, mode) {
        Ok(cmds) => cmds,
        Err(m) => {
            return Err(m);
        },
    };
    let script = render_script(shell_name.as_str(), &cmds);
    Ok(RunPlan { shell: shell_name, script, temp_dir: config.temp_dir.clone() })
}

/// The run command: resolves a shell command group entry into a plan for
/// the dispatcher to execute under each lifecycle mode.
pub struct RunCommand {}

impl RunCommand {
    /// The plan for the entry under install mode, as `plan_of` states.
    pub fn install(&self, args: &ConfigValue, config: &CommandConfig) -> (r: Result<
        RunPlan,
        String,
    >)
        ensures
            match r {
                Ok(plan) => plan_of(*args, TaskRunnerMode::Install, config.default_shell@) == Ok::<
                    (Seq<char>, Seq<char>),
                    Seq<char>,
                >((plan.shell@, plan.script@)) && plan.temp_dir@ == config.temp_dir@,
                Err(m) => plan_of(*args, TaskRunnerMode::Install, config.default_shell@) == Err::<
                    (Seq<char>, Seq<char>),
                    Seq<char>,
                >(m@),
            },
    {
        prepare_run(args, TaskRunnerMode::Install, config)
    }

    /// The plan for the entry under uninstall mode, as `plan_of` states.
    pub fn uninstall(&self, args: &ConfigValue, config: &CommandConfig) -> (r: Result<
        RunPlan,
        String,
    >)
        ensures
            match r {
                Ok(plan) => plan_of(*args, TaskRunnerMode::Uninstall, config.default_shell@)
                    == Ok::<(Seq<char>, Seq<char>), Seq<char>>((plan.shell@, plan.script@))
                    && plan.temp_dir@ == config.temp_dir@,
                Err(m) => plan_of(*args, TaskRunnerMode::Uninstall, config.default_shell@) == Err::<
                    (Seq<char>, Seq<char>),
                    Seq<char>,
                >(m@),
            },
    {
        prepare_run(args, TaskRunnerMode::Uninstall, config)
    }

    /// The plan for the entry under update mode, as `plan_of` states.
    pub fn update(&self, args: &ConfigValue, config: &CommandConfig) -> (r: Result<
        RunPlan,
        String,
    >)
        ensures
            match r {
                Ok(plan) => plan_of(*args, TaskRunnerMode::Update, config.default_shell@) == Ok::<
                    (Seq<char>, Seq<char>),
                    Seq<char>,
                >((plan.shell@, plan.script@)) && plan.temp_dir@ == config.temp_dir@,
                Err(m) => plan_of(*args, TaskRunnerMode::Update, config.default_shell@) == Err::<
                    (Seq<char>, Seq<char>),
                    Seq<char>,
                >(m@),
            },
    {
        prepare_run(args, TaskRunnerMode::Update, config)
    }
}

} // verus!


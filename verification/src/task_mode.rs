//! The lifecycle mode of one invocation: install, uninstall or update. The
//! mode is selected once by the external dispatcher and is immutable for the
//! duration of one command execution; its canonical lowercase name serves as
//! both config key and log label.

use vstd::prelude::*;

verus! {

/// The lifecycle phase selecting which command or action set applies.
#[derive(Clone, Copy)]
pub enum TaskRunnerMode {
    Install,
    Uninstall,
    Update,
}

/// The canonical lowercase name of a mode.
pub open spec fn mode_name(m: TaskRunnerMode) -> Seq<char> {
    match m {
        TaskRunnerMode::Install => "install"@,
        TaskRunnerMode::Uninstall => "uninstall"@,
        TaskRunnerMode::Update => "update"@,
    }
}

impl TaskRunnerMode {
    /// The canonical lowercase name, used as config key and log label.
    pub fn name(&self) -> (r: String)
        ensures
            r@ == mode_name(*self),
    {
        match self {
            TaskRunnerMode::Install => String::from_str("install"),
            TaskRunnerMode::Uninstall => String::from_str("uninstall"),
            TaskRunnerMode::Update => String::from_str("update"),
        }
    }
}

} // verus!

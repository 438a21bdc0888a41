//! The ways in which a request to fyr can be refused.

use vstd::prelude::*;

verus! {

/// Why fyr refused to go on.
#[derive(Debug, PartialEq, Eq)]
pub enum FyrError {
    /// The run command is not valid shell syntax (an unclosed quote, say).
    CommandParse,
    /// The run command holds no word.
    EmptyCommand,
    /// The program of the run command is nowhere on the search path.
    CommandNotFound(String),
    /// A path to watch does not exist.
    PathMissing(String),
    /// A task was to be picked, but the configuration holds none.
    NoTasks,
    /// No task has this name.
    TaskNotFound(String),
    /// The task has no run command and none was given.
    NoRunCommand,
    /// Neither inline settings nor a project file were given, and global tasks were not asked for.
    NoConfigFile,
    /// Inline mode was given neither paths nor extensions.
    NoWatchSource,
    /// Inline mode was given no run command.
    NoRunGiven,
}

/// The message that reports `e` to the user.
pub open spec fn error_message(e: FyrError) -> Seq<char> {
    match e {
        FyrError::CommandParse => "failed to parse command"@,
        FyrError::EmptyCommand => "empty command"@,
        FyrError::CommandNotFound(c) => "command '"@ + c@ + "' not found"@,
        FyrError::PathMissing(p) => " '"@ + p@ + "' doesn't exist"@,
        FyrError::NoTasks => "no tasks found"@,
        FyrError::TaskNotFound(n) => "task '"@ + n@ + "' not found"@,
        FyrError::NoRunCommand => "task has no run command, provide one with -r"@,
        FyrError::NoConfigFile =>
            "no 'fyr.toml' found, use -w/-e and -r to watch directly, or -g for global tasks"@,
        FyrError::NoWatchSource => "please provide paths with -w or extensions with -e"@,
        FyrError::NoRunGiven => "please provide a command with -r"@,
    }
}

/// `before`, then `middle`, then `after`.
fn framed(before: &str, middle: &str, after: &str) -> (r: String)
    ensures
        r@ == before@ + middle@ + after@,
{
    let mut r = String::from_str(before);
    r.append(middle);
    r.append(after);
    r
}

impl FyrError {
    /// The message that reports this error to the user.
    pub fn message(&self) -> (r: String)
        ensures
            r@ == error_message(*self),
    {
        match self {
            FyrError::CommandParse => String::from_str("failed to parse command"),
            FyrError::EmptyCommand => String::from_str("empty command"),
            FyrError::CommandNotFound(c) => framed("command '", c.as_str(), "' not found"),
            FyrError::PathMissing(p) => framed(" '", p.as_str(), "' doesn't exist"),
            FyrError::NoTasks => String::from_str("no tasks found"),
            FyrError::TaskNotFound(n) => framed("task '", n.as_str(), "' not found"),
            FyrError::NoRunCommand => String::from_str(
                "task has no run command, provide one with -r",
            ),
            FyrError::NoConfigFile => String::from_str(
                "no 'fyr.toml' found, use -w/-e and -r to watch directly, or -g for global tasks",
            ),
            FyrError::NoWatchSource => String::from_str(
                "please provide paths with -w or extensions with -e",
            ),
            FyrError::NoRunGiven => String::from_str("please provide a command with -r"),
        }
    }
}

} // verus!

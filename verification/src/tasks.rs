//! Picking a task and turning it, with the overrides given, into what to watch and run.

use vstd::prelude::*;
use crate::command::{
    ParsedCommand, command_of_words, parse_command, program_check_possible, shell_split_of,
    validate_command,
};
use crate::config::{ConfigView, FyrConfig, TaskView};
use crate::error::FyrError;
use crate::paths::{path_check_possible, resolve_paths, resolved_from, validate_paths};
use crate::text::copy_texts;

verus! {

/// Which task to run, or the names to ask the user to choose from.
#[derive(Debug, PartialEq, Eq)]
pub enum TaskPick {
    /// The task named on the command line.
    Named(String),
    /// The default task of the configuration.
    Default(String),
    /// No task was named and there is no default: the user picks one of these.
    Ask(Vec<String>),
}

/// Picks the task to run: the one named, else the default, else the user is
/// to choose among all tasks, in name order.
pub fn pick_task(config: &FyrConfig, name: Option<String>) -> (r: Result<TaskPick, FyrError>)
    ensures
        match name {
            Some(n) => r == Ok::<TaskPick, FyrError>(TaskPick::Named(n)),
            None => match config.default {
                Some(d) => r == Ok::<TaskPick, FyrError>(TaskPick::Default(d)),
                None => if config@.tasks == Map::<Seq<char>, TaskView>::empty() {
                    r == Err::<TaskPick, FyrError>(FyrError::NoTasks)
                } else {
                    r matches Ok(TaskPick::Ask(names)) && names.deep_view()
                        == config.tasks.entry_views().map_values(|e: (Seq<char>, TaskView)| e.0)
                },
            },
        },
{
    if let Some(n) = name {
        return Ok(TaskPick::Named(n));
    }
    if let Some(d) = &config.default {
        return Ok(TaskPick::Default(d.clone()));
    }
    if config.tasks.is_empty() {
        return Err(FyrError::NoTasks);
    }
    Ok(TaskPick::Ask(config.tasks.names()))
}

/// What a task comes to with the overrides: paths (or the directories to
/// search), extensions and run command.
#[derive(Debug, PartialEq, Eq)]
pub struct TaskSettings {
    pub watch: Vec<String>,
    pub extensions: Option<Vec<String>>,
    pub run: String,
}

/// The override where one is given, else the task's own value.
pub open spec fn overridden<T>(over: Option<T>, own: T) -> T {
    match over {
        Some(v) => v,
        None => own,
    }
}

/// `a` where it is given, else `b`.
pub open spec fn first_given<T>(a: Option<T>, b: Option<T>) -> Option<T> {
    match a {
        Some(v) => Some(v),
        None => b,
    }
}

/// The run command of task `name` with the override: `None` where neither has one.
pub open spec fn run_of(c: ConfigView, name: Seq<char>, run_override: Option<Seq<char>>) -> Option<
    Seq<char>,
> {
    first_given(run_override, c.tasks[name].run)
}

/// Why task `name` with these overrides cannot be run, if it cannot.
pub open spec fn settings_error(c: ConfigView, name: String, run_override: Option<Seq<char>>) -> Option<
    FyrError,
> {
    if !c.tasks.contains_key(name@) {
        Some(FyrError::TaskNotFound(name))
    } else if run_of(c, name@, run_override) is None {
        Some(FyrError::NoRunCommand)
    } else {
        None
    }
}

/// Overrides win: each override that is given replaces the task's own value,
/// whatever that value is, and where none is given the task's own value
/// stays; the run command comes from the override where one is given.
pub proof fn law_overrides_win(
    c: ConfigView,
    name: Seq<char>,
    watch_override: Option<Seq<Seq<char>>>,
    run_override: Option<Seq<char>>,
    extensions_override: Option<Seq<Seq<char>>>,
)
    ensures
        extensions_override is Some ==> first_given(extensions_override, c.tasks[name].extensions)
            == extensions_override,
        extensions_override is None ==> first_given(extensions_override, c.tasks[name].extensions)
            == c.tasks[name].extensions,
        watch_override matches Some(w) ==> overridden(watch_override, c.tasks[name].watch) == w,
        watch_override is None ==> overridden(watch_override, c.tasks[name].watch)
            == c.tasks[name].watch,
        run_override is Some ==> run_of(c, name, run_override) == run_override,
        run_override is None ==> run_of(c, name, run_override) == c.tasks[name].run,
{
}

/// The settings of task `name` with the overrides: each override replaces the
/// task's own value; the run command must come from one of them.
pub fn task_settings(
    config: &FyrConfig,
    name: String,
    watch_override: Option<Vec<String>>,
    run_override: Option<String>,
    extensions_override: Option<Vec<String>>,
) -> (r: Result<TaskSettings, FyrError>)
    ensures
        match settings_error(config@, name, run_override.deep_view()) {
            Some(e) => r == Err::<TaskSettings, FyrError>(e),
            None => r matches Ok(s) && {
                let t = config@.tasks[name@];
                &&& s.watch.deep_view() == overridden(watch_override.deep_view(), t.watch)
                &&& s.extensions.deep_view() == first_given(
                    extensions_override.deep_view(),
                    t.extensions,
                )
                &&& Some(s.run@) == run_of(config@, name@, run_override.deep_view())
            },
        },
{
    let task = match config.tasks.get(name.as_str()) {
        Some(t) => t,
        None => return Err(FyrError::TaskNotFound(name)),
    };
    let run = match run_override {
        Some(r) => r,
        None => match &task.run {
            Some(r) => r.clone(),
            None => return Err(FyrError::NoRunCommand),
        },
    };
    let watch = match watch_override {
        Some(w) => w,
        None => copy_texts(&task.watch),
    };
    let extensions = match extensions_override {
        Some(e) => Some(e),
        None => match &task.extensions {
            Some(e) => Some(copy_texts(e)),
            None => None,
        },
    };
    Ok(TaskSettings { watch, extensions, run })
}

/// What to watch and what to run on a change.
#[derive(Debug, PartialEq, Eq)]
pub struct WatchPlan {
    /// The paths to watch.
    pub paths: Vec<String>,
    /// The run command as given.
    pub run: String,
    /// The run command split into program and arguments.
    pub command: ParsedCommand,
}

/// The result of the two checks of a plan: the check of the paths decides
/// where it fails; else the check of the program.
pub open spec fn first_failure(
    path_check: Result<(), FyrError>,
    program_check: Result<(), FyrError>,
) -> Result<(), FyrError> {
    match path_check {
        Err(e) => Err(e),
        Ok(()) => program_check,
    }
}

/// Settles the two checks of a plan: a missing path is reported before a
/// program that is not found.
pub fn settle_checks(path_check: Result<(), FyrError>, program_check: Result<(), FyrError>) -> (r:
    Result<(), FyrError>)
    ensures
        r == first_failure(path_check, program_check),
{
    match path_check {
        Err(e) => Err(e),
        Ok(()) => program_check,
    }
}

/// The texts of `paths`.
pub open spec fn views_of(paths: Seq<String>) -> Seq<Seq<char>> {
    Seq::new(paths.len(), |i: int| paths[i]@)
}

/// `paths` are what `watch` and `extensions` resolve to, `program` is the
/// first word of the run command, and the two checks gave results that they
/// may give of them.
pub open spec fn plan_checks(
    watch: Seq<Seq<char>>,
    extensions: Option<Seq<Seq<char>>>,
    words: Seq<Seq<char>>,
    paths: Seq<String>,
    program: String,
    path_check: Result<(), FyrError>,
    program_check: Result<(), FyrError>,
) -> bool {
    &&& resolved_from(watch, extensions, views_of(paths))
    &&& path_check_possible(paths, path_check)
    &&& program@ == words[0]
    &&& program_check_possible(program, program_check)
}

/// `r` is what planning to watch `watch` (by `extensions`) and run `run` may
/// give: the run command split as a shell would, an error where it cannot be;
/// then, for the resolved paths and the program, the check of the paths and
/// then that of the program: the first error, or else a plan of those paths
/// and that command.
pub open spec fn plan_outcome(
    watch: Seq<Seq<char>>,
    extensions: Option<Seq<Seq<char>>>,
    run: Seq<char>,
    r: Result<WatchPlan, FyrError>,
) -> bool {
    match shell_split_of(run) {
        None => r == Err::<WatchPlan, FyrError>(FyrError::CommandParse),
        Some(words) => if words.len() == 0 {
            r == Err::<WatchPlan, FyrError>(FyrError::EmptyCommand)
        } else {
            exists|
                paths: Seq<String>,
                program: String,
                path_check: Result<(), FyrError>,
                program_check: Result<(), FyrError>,
            |
                #[trigger] plan_checks(
                    watch,
                    extensions,
                    words,
                    paths,
                    program,
                    path_check,
                    program_check,
                ) && match first_failure(path_check, program_check) {
                    Ok(_) => r matches Ok(plan) && {
                        &&& plan.paths@ == paths
                        &&& plan.run@ == run
                        &&& plan.command.cmd == program
                        &&& command_of_words(words, Ok::<ParsedCommand, FyrError>(plan.command))
                    },
                    Err(e) => r == Err::<WatchPlan, FyrError>(e),
                }
        },
    }
}

/// Resolves the paths, splits the run command and checks both: a missing
/// path first, then the program.
pub fn plan_watch(watch: Vec<String>, extensions: Option<Vec<String>>, run: String) -> (r: Result<
    WatchPlan,
    FyrError,
>)
    ensures
        plan_outcome(watch.deep_view(), extensions.deep_view(), run@, r),
{
    let ghost watch_view = watch.deep_view();
    let ghost extensions_view = extensions.deep_view();
    let paths = resolve_paths(watch, extensions);
    let command = match parse_command(run.as_str()) {
        Ok(c) => c,
        Err(e) => return Err(e),
    };
    let path_check = validate_paths(&paths);
    let program_check = validate_command(&command);
    let checks = settle_checks(path_check, program_check);
    let ghost words = shell_split_of(run@)->0;
    proof {
        assert(views_of(paths@) =~= paths.deep_view());
        assert(plan_checks(
            watch_view,
            extensions_view,
            words,
            paths@,
            command.cmd,
            path_check,
            program_check,
        ));
    }
    match checks {
        Err(e) => Err(e),
        Ok(()) => Ok(WatchPlan { paths, run, command }),
    }
}

/// Plans to watch and run task `name` with the overrides given.
pub fn run_task(
    config: &FyrConfig,
    name: String,
    watch_override: Option<Vec<String>>,
    run_override: Option<String>,
    extensions_override: Option<Vec<String>>,
) -> (r: Result<WatchPlan, FyrError>)
    ensures
        match settings_error(config@, name, run_override.deep_view()) {
            Some(e) => r == Err::<WatchPlan, FyrError>(e),
            None => {
                let t = config@.tasks[name@];
                plan_outcome(
                    overridden(watch_override.deep_view(), t.watch),
                    first_given(extensions_override.deep_view(), t.extensions),
                    run_of(config@, name@, run_override.deep_view())->0,
                    r,
                )
            },
        },
{
    match task_settings(config, name, watch_override, run_override, extensions_override) {
        Err(e) => Err(e),
        Ok(s) => plan_watch(s.watch, s.extensions, s.run),
    }
}

} // verus!

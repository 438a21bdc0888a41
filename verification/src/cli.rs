//! The decisions of the command line: inline watching, or tasks from a configuration.

use vstd::prelude::*;
use crate::config::{ConfigSource, PROJECT_FILE};
use crate::error::FyrError;
use crate::paths::path_exists;
use crate::tasks::{WatchPlan, plan_outcome, plan_watch};

verus! {

/// The debounce window, in milliseconds, where none is given.
pub const DEBOUNCE_MS: u64 = 150;

/// Whether the command line asks to watch inline (by paths, extensions or a
/// run command) rather than to run a task from a configuration.
pub fn inline_requested(
    watch: &Vec<String>,
    run: &Option<String>,
    extensions: &Option<Vec<String>>,
) -> (r: bool)
    ensures
        r == !(watch@.len() == 0 && run is None && extensions is None),
{
    !(watch.len() == 0 && run.is_none() && extensions.is_none())
}

/// Where a bare `fyr` reads its tasks from: the global tasks when asked for,
/// else the project file, which must then exist.
pub fn project_source(global: bool, local_exists: bool) -> (r: Result<ConfigSource, FyrError>)
    ensures
        r == (if global {
            Ok::<ConfigSource, FyrError>(ConfigSource::Global)
        } else if local_exists {
            Ok::<ConfigSource, FyrError>(ConfigSource::Local)
        } else {
            Err::<ConfigSource, FyrError>(FyrError::NoConfigFile)
        }),
{
    if global {
        Ok(ConfigSource::Global)
    } else if local_exists {
        Ok(ConfigSource::Local)
    } else {
        Err(FyrError::NoConfigFile)
    }
}

/// Where a bare `fyr` reads its tasks from; looks for the project file unless
/// the global tasks are asked for.
pub fn resolve_project_config(global: bool) -> (r: Result<ConfigSource, FyrError>)
    ensures
        global ==> r == Ok::<ConfigSource, FyrError>(ConfigSource::Global),
        !global ==> r == Ok::<ConfigSource, FyrError>(ConfigSource::Local) || r == Err::<
            ConfigSource,
            FyrError,
        >(FyrError::NoConfigFile),
{
    if global {
        project_source(true, false)
    } else {
        let local_exists = path_exists(PROJECT_FILE);
        project_source(false, local_exists)
    }
}

/// Plans inline watching: paths or extensions, and a run command, must be given.
pub fn inline_plan(watch: Vec<String>, run: Option<String>, extensions: Option<Vec<String>>) -> (r:
    Result<WatchPlan, FyrError>)
    ensures
        watch@.len() == 0 && extensions is None ==> r == Err::<WatchPlan, FyrError>(
            FyrError::NoWatchSource,
        ),
        !(watch@.len() == 0 && extensions is None) && run is None ==> r == Err::<
            WatchPlan,
            FyrError,
        >(FyrError::NoRunGiven),
        !(watch@.len() == 0 && extensions is None) && run is Some ==> plan_outcome(
            watch.deep_view(),
            extensions.deep_view(),
            run->0@,
            r,
        ),
{
    if watch.len() == 0 && extensions.is_none() {
        return Err(FyrError::NoWatchSource);
    }
    match run {
        None => Err(FyrError::NoRunGiven),
        Some(run) => plan_watch(watch, extensions, run),
    }
}

} // verus!

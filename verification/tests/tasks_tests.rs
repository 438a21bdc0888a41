use fyr::config::FyrConfig;
use fyr::error::FyrError;
use fyr::tasks::{pick_task, plan_watch, run_task, settle_checks, task_settings, TaskPick};

fn strings(words: &[&str]) -> Vec<String> {
    words.iter().map(|w| w.to_string()).collect()
}

fn sample() -> FyrConfig {
    let mut c = FyrConfig::new();
    c.add_task("test".to_string(), strings(&["src", "tests"]), "sh -c true".to_string(), None);
    c.add_task("build".to_string(), strings(&["src"]), "sh -c 'echo built'".to_string(), None);
    c.tasks.insert(
        "bare".to_string(),
        fyr::config::Task { watch: strings(&["src"]), run: None, extensions: None },
    );
    c
}

#[test]
fn pick_task_prefers_name_then_default_then_asks() {
    let mut c = sample();
    assert_eq!(pick_task(&c, Some("x".to_string())), Ok(TaskPick::Named("x".to_string())));
    assert_eq!(pick_task(&c, None), Ok(TaskPick::Ask(strings(&["bare", "build", "test"]))));
    c.set_default("test".to_string()).unwrap();
    assert_eq!(pick_task(&c, None), Ok(TaskPick::Default("test".to_string())));
    assert_eq!(pick_task(&c, Some("build".to_string())), Ok(TaskPick::Named("build".to_string())));
}

#[test]
fn pick_task_without_tasks_is_refused() {
    let c = FyrConfig::new();
    assert_eq!(pick_task(&c, None), Err(FyrError::NoTasks));
}

#[test]
fn task_settings_apply_overrides() {
    let c = sample();
    let s = task_settings(&c, "test".to_string(), None, None, None).unwrap();
    assert_eq!(s.watch, strings(&["src", "tests"]));
    assert_eq!(s.run, "sh -c true");
    assert_eq!(s.extensions, None);
    let s = task_settings(
        &c,
        "test".to_string(),
        Some(strings(&["lib"])),
        Some("make".to_string()),
        Some(strings(&["c"])),
    )
    .unwrap();
    assert_eq!(s.watch, strings(&["lib"]));
    assert_eq!(s.run, "make");
    assert_eq!(s.extensions, Some(strings(&["c"])));
    assert_eq!(c.tasks.get("test").unwrap().run, Some("sh -c true".to_string()));
}

#[test]
fn task_settings_errors() {
    let c = sample();
    assert_eq!(
        task_settings(&c, "deploy".to_string(), None, None, None),
        Err(FyrError::TaskNotFound("deploy".to_string()))
    );
    assert_eq!(task_settings(&c, "bare".to_string(), None, None, None), Err(FyrError::NoRunCommand));
    let s = task_settings(&c, "bare".to_string(), None, Some("true".to_string()), None).unwrap();
    assert_eq!(s.run, "true");
}

#[test]
fn run_task_plans_the_watch() {
    let c = sample();
    let plan = run_task(&c, "build".to_string(), None, None, None).unwrap();
    assert_eq!(plan.paths, strings(&["src"]));
    assert_eq!(plan.run, "sh -c 'echo built'");
    assert_eq!(plan.command.cmd, "sh");
    assert_eq!(plan.command.args, strings(&["-c", "echo built"]));
}

#[test]
fn run_task_reports_missing_path_and_program() {
    let c = sample();
    assert_eq!(
        run_task(&c, "test".to_string(), Some(strings(&["src", "missing-4711"])), None, None),
        Err(FyrError::PathMissing("missing-4711".to_string()))
    );
    assert_eq!(
        run_task(&c, "test".to_string(), None, Some("fyr-absent-4711 x".to_string()), None),
        Err(FyrError::CommandNotFound("fyr-absent-4711".to_string()))
    );
    assert_eq!(
        run_task(&c, "test".to_string(), None, Some("echo \"open".to_string()), None),
        Err(FyrError::CommandParse)
    );
    assert_eq!(
        run_task(&c, "test".to_string(), None, Some("  ".to_string()), None),
        Err(FyrError::EmptyCommand)
    );
}

#[test]
fn plan_watch_resolves_by_extension() {
    let plan = plan_watch(strings(&["src"]), Some(strings(&["rs"])), "sh".to_string()).unwrap();
    assert!(plan.paths.contains(&"src/lib.rs".to_string()));
    assert!(plan.command.args.is_empty());
}

#[test]
fn settle_checks_reports_missing_path_first() {
    let missing = || Err(FyrError::PathMissing("src".to_string()));
    let absent = || Err(FyrError::CommandNotFound("cc".to_string()));
    assert_eq!(settle_checks(missing(), absent()), missing());
    assert_eq!(settle_checks(Ok(()), absent()), absent());
    assert_eq!(settle_checks(missing(), Ok(())), missing());
    assert_eq!(settle_checks(Ok(()), Ok(())), Ok(()));
}

#[test]
fn run_task_reports_missing_path_before_missing_program() {
    let c = sample();
    assert_eq!(
        run_task(&c, "test".to_string(), Some(strings(&["missing-4711"])), Some("fyr-absent-4711".to_string()), None),
        Err(FyrError::PathMissing("missing-4711".to_string()))
    );
}

use fyr::cli::{inline_plan, inline_requested, project_source, resolve_project_config, DEBOUNCE_MS};
use fyr::config::ConfigSource;
use fyr::error::FyrError;

fn strings(words: &[&str]) -> Vec<String> {
    words.iter().map(|w| w.to_string()).collect()
}

#[test]
fn default_debounce_is_150_ms() {
    assert_eq!(DEBOUNCE_MS, 150);
}

#[test]
fn inline_requested_when_anything_is_given() {
    assert!(!inline_requested(&Vec::new(), &None, &None));
    assert!(inline_requested(&strings(&["src"]), &None, &None));
    assert!(inline_requested(&Vec::new(), &Some("make".to_string()), &None));
    assert!(inline_requested(&Vec::new(), &None, &Some(Vec::new())));
}

#[test]
fn project_source_needs_project_file_unless_global() {
    assert_eq!(project_source(true, false), Ok(ConfigSource::Global));
    assert_eq!(project_source(true, true), Ok(ConfigSource::Global));
    assert_eq!(project_source(false, true), Ok(ConfigSource::Local));
    assert_eq!(project_source(false, false), Err(FyrError::NoConfigFile));
    assert_eq!(resolve_project_config(true), Ok(ConfigSource::Global));
}

#[test]
fn inline_plan_needs_paths_and_command() {
    assert_eq!(inline_plan(Vec::new(), Some("make".to_string()), None), Err(FyrError::NoWatchSource));
    assert_eq!(inline_plan(strings(&["src"]), None, None), Err(FyrError::NoRunGiven));
    let plan = inline_plan(strings(&["src", "tests"]), Some("sh -c true".to_string()), None).unwrap();
    assert_eq!(plan.paths, strings(&["src", "tests"]));
    assert_eq!(plan.command.cmd, "sh");
    let by_ext = inline_plan(Vec::new(), Some("sh".to_string()), Some(strings(&["rs"]))).unwrap();
    assert!(by_ext.paths.contains(&"./src/lib.rs".to_string()));
}

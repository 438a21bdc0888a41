use fyr::config::{config_source, resolve_config, ConfigSource, FyrConfig, Task, TaskMap};
use fyr::error::FyrError;

fn strings(words: &[&str]) -> Vec<String> {
    words.iter().map(|w| w.to_string()).collect()
}

fn sample() -> FyrConfig {
    let mut c = FyrConfig::new();
    c.add_task("test".to_string(), strings(&["src", "tests"]), "cargo test".to_string(), None);
    c.add_task("build".to_string(), strings(&["src"]), "cargo build --release".to_string(), None);
    c.add_task("lint".to_string(), Vec::new(), "cargo clippy".to_string(), Some(strings(&["rs"])));
    c
}

fn names(c: &FyrConfig) -> Vec<String> {
    c.tasks.entries().iter().map(|(n, _)| n.clone()).collect()
}

#[test]
fn tasks_are_kept_in_name_order() {
    let c = sample();
    assert_eq!(names(&c), strings(&["build", "lint", "test"]));
    assert_eq!(c.tasks.names(), strings(&["build", "lint", "test"]));
    let mut m = TaskMap::new();
    for n in ["m", "b", "z", "a", "B", "é", "aa"] {
        m.insert(n.to_string(), Task { watch: Vec::new(), run: None, extensions: None });
    }
    assert_eq!(m.names(), strings(&["B", "a", "aa", "b", "m", "z", "é"]));
}

#[test]
fn add_task_saves_and_replaces() {
    let mut c = sample();
    let t = c.tasks.get("build").unwrap();
    assert_eq!(t.watch, strings(&["src"]));
    assert_eq!(t.run, Some("cargo build --release".to_string()));
    c.add_task("build".to_string(), strings(&["lib"]), "make".to_string(), Some(strings(&["c"])));
    let t = c.tasks.get("build").unwrap();
    assert_eq!(t.watch, strings(&["lib"]));
    assert_eq!(t.run, Some("make".to_string()));
    assert_eq!(t.extensions, Some(strings(&["c"])));
    assert_eq!(names(&c).len(), 3);
}

#[test]
fn remove_task_deletes_or_reports() {
    let mut c = sample();
    assert_eq!(c.remove_task("lint".to_string()), Ok(()));
    assert!(!c.tasks.contains_key("lint"));
    assert_eq!(names(&c), strings(&["build", "test"]));
    assert_eq!(c.remove_task("lint".to_string()), Err(FyrError::TaskNotFound("lint".to_string())));
    assert_eq!(names(&c), strings(&["build", "test"]));
}

#[test]
fn remove_undoes_add_of_new_name() {
    let mut c = sample();
    let before = names(&c);
    c.add_task("docs".to_string(), strings(&["docs"]), "mdbook build".to_string(), None);
    assert_eq!(c.remove_task("docs".to_string()), Ok(()));
    assert_eq!(names(&c), before);
    assert_eq!(c.tasks.get("build").unwrap().watch, strings(&["src"]));
}

#[test]
fn edit_task_changes_only_given_fields() {
    let mut c = sample();
    assert_eq!(c.edit_task("test".to_string(), Vec::new(), Some("cargo nextest run".to_string()), None), Ok(()));
    let t = c.tasks.get("test").unwrap();
    assert_eq!(t.watch, strings(&["src", "tests"]));
    assert_eq!(t.run, Some("cargo nextest run".to_string()));
    assert_eq!(t.extensions, None);
    assert_eq!(c.edit_task("test".to_string(), strings(&["crates"]), None, Some(strings(&["rs", "toml"]))), Ok(()));
    let t = c.tasks.get("test").unwrap();
    assert_eq!(t.watch, strings(&["crates"]));
    assert_eq!(t.run, Some("cargo nextest run".to_string()));
    assert_eq!(t.extensions, Some(strings(&["rs", "toml"])));
}

#[test]
fn empty_edit_changes_nothing() {
    let mut c = sample();
    assert_eq!(c.edit_task("lint".to_string(), Vec::new(), None, None), Ok(()));
    let t = c.tasks.get("lint").unwrap();
    assert_eq!(*t, Task { watch: Vec::new(), run: Some("cargo clippy".to_string()), extensions: Some(strings(&["rs"])) });
}

#[test]
fn edit_task_of_unknown_name_is_refused() {
    let mut c = sample();
    assert_eq!(
        c.edit_task("deploy".to_string(), strings(&["x"]), None, None),
        Err(FyrError::TaskNotFound("deploy".to_string()))
    );
    assert!(!c.tasks.contains_key("deploy"));
}

#[test]
fn rename_task_keeps_the_task_data() {
    let mut c = sample();
    assert_eq!(c.rename_task("lint".to_string(), "check".to_string()), Ok(()));
    assert!(!c.tasks.contains_key("lint"));
    let t = c.tasks.get("check").unwrap();
    assert_eq!(*t, Task { watch: Vec::new(), run: Some("cargo clippy".to_string()), extensions: Some(strings(&["rs"])) });
    assert_eq!(names(&c), strings(&["build", "check", "test"]));
    assert_eq!(c.rename_task("check".to_string(), "lint".to_string()), Ok(()));
    assert_eq!(names(&c), strings(&["build", "lint", "test"]));
    assert_eq!(
        c.rename_task("nothing".to_string(), "x".to_string()),
        Err(FyrError::TaskNotFound("nothing".to_string()))
    );
}

#[test]
fn rename_onto_existing_name_replaces_it() {
    let mut c = sample();
    assert_eq!(c.rename_task("lint".to_string(), "build".to_string()), Ok(()));
    assert_eq!(names(&c), strings(&["build", "test"]));
    assert_eq!(c.tasks.get("build").unwrap().run, Some("cargo clippy".to_string()));
}

#[test]
fn set_default_needs_an_existing_task() {
    let mut c = sample();
    assert_eq!(c.set_default("build".to_string()), Ok(()));
    assert_eq!(c.default, Some("build".to_string()));
    assert_eq!(c.set_default("ship".to_string()), Err(FyrError::TaskNotFound("ship".to_string())));
    assert_eq!(c.default, Some("build".to_string()));
}

#[test]
fn config_source_follows_the_resolution_table() {
    assert_eq!(config_source(true, true), ConfigSource::Global);
    assert_eq!(config_source(true, false), ConfigSource::Global);
    assert_eq!(config_source(false, true), ConfigSource::Local);
    assert_eq!(config_source(false, false), ConfigSource::Global);
    assert_eq!(resolve_config(true), ConfigSource::Global);
}

#[test]
fn empty_task_map_has_nothing() {
    let m = TaskMap::new();
    assert!(m.is_empty());
    assert!(m.get("a").is_none());
    assert!(m.names().is_empty());
    assert!(!sample().tasks.is_empty());
}

#[test]
fn remove_from_task_map_hands_back_the_task() {
    let mut c = sample();
    let t = c.tasks.remove("build").unwrap();
    assert_eq!(t.run, Some("cargo build --release".to_string()));
    assert!(c.tasks.remove("build").is_none());
}

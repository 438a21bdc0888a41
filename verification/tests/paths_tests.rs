use fyr::error::FyrError;
use fyr::paths::{
    check_paths, filter_by_extensions, find_by_extensions, has_listed_extension, resolve_paths,
    search_roots, validate_paths,
};

fn strings(words: &[&str]) -> Vec<String> {
    words.iter().map(|w| w.to_string()).collect()
}


#[test]
fn check_paths_reports_first_missing() {
    let paths = strings(&["a", "b", "c"]);
    assert_eq!(check_paths(&paths, &vec![true, true, true]), Ok(()));
    assert_eq!(check_paths(&paths, &vec![true, false, false]), Err(FyrError::PathMissing("b".to_string())));
    assert_eq!(check_paths(&paths, &vec![false, true, false]), Err(FyrError::PathMissing("a".to_string())));
    assert_eq!(check_paths(&Vec::new(), &Vec::new()), Ok(()));
}

#[test]
fn validate_paths_checks_the_disk() {
    assert_eq!(validate_paths(&strings(&["src", "tests", "src/lib.rs"])), Ok(()));
    assert_eq!(
        validate_paths(&strings(&["src", "no-such-dir-4711", "also-missing-4711"])),
        Err(FyrError::PathMissing("no-such-dir-4711".to_string()))
    );
    assert_eq!(validate_paths(&Vec::new()), Ok(()));
}

#[test]
fn search_roots_default_to_current_directory() {
    assert_eq!(search_roots(&Vec::new()), strings(&["."]));
    assert_eq!(search_roots(&strings(&["src", "tests"])), strings(&["src", "tests"]));
}

#[test]
fn has_listed_extension_matches_exactly() {
    let exts = strings(&["rs", "toml"]);
    assert!(has_listed_extension(&Some("rs".to_string()), &exts));
    assert!(!has_listed_extension(&Some("RS".to_string()), &exts));
    assert!(!has_listed_extension(&None, &exts));
    assert!(!has_listed_extension(&Some("rs".to_string()), &Vec::new()));
}

#[test]
fn filter_by_extensions_keeps_order() {
    let files = strings(&["./src", "./src/main.rs", "./README.md", "./Cargo.toml", "./src/lib.rs", "./src/.rs", "./x.rs/"]);
    assert_eq!(
        filter_by_extensions(&files, &strings(&["rs", "toml"])),
        strings(&["./src/main.rs", "./Cargo.toml", "./src/lib.rs", "./x.rs/"])
    );
    assert!(filter_by_extensions(&files, &Vec::new()).is_empty());
}

#[test]
fn find_by_extensions_walks_the_tree() {
    let rs = find_by_extensions(&strings(&["src"]), &strings(&["rs"]));
    assert!(rs.contains(&"src/lib.rs".to_string()));
    assert!(rs.contains(&"src/config.rs".to_string()));
    assert!(rs.iter().all(|p| p.ends_with(".rs") && p.starts_with("src")));
    assert!(find_by_extensions(&strings(&["src"]), &Vec::new()).is_empty());
    let from_here = find_by_extensions(&Vec::new(), &strings(&["rs"]));
    assert!(from_here.contains(&"./src/lib.rs".to_string()));
    assert!(from_here.iter().all(|p| p.starts_with("./")));
    let two = find_by_extensions(&strings(&["tests", "src"]), &strings(&["rs"]));
    let first_src = two.iter().position(|p| p.starts_with("src")).unwrap();
    assert!(two[..first_src].iter().all(|p| p.starts_with("tests")));
    assert!(two[first_src..].iter().all(|p| p.starts_with("src")));
}

#[test]
fn resolve_paths_uses_extensions_only_when_given() {
    let watch = strings(&["src", "tests"]);
    assert_eq!(resolve_paths(watch.clone(), None), watch);
    assert_eq!(resolve_paths(watch.clone(), Some(Vec::new())), watch);
    let found = resolve_paths(strings(&["src"]), Some(strings(&["rs"])));
    assert!(found.contains(&"src/paths.rs".to_string()));
    assert!(!found.contains(&"src".to_string()));
}

use fyr::templates::{get_template, template_for_key, Template};

#[test]
fn get_template_selects_by_name_in_any_case() {
    assert_eq!(get_template(None), Template::Default);
    assert_eq!(get_template(Some("rust".to_string())), Template::Rust);
    assert_eq!(get_template(Some("RUST".to_string())), Template::Rust);
    assert_eq!(get_template(Some("NodeJS".to_string())), Template::Node);
    assert_eq!(get_template(Some("node".to_string())), Template::Node);
    assert_eq!(get_template(Some("SCSS".to_string())), Template::Css);
    assert_eq!(get_template(Some("sh".to_string())), Template::Shell);
    assert_eq!(get_template(Some("cobol".to_string())), Template::Default);
}

#[test]
fn template_for_key_is_exact() {
    assert_eq!(template_for_key("go"), Template::Go);
    assert_eq!(template_for_key("Go"), Template::Default);
    assert_eq!(template_for_key("cpp"), Template::Cpp);
    assert_eq!(template_for_key("c"), Template::C);
    assert_eq!(template_for_key(""), Template::Default);
}

#[test]
fn every_template_names_tasks() {
    for t in [Template::Default, Template::Rust, Template::Node, Template::Go, Template::C, Template::Cpp,
        Template::Ruby, Template::Php, Template::Java, Template::Kotlin, Template::Swift, Template::Zig,
        Template::Elixir, Template::Haskell, Template::Css, Template::Lua, Template::Shell] {
        assert!(t.contents().contains("[tasks"));
    }
}

#[test]
fn every_template_is_valid_toml_with_tasks() {
    for t in [Template::Default, Template::Rust, Template::Node, Template::Go, Template::Css, Template::Shell] {
        let table: toml::Table = toml::from_str(t.contents()).unwrap();
        assert!(table.get("tasks").map(|v| v.is_table()).unwrap_or(false));
    }
}

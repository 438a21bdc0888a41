use fyr::text::{copy_texts, text_eq, text_less};

#[test]
fn text_eq_compares_characters() {
    assert!(text_eq("build", "build"));
    assert!(!text_eq("build", "built"));
    assert!(!text_eq("build", "builds"));
    assert!(text_eq("", ""));
    assert!(text_eq("héllo", "héllo"));
}

#[test]
fn text_less_orders_as_strings_do() {
    let words = ["", "a", "ab", "b", "B", "Zeta", "zeta", "é", "ä", "z1", "z10", "z2"];
    for x in words.iter() {
        for y in words.iter() {
            assert_eq!(text_less(x, y), x < y, "{} < {}", x, y);
        }
    }
}

#[test]
fn copy_texts_copies_each_text() {
    let v = vec!["a".to_string(), "bc".to_string()];
    assert_eq!(copy_texts(&v), v);
    assert!(copy_texts(&Vec::new()).is_empty());
}

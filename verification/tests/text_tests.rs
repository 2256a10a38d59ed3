use hippocampus::config::{create_dotdir_config, ensure_dotdir_gitignore, escape_toml_basic_string};
use hippocampus::sort::{sort_strings, str_le};

fn repo_value(content: &str) -> String {
    let value: toml::Value = toml::from_str(content).expect("config should be valid toml");
    value.get("repo").and_then(|v| v.as_str()).expect("repo should be a string").to_string()
}

#[test]
fn create_dotdir_config_escapes_backslashes_for_toml() {
    let write = create_dotdir_config("/tmp/root/.plan", r"..\very\deep\repo");
    assert_eq!(write.path, "/tmp/root/.plan/.hippocampus.toml");
    assert_eq!(repo_value(&write.content), r"..\very\deep\repo");
}

#[test]
fn config_content_is_exact() {
    let write = create_dotdir_config(".plan", "../repo");
    assert_eq!(write.path, ".plan/.hippocampus.toml");
    assert_eq!(write.content, "repo = \"../repo\"\n");
}

#[test]
fn escaping_round_trips_through_toml() {
    for s in ["", "plain", r"a\b", "quote\"inside", r#"\"both\\"#, "üñí\\cödé\"", "\\\\\\"] {
        let write = create_dotdir_config("d", s);
        assert_eq!(repo_value(&write.content), s, "value {:?}", s);
    }
}

#[test]
fn escape_examples() {
    assert_eq!(escape_toml_basic_string(r#"a\b"c"#), r#"a\\b\"c"#);
    assert_eq!(escape_toml_basic_string("plain"), "plain");
    assert_eq!(escape_toml_basic_string(""), "");
}

#[test]
fn gitignore_written_only_when_missing() {
    let w = ensure_dotdir_gitignore("/p/.plan", false).expect("should write");
    assert_eq!(w.path, "/p/.plan/.gitignore");
    assert_eq!(w.content, "*\n");
    assert!(ensure_dotdir_gitignore("/p/.plan", true).is_none());
}

#[test]
fn sort_agrees_with_std() {
    let input: Vec<String> = ["b", "a", ".plan", "Z", "é", "e", "", "ab", "a", "ü", "plan/x", "plan"]
        .iter()
        .map(|s| s.to_string())
        .collect();
    let mut expected = input.clone();
    expected.sort();
    assert_eq!(sort_strings(input), expected);
}

#[test]
fn str_le_agrees_with_std() {
    let words = ["", "a", "ab", "b", "é", "z", "Z", "ü"];
    for a in words {
        for b in words {
            assert_eq!(str_le(a, b), a <= b, "{:?} <= {:?}", a, b);
        }
    }
}

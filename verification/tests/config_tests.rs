use hippocampus::config::{
    dotdir_config_path, load, DotdirConfig, root_config_path, FileState, LoadError, RawDotdirConfig,
    RootConfig, RootSection, SectionValue,
};
use hippocampus::discover::{
    discover_dotdirs, discover_repo_dotdirs, load_all_dotdir_configs, ConfigFiles, DirEntryInfo,
    DotdirScan, RepoEntry,
};

fn raw(repo: &str) -> FileState<RawDotdirConfig> {
    FileState::Loaded(RawDotdirConfig { repo: repo.to_string() })
}

fn dir(name: &str, has_config: bool) -> DirEntryInfo {
    DirEntryInfo { name: name.to_string(), is_dir: true, is_symlink: false, has_config }
}

fn file(name: &str) -> DirEntryInfo {
    DirEntryInfo { name: name.to_string(), is_dir: false, is_symlink: false, has_config: false }
}

/// Runs a scan over a directory tree given as (relative dir, listing) pairs.
fn scan(tree: &[(&str, Vec<DirEntryInfo>)]) -> Vec<String> {
    let mut s = DotdirScan::new();
    let mut visited = Vec::new();
    while let Some(d) = s.next_dir() {
        let listing = tree
            .iter()
            .find(|(p, _)| *p == d)
            .map(|(_, l)| l.clone())
            .unwrap_or_default();
        s.visit(&d, &listing);
        visited.push(d);
    }
    discover_dotdirs(&s)
}

#[test]
fn discover_dotdirs_includes_non_dot_name_when_config_exists() {
    let found = scan(&[("", vec![dir("plan", true)])]);
    assert!(found.iter().any(|d| d == "plan"), "expected 'plan' to be discovered, got: {found:?}");
}

#[test]
fn discover_dotdirs_finds_configured_directory_in_deep_path() {
    let found = scan(&[
        ("", vec![dir("very", false)]),
        ("very", vec![dir("deep", false)]),
        ("very/deep", vec![dir("plan", true)]),
    ]);
    let expected = "very/deep/plan".to_string();
    assert!(found.iter().any(|d| d == &expected), "expected deep managed dir to be discovered, got: {found:?}");
}

#[test]
fn scan_skips_files_links_and_managed_subtrees() {
    let mut link = dir("linked", true);
    link.is_symlink = true;
    let found = scan(&[
        ("", vec![dir("b", true), file("notes.md"), link, dir("a", false)]),
        ("a", vec![dir("z", true), dir("y", true)]),
        ("b", vec![dir("inner", true)]),
    ]);
    assert_eq!(found, vec!["a/y", "a/z", "b"]);
}

#[test]
fn scan_reads_directories_depth_first_in_listing_order() {
    let mut s = DotdirScan::new();
    assert_eq!(s.next_dir(), Some(String::new()));
    s.visit("", &vec![dir("one", false), dir("two", false)]);
    assert_eq!(s.next_dir(), Some("one".to_string()));
    s.visit("one", &vec![dir("deep", false)]);
    assert_eq!(s.next_dir(), Some("one/deep".to_string()));
    s.visit("one/deep", &vec![]);
    assert_eq!(s.next_dir(), Some("two".to_string()));
    s.visit("two", &vec![]);
    assert_eq!(s.next_dir(), None);
}

#[test]
fn scoped_discovery_includes_non_dot_and_deep_dirs_under_current_dir() {
    // The scan starts at `scope`; `outside/plans` lies beyond it.
    let found = scan(&[("", vec![dir("src", false)]), ("src", vec![dir("plans", true)])]);
    let files: Vec<ConfigFiles> = found
        .iter()
        .map(|_| ConfigFiles { dotdir_file: raw("../repo"), root_file: FileState::Absent })
        .collect();
    let configs = load_all_dotdir_configs("/tmp/root/scope", &found, &files).expect("failed to load configs");
    let names: Vec<_> = configs.iter().map(|(name, _)| name.clone()).collect();
    assert!(names.iter().any(|name| name == "src/plans"), "expected src/plans under current scope, got: {names:?}");
    assert!(!names.iter().any(|name| name.contains("outside")), "should not include directories outside current scope: {names:?}");
}

#[test]
fn repo_path_is_resolved_relative_to_dotdir_config_file() {
    let root = "/tmp/hippocampus-config-test";
    let cfg = load(root, ".plan", &raw("../..repo"), &FileState::Absent).expect("failed to load dotdir config");
    assert_eq!(cfg.repo_dotdir_path(root, ".plan"), "/tmp/hippocampus-config-test/..repo/.plan");
}

#[test]
fn repo_project_path_is_resolved_relative_to_dotdir_config_file() {
    let root = "/tmp/hippocampus-config-test";
    let cfg = load(root, ".plan", &raw("../..repo"), &FileState::Absent).expect("failed to load dotdir config");
    assert_eq!(cfg.repo_project_path(), "/tmp/hippocampus-config-test/..repo");
    assert_eq!(cfg.config_dir(), "/tmp/hippocampus-config-test/.plan");
}

#[test]
fn absolute_repo_is_kept_and_normalized() {
    let cfg = load("/p", ".plan", &raw("/srv/plans/./x/../proj"), &FileState::Absent).unwrap();
    assert_eq!(cfg.repo_project_path(), "/srv/plans/proj");
    assert_eq!(cfg.repo_dotdir_path("/p", ".plan"), "/srv/plans/proj/.plan");
}

fn root_cfg(repo: Option<&str>, sections: Vec<(&str, SectionValue)>) -> FileState<RootConfig> {
    FileState::Loaded(RootConfig {
        repo: repo.map(|s| s.to_string()),
        sections: sections
            .into_iter()
            .map(|(n, v)| RootSection { name: n.to_string(), value: v })
            .collect(),
    })
}

#[test]
fn dotdir_file_wins_over_root_config() {
    let cfg = load("/p", ".plan", &raw("own"), &root_cfg(Some("top"), vec![])).unwrap();
    assert_eq!(cfg.repo, "own");
    assert_eq!(cfg.config_dir(), "/p/.plan");
}

#[test]
fn root_section_then_top_level_default() {
    let sections = vec![
        (".plan", SectionValue::Table { repo: Some("section".to_string()) }),
        (".empty", SectionValue::Table { repo: None }),
        (".odd", SectionValue::Other),
    ];
    let rc = root_cfg(Some("top"), sections.clone());
    let c = load("/p", ".plan", &FileState::Absent, &rc).unwrap();
    assert_eq!(c.repo, "section");
    assert_eq!(c.config_dir(), "/p");
    assert_eq!(load("/p", ".empty", &FileState::Absent, &rc).unwrap().repo, "top");
    assert_eq!(load("/p", ".odd", &FileState::Absent, &rc).unwrap().repo, "top");
    assert_eq!(load("/p", ".other", &FileState::Absent, &rc).unwrap().repo, "top");
    let no_default = root_cfg(None, sections);
    match load("/p", ".empty", &FileState::Absent, &no_default) {
        Err(e @ LoadError::NotFound { .. }) => {
            assert_eq!(e.message(), "No config found for '.empty'. Run 'tatu init .empty --repo <path>' first.")
        }
        other => panic!("unexpected {:?}", other),
    }
}

#[test]
fn load_errors_name_their_cause() {
    let e = load("/p", ".plan", &FileState::ReadFailed("denied".into()), &FileState::Absent).unwrap_err();
    assert_eq!(e.message(), "Failed to read /p/.plan/.hippocampus.toml");
    assert_eq!(e.cause(), Some("denied".to_string()));
    let e = load("/p", ".plan", &FileState::ParseFailed("bad".into()), &FileState::Absent).unwrap_err();
    assert_eq!(e.message(), "Failed to parse /p/.plan/.hippocampus.toml");
    let e = load("/p", ".plan", &FileState::Absent, &FileState::ReadFailed("io".into())).unwrap_err();
    assert_eq!(e.message(), "io");
    let e = load("/p", ".plan", &FileState::Absent, &FileState::ParseFailed("bad".into())).unwrap_err();
    assert_eq!(e.message(), "Failed to parse root .hippocampus.toml");
    let e = load("/p", ".plan", &FileState::Absent, &FileState::Absent).unwrap_err();
    assert_eq!(e.message(), "No config found for '.plan'. Run 'tatu init .plan --repo <path>' first.");
}

#[test]
fn config_paths() {
    assert_eq!(dotdir_config_path("/p", "a/b"), "/p/a/b/.hippocampus.toml");
    assert_eq!(root_config_path("/p/"), "/p/.hippocampus.toml");
}

#[test]
fn load_all_stops_at_first_failure() {
    let dotdirs = vec!["a".to_string(), "b".to_string(), "c".to_string()];
    let files = vec![
        ConfigFiles { dotdir_file: raw("r"), root_file: FileState::Absent },
        ConfigFiles { dotdir_file: FileState::Absent, root_file: FileState::Absent },
        ConfigFiles { dotdir_file: FileState::ParseFailed("x".into()), root_file: FileState::Absent },
    ];
    let e = load_all_dotdir_configs("/p", &dotdirs, &files).unwrap_err();
    assert_eq!(e.message(), "No config found for 'b'. Run 'tatu init b --repo <path>' first.");
}

#[test]
fn repo_dotdirs_skip_git_and_files() {
    let entries = vec![
        RepoEntry { name: "zeta".into(), is_dir: true },
        RepoEntry { name: ".git".into(), is_dir: true },
        RepoEntry { name: "README.md".into(), is_dir: false },
        RepoEntry { name: ".plan".into(), is_dir: true },
    ];
    assert_eq!(discover_repo_dotdirs(&entries), vec![".plan", "zeta"]);
}

#[test]
fn repo_project_path_climbs_no_higher_than_the_root() {
    let up = DotdirConfig::new("/..".to_string(), "/p".to_string());
    assert_eq!(up.repo_project_path(), "/");
    let far = DotdirConfig::new("../../x".to_string(), "/p".to_string());
    assert_eq!(far.repo_project_path(), "/x");
}

use hippocampus::cli::{
    ansi_dim, ansi_red, can_color, format_repo_path_colored, init_dotdirs, init_message, init_root,
    init_summary, managed_paths, project_name, repo_for_config, repo_path_prefixes, repo_root_from_config,
    repo_subdir,
    report_line, resolve_from, scan_root, update_message,
};
use hippocampus::config::DotdirConfig;

fn cfg(repo: &str, dir: &str) -> DotdirConfig {
    DotdirConfig::new(repo.to_string(), dir.to_string())
}

fn strings(v: &[&str]) -> Vec<String> {
    v.iter().map(|s| s.to_string()).collect()
}

#[test]
fn ansi_colors() {
    assert_eq!(ansi_dim("x"), "\x1b[2mx\x1b[0m");
    assert_eq!(ansi_red("x"), "\x1b[31mx\x1b[0m");
}

#[test]
fn project_names() {
    assert_eq!(project_name(Some("/home/u/hippocampus")), "hippocampus");
    assert_eq!(project_name(Some("/")), "unnamed");
    assert_eq!(project_name(None), "unnamed");
}

#[test]
fn scan_root_requires_a_root() {
    assert_eq!(scan_root(Some("/p".into())).unwrap(), "/p");
    assert_eq!(scan_root(None).unwrap_err().message, "Could not find project root (.git).");
}

#[test]
fn repo_subdir_is_last_component() {
    assert_eq!(repo_subdir(&cfg("../plans/hippocampus", "/p/.plan")).unwrap(), "hippocampus");
    assert_eq!(repo_subdir(&cfg("/", "/p")).unwrap_err().message, "repo path has no file name component");
}

#[test]
fn commit_messages() {
    let dds = strings(&[".plan", "notes"]);
    assert_eq!(update_message(&None, "proj", &dds), "update proj .plan notes");
    assert_eq!(update_message(&Some("mine".into()), "proj", &dds), "mine");
    assert_eq!(init_message("proj", &dds), "init proj .plan notes");
}

#[test]
fn init_summaries() {
    let none: Vec<String> = vec![];
    assert_eq!(init_summary(".plan", &none, &none), "Initialized .plan (empty)");
    assert_eq!(
        init_summary(".plan", &strings(&["a", "b"]), &strings(&["c"])),
        "Initialized .plan (absorbed: a, b, linked: c)"
    );
    assert_eq!(init_summary(".plan", &none, &strings(&["c"])), "Initialized .plan (linked: c)");
}

#[test]
fn report_lines() {
    assert_eq!(report_line("deleted", ".plan", "a.md"), "  deleted: .plan/a.md");
}

#[test]
fn init_paths() {
    assert_eq!(resolve_from("/cwd", "rel/x"), "/cwd/rel/x");
    assert_eq!(resolve_from("/cwd", "/abs"), "/abs");
    assert_eq!(init_root("", "/cwd", Some("/found".into())).unwrap(), "/found");
    assert_eq!(init_root("sub", "/cwd", None).unwrap(), "/cwd/sub");
    assert_eq!(
        init_root("", "/cwd", None).unwrap_err().message,
        "Could not find project root (.git). Use --root to specify explicitly."
    );
    assert_eq!(init_dotdirs(Some("x".into()), strings(&["a"])), vec!["x"]);
    assert_eq!(init_dotdirs(None, strings(&["a", "b"])), vec!["a", "b"]);
}

#[test]
fn repo_value_written_by_init() {
    assert_eq!(repo_for_config("../plans/h", "/w/plans/h", "/w/project/.plan"), "../../plans/h");
    assert_eq!(repo_for_config("/abs/plans/h", "/abs/plans/h", "/w/project/.plan"), "/abs/plans/h");
}

#[test]
fn managed_paths_per_dotdir() {
    let configs = vec![(".plan".to_string(), cfg("../repo", "/p/.plan"))];
    let ps = managed_paths("/p", &configs);
    assert_eq!(ps[0].dotdir_path, "/p/.plan");
    assert_eq!(ps[0].repo_dotdir, "/p/repo/.plan");
}

#[test]
fn colored_repo_path() {
    assert_eq!(
        format_repo_path_colored("/r/proj", ".plan", true, &vec![]),
        "/r/proj/\x1b[2m.plan\x1b[0m"
    );
    let prefixes = repo_path_prefixes("/r/proj", ".plan");
    assert_eq!(prefixes, vec!["/", "/r", "/r/proj", "/r/proj/.plan"]);
    assert_eq!(
        format_repo_path_colored("/r/proj", ".plan", false, &vec![true, true, false, false]),
        "/r\x1b[31m/proj/.plan\x1b[0m"
    );
    assert_eq!(
        format_repo_path_colored("rel", "d", false, &vec![false, false]),
        "\x1b[31mrel/d\x1b[0m"
    );
}

#[test]
fn written_repo_value_leads_back_to_the_repo() {
    // As in a deep working directory: `--repo` relative to the current
    // directory, the project root given separately.
    let cwd = "/w/project/very/deep/cwd";
    let repo = "../../../../plans/hippocampus";
    let repo_abs = resolve_from(cwd, repo);
    let dotdir_path = "/w/project/.plan";
    let written = repo_for_config(repo, &repo_abs, dotdir_path);
    assert_eq!(written, "../very/deep/cwd/../../../../plans/hippocampus");
    let loaded = cfg(&written, dotdir_path);
    assert_eq!(loaded.repo_project_path(), "/w/plans/hippocampus");
    assert_eq!(loaded.repo_dotdir_path("/w/project", ".plan"), "/w/plans/hippocampus/.plan");
}

#[test]
fn repo_root_comes_from_the_first_marked_ancestor() {
    let c = cfg("../plans/h", "/w/project/.plan");
    match repo_root_from_config(&c, false, "/w", &vec![]) {
        Err(e) => assert_eq!(
            e.message,
            "Repo side: path does not exist: /w/project/plans/h\nCheck the 'repo' value in .hippocampus.toml"
        ),
        Ok(_) => panic!("a missing repo path must fail"),
    }
    // Search dirs: /w/project/plans/h, /w/project/plans, /w/project, /w, /
    let (root, _) = repo_root_from_config(&c, true, "/w", &vec![false, true, true, false, false]).unwrap();
    assert_eq!(root, "/w/project/plans");
    match repo_root_from_config(&c, true, "/w", &vec![false; 5]) {
        Err(e) => assert_eq!(e.message, "Repo side: no git repository found at /w/project/plans/h"),
        Ok(_) => panic!("no repository must fail"),
    }
}

#[test]
fn colored_rest_is_cut_at_the_byte_length_of_the_ancestor() {
    // The ancestor's text is not a prefix of the path's text here: the cut
    // falls at its byte length, 4, as slicing the path string does.
    assert_eq!(
        format_repo_path_colored("/a//b", "dd", false, &vec![true, true, true, false]),
        "/a/b\x1b[31mb/dd\x1b[0m"
    );
    // Multi-byte characters: "/é" is 3 bytes, so the rest starts after "é".
    assert_eq!(
        format_repo_path_colored("/é/x", "dd", false, &vec![true, true, false, false]),
        "/é\x1b[31m/x/dd\x1b[0m"
    );
    // Byte 5 lies inside "é" of "/a//é/dd": that cut would panic.
    assert!(!can_color("/a//é", "dd", false, &vec![true, true, true, false]));
    assert!(can_color("/a//é", "dd", false, &vec![true, true, false, false]));
    assert!(can_color("/a//é", "dd", true, &vec![true, true, true, false]));
}

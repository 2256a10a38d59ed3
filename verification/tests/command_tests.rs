use hippocampus::cli::repo_path_prefixes;
use hippocampus::config::{DotdirConfig, FileState, RawDotdirConfig};
use hippocampus::discover::ConfigFiles;
use hippocampus::init::{InitAction, InitEvent, InitSession};
use hippocampus::listing::{ListAction, ListEvent, ListSession};
use hippocampus::unlink::{UnlinkAction, UnlinkEvent, UnlinkSession};
use hippocampus::vcs::vcs_search_dirs;

#[test]
fn list_prints_each_dotdir_with_its_repo_side() {
    let mut s = ListSession::new();
    assert!(matches!(s.step(ListEvent::Next), ListAction::FindProjectRoot));
    assert!(matches!(s.step(ListEvent::Root(Some("/w/p".into()))), ListAction::LoadConfigs { .. }));
    let configs = vec![
        (".plan".to_string(), DotdirConfig::new("../../plans/p".into(), "/w/p/.plan".into())),
        ("notes".to_string(), DotdirConfig::new("/srv/x".into(), "/w/p/notes".into())),
    ];
    match s.step(ListEvent::Configs(configs)) {
        ListAction::ProbeRepoPath { repo_project, dotdir } => {
            assert_eq!(repo_project, "/w/plans/p");
            assert_eq!(dotdir, ".plan");
        }
        other => panic!("unexpected {:?}", other),
    }
    match s.step(ListEvent::PathProbe { full_exists: true, prefix_exists: vec![true; 5] }) {
        ListAction::Print(l) => assert_eq!(l, ".plan\n  ->  /w/plans/p/\x1b[2m.plan\x1b[0m"),
        other => panic!("unexpected {:?}", other),
    }
    assert!(matches!(s.step(ListEvent::Next), ListAction::ProbeRepoPath { .. }));
    let n = repo_path_prefixes("/srv/x", "notes").len();
    let mut flags = vec![false; n];
    flags[0] = true;
    flags[1] = true;
    match s.step(ListEvent::PathProbe { full_exists: false, prefix_exists: flags }) {
        ListAction::Print(l) => assert_eq!(l, "notes\n  ->  /srv\x1b[31m/x/notes\x1b[0m"),
        other => panic!("unexpected {:?}", other),
    }
    assert!(matches!(s.step(ListEvent::Next), ListAction::Finish(Ok(()))));
}

#[test]
fn unlink_restores_then_cleans_up() {
    let mut s = UnlinkSession::new(Some(".plan".into()));
    assert!(matches!(s.step(UnlinkEvent::Next), UnlinkAction::FindProjectRoot));
    match s.step(UnlinkEvent::Root(Some("/w/p".into()))) {
        UnlinkAction::CheckDotdir { path } => assert_eq!(path, "/w/p/.plan"),
        other => panic!("unexpected {:?}", other),
    }
    assert!(matches!(s.step(UnlinkEvent::Exists(true)), UnlinkAction::ReadConfig { .. }));
    let files = ConfigFiles {
        dotdir_file: FileState::Loaded(RawDotdirConfig { repo: "../../plans/p".into() }),
        root_file: FileState::Absent,
    };
    match s.step(UnlinkEvent::Config(files)) {
        UnlinkAction::Restore { dotdir_path, repo_dotdir } => {
            assert_eq!(dotdir_path, "/w/p/.plan");
            assert_eq!(repo_dotdir, "/w/plans/p/.plan");
        }
        other => panic!("unexpected {:?}", other),
    }
    match s.step(UnlinkEvent::Restored(vec!["a.md".into(), "b.md".into()])) {
        UnlinkAction::Print(l) => assert_eq!(l, "  restored: .plan/a.md\n  restored: .plan/b.md"),
        other => panic!("unexpected {:?}", other),
    }
    match s.step(UnlinkEvent::Next) {
        UnlinkAction::Cleanup { config_path, gitignore_path, .. } => {
            assert_eq!(config_path, "/w/p/.plan/.hippocampus.toml");
            assert_eq!(gitignore_path, "/w/p/.plan/.gitignore");
        }
        other => panic!("unexpected {:?}", other),
    }
    match s.step(UnlinkEvent::Next) {
        UnlinkAction::Print(l) => assert_eq!(l, "Unlinked .plan"),
        other => panic!("unexpected {:?}", other),
    }
    assert!(matches!(s.step(UnlinkEvent::Next), UnlinkAction::Finish(Ok(()))));
}

#[test]
fn unlink_without_config_removes_the_dotdir() {
    let mut s = UnlinkSession::new(None);
    s.step(UnlinkEvent::Next);
    assert!(matches!(s.step(UnlinkEvent::Root(Some("/w/p".into()))), UnlinkAction::DiscoverDotdirs { .. }));
    assert!(matches!(s.step(UnlinkEvent::Dotdirs(vec!["gone".into(), "x".into()])), UnlinkAction::CheckDotdir { .. }));
    match s.step(UnlinkEvent::Exists(false)) {
        UnlinkAction::CheckDotdir { path } => assert_eq!(path, "/w/p/x"),
        other => panic!("unexpected {:?}", other),
    }
    s.step(UnlinkEvent::Exists(true));
    let files = ConfigFiles { dotdir_file: FileState::Absent, root_file: FileState::Absent };
    match s.step(UnlinkEvent::Config(files)) {
        UnlinkAction::RemoveDir { path } => assert_eq!(path, "/w/p/x"),
        other => panic!("unexpected {:?}", other),
    }
    assert!(matches!(s.step(UnlinkEvent::Next), UnlinkAction::Print(_)));
    assert!(matches!(s.step(UnlinkEvent::Next), UnlinkAction::Finish(Ok(()))));
}

#[test]
fn init_sets_up_absorbs_links_and_commits() {
    let mut s = InitSession::new(Some(".plan".into()), "../../plans/h".into(), "/w/project".into());
    assert!(matches!(s.step(InitEvent::Next), InitAction::CurrentDir));
    match s.step(InitEvent::Cwd("/w/project/very/deep".into())) {
        InitAction::SetUpDotdir { repo_dotdir, dotdir_path, config } => {
            assert_eq!(repo_dotdir, "/w/project/very/deep/../../plans/h/.plan");
            assert_eq!(dotdir_path, "/w/project/.plan");
            assert_eq!(config.path, "/w/project/.plan/.hippocampus.toml");
            assert_eq!(config.content, "repo = \"../very/deep/../../plans/h\"\n");
        }
        other => panic!("unexpected {:?}", other),
    }
    assert!(matches!(s.step(InitEvent::Next), InitAction::Absorb { .. }));
    match s.step(InitEvent::Names(vec!["a.md".into()])) {
        InitAction::Print(l) => assert_eq!(l, "  absorbed: .plan/a.md"),
        other => panic!("unexpected {:?}", other),
    }
    assert!(matches!(s.step(InitEvent::Next), InitAction::Link { .. }));
    match s.step(InitEvent::Names(vec![])) {
        InitAction::Print(l) => assert_eq!(l, "Initialized .plan (absorbed: a.md)"),
        other => panic!("unexpected {:?}", other),
    }
    assert!(matches!(s.step(InitEvent::Next), InitAction::ProbeRepo { .. }));
    let dirs = vcs_search_dirs("/w/project/very/deep/../../plans/h", "/w/project/very/deep");
    let has_git: Vec<bool> = dirs.iter().map(|d| d == "/w/project/very/deep/../../plans").collect();
    match s.step(InitEvent::RepoProbe { has_git }) {
        InitAction::RunGit(c) => {
            assert_eq!(c.args, vec!["status", "--short", "h"]);
            assert_eq!(c.cwd, "/w/project/very/deep/../../plans");
        }
        other => panic!("unexpected {:?}", other),
    }
    assert!(matches!(s.step(InitEvent::Output("?? h/".into())), InitAction::FindProjectRoot));
    match s.step(InitEvent::Root(Some("/w/project".into()))) {
        InitAction::RunGit(c) => assert_eq!(c.args, vec!["add", "h"]),
        other => panic!("unexpected {:?}", other),
    }
    match s.step(InitEvent::Output(String::new())) {
        InitAction::RunGit(c) => assert_eq!(c.args, vec!["commit", "-m", "init project .plan"]),
        other => panic!("unexpected {:?}", other),
    }
    assert!(matches!(s.step(InitEvent::Output(String::new())), InitAction::RunGit(_)));
    match s.step(InitEvent::Output(String::new())) {
        InitAction::Print(l) => assert_eq!(l, "Committed and pushed: init project .plan"),
        other => panic!("unexpected {:?}", other),
    }
    assert!(matches!(s.step(InitEvent::Next), InitAction::Finish(Ok(()))));
}

#[test]
fn init_with_empty_repo_side_stops() {
    let mut s = InitSession::new(None, "/plans/h".into(), String::new());
    s.step(InitEvent::Next);
    assert!(matches!(s.step(InitEvent::Cwd("/w".into())), InitAction::FindProjectRoot));
    match s.step(InitEvent::Root(Some("/w".into()))) {
        InitAction::DiscoverRepoDotdirs { repo_abs } => assert_eq!(repo_abs, "/plans/h"),
        other => panic!("unexpected {:?}", other),
    }
    match s.step(InitEvent::Dotdirs(vec![])) {
        InitAction::Print(l) => {
            assert_eq!(l, "No dotdirs found in repo. Use 'tt init <dotdir> -r <path>' to create one.")
        }
        other => panic!("unexpected {:?}", other),
    }
    assert!(matches!(s.step(InitEvent::Next), InitAction::Finish(Ok(()))));
}

#[test]
fn init_without_root_fails() {
    let mut s = InitSession::new(None, "/plans/h".into(), String::new());
    s.step(InitEvent::Next);
    s.step(InitEvent::Cwd("/w".into()));
    match s.step(InitEvent::Root(None)) {
        InitAction::Finish(Err(m)) => {
            assert_eq!(m, "Could not find project root (.git). Use --root to specify explicitly.")
        }
        other => panic!("unexpected {:?}", other),
    }
}

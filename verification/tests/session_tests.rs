use hippocampus::cli::{Cli, Commands};
use hippocampus::config::DotdirConfig;
use hippocampus::path::ancestors;
use hippocampus::session::{Action, Event, RepoCommand, Run, Session};
use hippocampus::vcs::vcs_search_dirs;

fn configs() -> Vec<(String, DotdirConfig)> {
    vec![(".plan".to_string(), DotdirConfig::new("../../plans/proj".into(), "/w/proj/.plan".into()))]
}

fn probe(repo_path: &str) -> Event {
    let dirs = vcs_search_dirs(repo_path, "/w/proj");
    let has_git: Vec<bool> = dirs.iter().map(|d| d == "/w/plans").collect();
    Event::RepoProbe { exists: true, cwd: "/w/proj".into(), has_git }
}

fn git_args(a: &Action) -> Vec<String> {
    match a {
        Action::RunGit(c) => {
            assert_eq!(c.cwd, "/w/plans");
            c.args.clone()
        }
        other => panic!("expected git, got {:?}", other),
    }
}

fn printed(a: &Action) -> String {
    match a {
        Action::Print(s) => s.clone(),
        other => panic!("expected print, got {:?}", other),
    }
}

fn start(cmd: Commands) -> Session {
    match (Cli { command: cmd }).run() {
        Run::Repo(s) => s,
        _ => panic!("not a repo command"),
    }
}

fn to_repo(s: &mut Session) {
    assert!(matches!(s.step(Event::Next), Action::FindProjectRoot));
    match s.step(Event::Root(Some("/w/proj".into()))) {
        Action::LoadConfigs { root } => assert_eq!(root, "/w/proj"),
        other => panic!("unexpected {:?}", other),
    }
}

#[test]
fn push_with_changes_commits_then_pushes() {
    let mut s = start(Commands::Push { message: None });
    to_repo(&mut s);
    assert!(matches!(s.step(Event::Configs(configs())), Action::PruneAll { .. }));
    assert!(matches!(s.step(Event::Next), Action::AbsorbAll { .. }));
    match s.step(Event::Next) {
        Action::SyncAllLinks { targets } => {
            assert_eq!(targets[0].dotdir_path, "/w/proj/.plan");
            assert_eq!(targets[0].repo_dotdir, "/w/plans/proj/.plan");
        }
        other => panic!("unexpected {:?}", other),
    }
    match s.step(Event::Next) {
        Action::ProbeRepo { repo_path } => assert_eq!(repo_path, "/w/plans/proj"),
        other => panic!("unexpected {:?}", other),
    }
    assert_eq!(git_args(&s.step(probe("/w/plans/proj"))), vec!["status", "--short", "proj"]);
    assert_eq!(git_args(&s.step(Event::Output(" M proj/.plan/a.md".into()))), vec!["add", "proj"]);
    assert_eq!(git_args(&s.step(Event::Output(String::new()))), vec!["commit", "-m", "update proj .plan"]);
    assert_eq!(printed(&s.step(Event::Output(String::new()))), "Committed: update proj .plan");
    assert_eq!(git_args(&s.step(Event::Next)), vec!["push"]);
    assert_eq!(printed(&s.step(Event::Output(String::new()))), "Pushed.");
    assert!(matches!(s.step(Event::Next), Action::Finish(Ok(()))));
}

#[test]
fn push_without_changes_does_nothing() {
    let mut s = start(Commands::Push { message: Some("msg".into()) });
    to_repo(&mut s);
    s.step(Event::Configs(configs()));
    s.step(Event::Next);
    s.step(Event::Next);
    s.step(Event::Next);
    s.step(probe("/w/plans/proj"));
    assert_eq!(printed(&s.step(Event::Output(String::new()))), "Nothing to push.");
    assert!(matches!(s.step(Event::Next), Action::Finish(Ok(()))));
}

#[test]
fn sync_pushes_before_pulling_and_stops_on_conflict() {
    let mut s = start(Commands::Sync { message: Some("m".into()) });
    assert_eq!(s.command, RepoCommand::Sync);
    to_repo(&mut s);
    assert!(matches!(s.step(Event::Configs(configs())), Action::ProbeRepo { .. }));
    assert!(matches!(s.step(probe("/w/plans/proj")), Action::PruneAll { .. }));
    assert!(matches!(s.step(Event::Next), Action::AbsorbAll { .. }));
    assert_eq!(git_args(&s.step(Event::Next)), vec!["status", "--short", "proj"]);
    assert_eq!(git_args(&s.step(Event::Output("M x".into()))), vec!["add", "proj"]);
    assert_eq!(git_args(&s.step(Event::Output(String::new()))), vec!["commit", "-m", "m"]);
    s.step(Event::Output(String::new()));
    assert_eq!(git_args(&s.step(Event::Next)), vec!["push"]);
    s.step(Event::Output(String::new()));
    assert_eq!(git_args(&s.step(Event::Next)), vec!["pull"]);
    match s.step(Event::Failed("conflict in a.md".into())) {
        Action::Finish(Err(m)) => assert_eq!(m, "Pull failed (possible conflict): conflict in a.md"),
        other => panic!("unexpected {:?}", other),
    }
}

#[test]
fn pull_then_links() {
    let mut s = start(Commands::Pull);
    to_repo(&mut s);
    s.step(Event::Configs(configs()));
    assert_eq!(git_args(&s.step(probe("/w/plans/proj"))), vec!["pull"]);
    assert_eq!(printed(&s.step(Event::Output(String::new()))), "Pulled.");
    assert!(matches!(s.step(Event::Next), Action::SyncAllLinks { .. }));
    assert!(matches!(s.step(Event::Next), Action::Finish(Ok(()))));
}

#[test]
fn status_and_diff_reports() {
    let mut s = start(Commands::Status);
    to_repo(&mut s);
    s.step(Event::Configs(configs()));
    assert_eq!(git_args(&s.step(probe("/w/plans/proj"))), vec!["fetch"]);
    assert_eq!(git_args(&s.step(Event::Output(String::new()))), vec!["status", "--short"]);
    assert_eq!(printed(&s.step(Event::Output(String::new()))), "Clean.");
    let mut d = start(Commands::Diff);
    to_repo(&mut d);
    d.step(Event::Configs(configs()));
    assert_eq!(git_args(&d.step(probe("/w/plans/proj"))), vec!["diff"]);
    assert_eq!(printed(&d.step(Event::Output("diff --git".into()))), "diff --git");
}

#[test]
fn repo_errors() {
    let mut s = start(Commands::Status);
    assert!(matches!(s.step(Event::Next), Action::FindProjectRoot));
    match s.step(Event::Root(None)) {
        Action::Finish(Err(m)) => assert_eq!(m, "Could not find project root (.git)."),
        other => panic!("unexpected {:?}", other),
    }
    let mut s = start(Commands::Diff);
    to_repo(&mut s);
    match s.step(Event::Configs(vec![])) {
        Action::Finish(Err(m)) => assert_eq!(m, "No managed dotdirs found. Run 'tt init' first."),
        other => panic!("unexpected {:?}", other),
    }
    let mut s = start(Commands::Diff);
    to_repo(&mut s);
    s.step(Event::Configs(configs()));
    let n = vcs_search_dirs("/w/plans/proj", "/w/proj").len();
    match s.step(Event::RepoProbe { exists: false, cwd: "/w/proj".into(), has_git: vec![false; n] }) {
        Action::Finish(Err(m)) => assert_eq!(
            m,
            "Repo side: path does not exist: /w/plans/proj\nCheck the 'repo' value in .hippocampus.toml"
        ),
        other => panic!("unexpected {:?}", other),
    }
    let mut s = start(Commands::Diff);
    to_repo(&mut s);
    s.step(Event::Configs(configs()));
    match s.step(Event::RepoProbe { exists: true, cwd: "/w/proj".into(), has_git: vec![false; n] }) {
        Action::Finish(Err(m)) => assert_eq!(m, "Repo side: no git repository found at /w/plans/proj"),
        other => panic!("unexpected {:?}", other),
    }
    assert_eq!(ancestors("/w/plans/proj").len(), n);
}

use hippocampus::vcs::{changes_reported, detect_vcs, find_project_root, git_marker, vcs_search_dirs, Git, Vcs, VcsError};

#[test]
fn git_commands() {
    let g = Git;
    let c = g.add("/r", "proj");
    assert_eq!(c.args, vec!["add", "proj"]);
    assert_eq!(c.cwd, "/r");
    assert_eq!(g.commit("/r", "msg here").args, vec!["commit", "-m", "msg here"]);
    assert_eq!(g.push("/r").args, vec!["push"]);
    assert_eq!(g.pull("/r").args, vec!["pull"]);
    assert_eq!(g.fetch("/r").args, vec!["fetch"]);
    assert_eq!(g.status("/r").args, vec!["status", "--short"]);
    assert_eq!(g.diff("/r").args, vec!["diff"]);
    assert_eq!(g.has_changes("/r", "proj").args, vec!["status", "--short", "proj"]);
}

#[test]
fn git_messages() {
    let c = Git.commit("/r", "m");
    assert_eq!(c.describe(), "git commit -m m");
    assert_eq!(c.launch_failure(), "Failed to run git commit -m m");
    assert_eq!(c.run_failure("boom"), "git commit -m m failed: boom");
}

#[test]
fn changes_are_reported_by_nonempty_status() {
    assert!(changes_reported("M proj/a.md"));
    assert!(!changes_reported(""));
}

#[test]
fn repository_root_is_nearest_marked_ancestor() {
    let dirs = vcs_search_dirs("../plans/proj", "/home/u/work");
    assert_eq!(dirs, vec!["/home/u/work/../plans/proj", "/home/u/work/../plans", "/home/u/work/..", "/home/u/work", "/home/u", "/home", "/"]);
    let marks = vec![false, true, false, true, false, false, false];
    let (_, root) = detect_vcs("../plans/proj", "/home/u/work", &marks).unwrap();
    assert_eq!(root, "/home/u/work/../plans");
    assert_eq!(git_marker(&root), "/home/u/work/../plans/.git");
}

#[test]
fn no_repository_is_an_error() {
    let marks = vec![false; 3];
    match detect_vcs("/a/b", "/cwd", &marks) {
        Err(e @ VcsError::NoRepository { .. }) => {
            assert_eq!(e.message(), "Repo side: no git repository found at /a/b")
        }
        other => panic!("unexpected {:?}", other),
    }
}

#[test]
fn project_root_from_cwd() {
    assert_eq!(find_project_root("/a/b/c", &vec![false, false, true, false]).unwrap(), "/a");
    match find_project_root("/a", &vec![false, false]) {
        Err(e @ VcsError::NoProjectRoot) => {
            assert_eq!(e.message(), "No git repository found. Run from within a git project.")
        }
        other => panic!("unexpected {:?}", other),
    }
}

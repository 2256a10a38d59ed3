use hippocampus::linker::{
    absorb_candidates, absorb_step, create_symlink, is_ignored, or_unchanged, prune_deletions,
    relative_or_same_path, restore_files, sync_links, AbsorbStep, LinkError, ProjectEntry,
    RepoFile, SourceState,
};

fn repo_file(name: &str, is_file: bool, in_project: bool) -> RepoFile {
    RepoFile { name: name.to_string(), is_file, in_project }
}

#[test]
fn pathdiff_is_called_for_relative_targets() {
    assert_eq!(relative_or_same_path("/foo/bar/baz", "/foo/bar"), "baz");
    assert_eq!(relative_or_same_path("/foo/bar/quux", "/foo/bar/baz"), "../quux");
    assert_eq!(relative_or_same_path("/foo/bar", "baz"), "/foo/bar");
    // No relative path from an absolute base to a relative path: unchanged.
    assert_eq!(relative_or_same_path("foo", "/bar"), "foo");
}

#[test]
fn symlink_target_is_relative_to_link_directory() {
    let plan = create_symlink("/r/plans/hippo/.plan/a.md", "/r/project/.plan/a.md").unwrap();
    assert_eq!(plan.link_path, "/r/project/.plan/a.md");
    assert_eq!(plan.target, "../../plans/hippo/.plan/a.md");
}

#[test]
fn symlink_without_parent_is_an_error() {
    match create_symlink("/t", "/") {
        Err(e @ LinkError::InvalidLinkPath { .. }) => assert_eq!(e.message(), "Invalid link path: /"),
        other => panic!("unexpected {:?}", other),
    }
}

#[test]
fn ignored_names() {
    assert!(is_ignored(".gitignore"));
    assert!(is_ignored(".hippocampus.toml"));
    assert!(is_ignored(".hidden"));
    assert!(!is_ignored("notes.md"));
    assert!(!is_ignored(""));
}

#[test]
fn sync_links_only_missing_visible_files() {
    let entries = vec![
        repo_file("a.md", true, false),
        repo_file(".gitignore", true, false),
        repo_file("b.md", true, true),
        repo_file("sub", false, false),
    ];
    let steps = sync_links("/p/.plan", "/r/.plan", &entries);
    let names: Vec<_> = steps.iter().map(|s| s.name.clone()).collect();
    assert_eq!(names, vec!["a.md", "sub"]);
    let plan = steps[0].plan.as_ref().unwrap();
    assert_eq!(plan.link_path, "/p/.plan/a.md");
    assert_eq!(plan.target, "../../r/.plan/a.md");
}

#[test]
fn prune_only_files_gone_from_project() {
    let entries = vec![
        repo_file("gone.md", true, false),
        repo_file("kept.md", true, true),
        repo_file(".hidden", true, false),
        repo_file("dir", false, false),
    ];
    assert_eq!(prune_deletions(&entries), vec!["gone.md"]);
}

#[test]
fn restore_steps() {
    let entries = vec![repo_file("a.md", true, true), repo_file(".x", true, false), repo_file("d", false, false)];
    let steps = restore_files("/p/.plan", "/r/.plan", &entries);
    assert_eq!(steps.len(), 2);
    assert_eq!(steps[0].src, "/r/.plan/a.md");
    assert_eq!(steps[0].dst, "/p/.plan/a.md");
    assert!(steps[0].remove_existing && steps[0].copy);
    assert_eq!(steps[1].name, "d");
    assert!(!steps[1].remove_existing && !steps[1].copy);
}

#[test]
fn absorb_candidates_from_list_or_listing() {
    let listing = vec![
        ProjectEntry { name: "a.md".into(), is_file: true },
        ProjectEntry { name: ".hippocampus.toml".into(), is_file: true },
        ProjectEntry { name: "link.md".into(), is_file: false },
    ];
    assert_eq!(absorb_candidates(None, &listing), vec!["a.md"]);
    let given = vec!["x".to_string(), ".y".to_string()];
    assert_eq!(absorb_candidates(Some(&given), &listing), given);
}

#[test]
fn absorb_step_per_state() {
    match absorb_step("/p/.plan", "/r/.plan", "a.md", SourceState::Missing) {
        AbsorbStep::Skip { message } => assert_eq!(message, "  skip: a.md (not found)"),
        other => panic!("unexpected {:?}", other),
    }
    assert!(matches!(absorb_step("/p/.plan", "/r/.plan", "a.md", SourceState::Symlink), AbsorbStep::AlreadyLinked));
    match absorb_step("/p/.plan", "/r/.plan", "a.md", SourceState::Present) {
        AbsorbStep::Move { src, dst, link } => {
            assert_eq!(src, "/p/.plan/a.md");
            assert_eq!(dst, "/r/.plan/a.md");
            let link = link.unwrap();
            assert_eq!(link.link_path, "/p/.plan/a.md");
            assert_eq!(link.target, "../../r/.plan/a.md");
        }
        other => panic!("unexpected {:?}", other),
    }
}

#[test]
fn relative_path_or_the_path_unchanged() {
    assert_eq!(or_unchanged(Some("../x".to_string()), "/a/x"), "../x");
    assert_eq!(or_unchanged(None, "/a/x"), "/a/x");
}

#[test]
fn second_sync_links_nothing() {
    let mut entries = vec![
        repo_file("a.md", true, false),
        repo_file("b.md", true, true),
        repo_file("sub", false, false),
        repo_file(".hidden", true, false),
    ];
    let first = sync_links("/p/.plan", "/r/.plan", &entries);
    assert_eq!(first.len(), 2);
    for step in &first {
        for e in entries.iter_mut() {
            if e.name == step.name {
                e.in_project = true;
            }
        }
    }
    assert!(sync_links("/p/.plan", "/r/.plan", &entries).is_empty());
}

#[test]
fn prune_and_link_pick_the_same_missing_files() {
    let entries = vec![
        repo_file("gone.md", true, false),
        repo_file("kept.md", true, true),
        repo_file(".gitignore", true, false),
    ];
    let pruned = prune_deletions(&entries);
    let linked: Vec<String> = sync_links("/p/.plan", "/r/.plan", &entries)
        .into_iter()
        .map(|s| s.name)
        .collect();
    assert_eq!(pruned, vec!["gone.md"]);
    assert_eq!(linked, pruned);
}

fn normalize_from(dir: &str, rel: &str) -> String {
    hippocampus::path::normalize_path(&hippocampus::path::join(dir, rel))
}

#[test]
fn synced_links_resolve_to_the_repo_files() {
    let entries = vec![repo_file("a.md", true, false)];
    let steps = sync_links("/w/project/.plan", "/w/plans/h/.plan", &entries);
    let plan = steps[0].plan.as_ref().unwrap();
    assert!(!plan.target.starts_with('/'));
    assert_eq!(normalize_from("/w/project/.plan", &plan.target), "/w/plans/h/.plan/a.md");
}

#[test]
fn absorbed_file_link_resolves_to_the_moved_file() {
    match absorb_step("/w/project/.plan", "/w/plans/h/.plan", "n.md", SourceState::Present) {
        AbsorbStep::Move { dst, link, .. } => {
            let plan = link.unwrap();
            assert!(!plan.target.starts_with('/'));
            assert_eq!(normalize_from("/w/project/.plan", &plan.target), dst);
        }
        other => panic!("unexpected {:?}", other),
    }
}

#[test]
fn second_absorb_moves_nothing() {
    let listing = vec![
        ProjectEntry { name: "a.md".to_string(), is_file: true },
        ProjectEntry { name: ".gitignore".to_string(), is_file: true },
    ];
    let first = absorb_candidates(None, &listing);
    assert_eq!(first, vec!["a.md"]);
    // The absorbed file is now a link, not a regular file.
    let after: Vec<ProjectEntry> = listing
        .iter()
        .map(|e| ProjectEntry { name: e.name.clone(), is_file: e.is_file && !first.contains(&e.name) })
        .collect();
    assert!(absorb_candidates(None, &after).is_empty());
}

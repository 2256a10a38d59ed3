use hippocampus::path::{ancestors, components_of, file_name, is_relative, join, normalize_path, parent, Component};
use std::path::{Component as StdComponent, Path, PathBuf};

/// The same resolution done with std's own path types: nothing is above the
/// root, so a `..` there is dropped.
fn normalize_with_std(path: &str) -> String {
    let mut parts: Vec<StdComponent> = Vec::new();
    for component in Path::new(path).components() {
        match component {
            StdComponent::CurDir => {}
            StdComponent::ParentDir => match parts.last() {
                Some(StdComponent::Normal(_)) => {
                    parts.pop();
                }
                Some(StdComponent::RootDir) => {}
                _ => parts.push(component),
            },
            c => parts.push(c),
        }
    }
    let p: PathBuf = parts.iter().collect();
    p.to_string_lossy().into_owned()
}

const SAMPLES: &[&str] = &[
    "", "/", ".", "..", "./", "a", "a/", "/a", "a/b", "a//b", "a/./b", "./a/b", "a/../b",
    "../a", "/..", "/../a", "a/b/../../..", "/x/.plan/../..repo", ".plan", "..repo", "a/.", "//a",
    "a/b/c/../../d", "./.", "././a", "x/../../y/./z/", "/tmp/root/.plan/../../plans/hippocampus",
];

#[test]
fn normalize_path_agrees_with_std_components() {
    for s in SAMPLES {
        assert_eq!(normalize_path(s), normalize_with_std(s), "input {:?}", s);
    }
}

#[test]
fn normalize_path_examples() {
    assert_eq!(normalize_path("/a/./b/../c"), "/a/c");
    assert_eq!(normalize_path("a/../../b"), "../b");
    assert_eq!(normalize_path("/.."), "/");
    assert_eq!(normalize_path("/p/../../x"), "/x");
    assert_eq!(normalize_path("../../x"), "../../x");
    assert_eq!(normalize_path("./a/"), "a");
    assert_eq!(normalize_path(""), "");
    assert_eq!(normalize_path("/"), "/");
    assert_eq!(normalize_path("/tmp/x/.plan/../..repo"), "/tmp/x/..repo");
}

#[test]
fn normalize_path_is_idempotent_on_samples() {
    for s in SAMPLES {
        let once = normalize_path(s);
        assert_eq!(normalize_path(&once), once, "input {:?}", s);
    }
}

#[test]
fn normalized_components_have_no_cur_and_parents_first() {
    for s in SAMPLES {
        let cs = components_of(&normalize_path(s));
        assert!(!cs.contains(&Component::CurDir), "input {:?}", s);
        let first_normal = cs.iter().position(|c| matches!(c, Component::Normal(_)));
        if let Some(i) = first_normal {
            assert!(!cs[i..].contains(&Component::ParentDir), "input {:?}", s);
        }
    }
}

#[test]
fn rooted_paths_keep_no_parent_component() {
    for s in SAMPLES {
        if s.starts_with('/') {
            let n = normalize_path(s);
            assert!(n.starts_with('/'), "input {:?}", s);
            assert!(!components_of(&n).contains(&Component::ParentDir), "input {:?}", s);
        }
    }
}

#[test]
fn components_agree_with_std() {
    for s in SAMPLES {
        let ours: Vec<String> = components_of(s)
            .into_iter()
            .map(|c| match c {
                Component::RootDir => "/".to_string(),
                Component::CurDir => ".".to_string(),
                Component::ParentDir => "..".to_string(),
                Component::Normal(n) => n,
            })
            .collect();
        let std: Vec<String> = Path::new(s)
            .components()
            .map(|c| c.as_os_str().to_string_lossy().into_owned())
            .collect();
        assert_eq!(ours, std, "input {:?}", s);
    }
}

#[test]
fn join_agrees_with_std() {
    let bases = ["", "a", "a/", "/", "/x/y"];
    let tails = ["", "b", "b/c", "/abs", "../d"];
    for b in bases {
        for t in tails {
            let expected = Path::new(b).join(t).to_string_lossy().into_owned();
            assert_eq!(join(b, t), expected, "join({:?}, {:?})", b, t);
        }
    }
}

#[test]
fn is_relative_agrees_with_std() {
    for s in SAMPLES {
        assert_eq!(is_relative(s), Path::new(s).is_relative(), "input {:?}", s);
    }
}

#[test]
fn file_name_agrees_with_std() {
    for s in SAMPLES {
        let expected = Path::new(s).file_name().map(|n| n.to_string_lossy().into_owned());
        assert_eq!(file_name(s), expected, "input {:?}", s);
    }
}

#[test]
fn parent_examples() {
    assert_eq!(parent("/a/b"), Some("/a".to_string()));
    assert_eq!(parent("/a"), Some("/".to_string()));
    assert_eq!(parent("/"), None);
    assert_eq!(parent(""), None);
    assert_eq!(parent("a"), Some("".to_string()));
    assert_eq!(parent("a/.."), Some("a".to_string()));
}

#[test]
fn ancestors_walk_up_to_the_root() {
    assert_eq!(ancestors("/a/b"), vec!["/a/b", "/a", "/"]);
    assert_eq!(ancestors("a/b"), vec!["a/b", "a", ""]);
    assert_eq!(ancestors("/"), vec!["/"]);
    assert_eq!(ancestors(""), vec![""]);
    let std: Vec<String> = Path::new("/x/y/../z").ancestors().map(|p| p.to_string_lossy().into_owned()).collect();
    assert_eq!(ancestors("/x/y/../z"), std);
}

//! The version-control side: which git commands are run, how their output is
//! read, and where the repository that holds a path begins.
use vstd::prelude::*;
use crate::path::{ancestors, ancestors_spec, is_relative, is_relative_spec, join, join_spec};
use crate::text::{concat2, join_strings, joined, owned, views};

verus! {

broadcast use vstd::seq_lib::group_seq_properties;

/// A git command to run: its arguments and the directory it runs in.
#[derive(Debug, Clone)]
pub struct GitCommand {
    pub args: Vec<String>,
    pub cwd: String,
}

/// The operations that a version-control backend offers, each given as the
/// command that carries it out.
pub trait Vcs {
    fn add(&self, repo_root: &str, path: &str) -> GitCommand;

    fn commit(&self, repo_root: &str, message: &str) -> GitCommand;

    fn push(&self, repo_root: &str) -> GitCommand;

    fn pull(&self, repo_root: &str) -> GitCommand;

    fn fetch(&self, repo_root: &str) -> GitCommand;

    fn status(&self, repo_root: &str) -> GitCommand;

    fn diff(&self, repo_root: &str) -> GitCommand;

    fn has_changes(&self, repo_root: &str, path: &str) -> GitCommand;
}

/// The git backend.
#[derive(Debug, Clone, Copy)]
pub struct Git;

fn one(a: &str) -> (res: Vec<String>)
    ensures
        views(res@) == seq![a@],
{
    let mut v = Vec::new();
    v.push(owned(a));
    assert(views(v@) =~= seq![a@]);
    v
}

fn two(a: &str, b: &str) -> (res: Vec<String>)
    ensures
        views(res@) == seq![a@, b@],
{
    let mut v = Vec::new();
    v.push(owned(a));
    v.push(owned(b));
    assert(views(v@) =~= seq![a@, b@]);
    v
}

fn three(a: &str, b: &str, c: &str) -> (res: Vec<String>)
    ensures
        views(res@) == seq![a@, b@, c@],
{
    let mut v = Vec::new();
    v.push(owned(a));
    v.push(owned(b));
    v.push(owned(c));
    assert(views(v@) =~= seq![a@, b@, c@]);
    v
}

impl Vcs for Git {
    /// `git add <path>`
    fn add(&self, repo_root: &str, path: &str) -> (res: GitCommand)
        ensures
            views(res.args@) == seq!["add"@, path@],
            res.cwd@ == repo_root@,
    {
        GitCommand { args: two("add", path), cwd: owned(repo_root) }
    }

    /// `git commit -m <message>`
    fn commit(&self, repo_root: &str, message: &str) -> (res: GitCommand)
        ensures
            views(res.args@) == seq!["commit"@, "-m"@, message@],
            res.cwd@ == repo_root@,
    {
        GitCommand { args: three("commit", "-m", message), cwd: owned(repo_root) }
    }

    /// `git push`
    fn push(&self, repo_root: &str) -> (res: GitCommand)
        ensures
            views(res.args@) == seq!["push"@],
            res.cwd@ == repo_root@,
    {
        GitCommand { args: one("push"), cwd: owned(repo_root) }
    }

    /// `git pull`
    fn pull(&self, repo_root: &str) -> (res: GitCommand)
        ensures
            views(res.args@) == seq!["pull"@],
            res.cwd@ == repo_root@,
    {
        GitCommand { args: one("pull"), cwd: owned(repo_root) }
    }

    /// `git fetch`
    fn fetch(&self, repo_root: &str) -> (res: GitCommand)
        ensures
            views(res.args@) == seq!["fetch"@],
            res.cwd@ == repo_root@,
    {
        GitCommand { args: one("fetch"), cwd: owned(repo_root) }
    }

    /// `git status --short`
    fn status(&self, repo_root: &str) -> (res: GitCommand)
        ensures
            views(res.args@) == seq!["status"@, "--short"@],
            res.cwd@ == repo_root@,
    {
        GitCommand { args: two("status", "--short"), cwd: owned(repo_root) }
    }

    /// `git diff`
    fn diff(&self, repo_root: &str) -> (res: GitCommand)
        ensures
            views(res.args@) == seq!["diff"@],
            res.cwd@ == repo_root@,
    {
        GitCommand { args: one("diff"), cwd: owned(repo_root) }
    }

    /// `git status --short <path>`: whose output says whether `path` has changes.
    fn has_changes(&self, repo_root: &str, path: &str) -> (res: GitCommand)
        ensures
            views(res.args@) == seq!["status"@, "--short"@, path@],
            res.cwd@ == repo_root@,
    {
        GitCommand { args: three("status", "--short", path), cwd: owned(repo_root) }
    }
}

/// Whether the (trimmed) output of `git status --short <path>` reports changes:
/// it does when it is not empty.
pub fn changes_reported(output: &str) -> (res: bool)
    ensures
        res == (output@.len() > 0),
{
    !output.is_empty()
}

/// The command as it is named in messages: `git` and its arguments.
pub open spec fn command_text(args: Seq<Seq<char>>) -> Seq<char> {
    "git "@ + joined(args, " "@)
}

impl GitCommand {
    /// `git` followed by the arguments, separated by spaces.
    pub fn describe(&self) -> (res: String)
        ensures
            res@ == command_text(views(self.args@)),
    {
        let a = join_strings(&self.args, " ");
        concat2("git ", a.as_str())
    }

    /// The message when the command could not be started.
    pub fn launch_failure(&self) -> (res: String)
        ensures
            res@ == "Failed to run "@ + command_text(views(self.args@)),
    {
        let d = self.describe();
        concat2("Failed to run ", d.as_str())
    }

    /// The message when the command ran and failed, given its trimmed error output.
    pub fn run_failure(&self, stderr: &str) -> (res: String)
        ensures
            res@ == command_text(views(self.args@)) + " failed: "@ + stderr@,
    {
        let mut m = self.describe();
        m.append(" failed: ");
        m.append(stderr);
        m
    }
}

/// Where the search for a repository begins: `repo_path`, read from `cwd`
/// when it is relative.
pub open spec fn search_start(repo_path: Seq<char>, cwd: Seq<char>) -> Seq<char> {
    if is_relative_spec(repo_path) {
        join_spec(cwd, repo_path)
    } else {
        repo_path
    }
}

/// The directories to look for a `.git` in, nearest first, for `repo_path`.
pub fn vcs_search_dirs(repo_path: &str, cwd: &str) -> (res: Vec<String>)
    ensures
        views(res@) == ancestors_spec(search_start(repo_path@, cwd@)),
{
    let start = if is_relative(repo_path) {
        join(cwd, repo_path)
    } else {
        owned(repo_path)
    };
    ancestors(start.as_str())
}

/// The marker whose presence makes a directory a repository root.
pub fn git_marker(dir: &str) -> (res: String)
    ensures
        res@ == join_spec(dir@, ".git"@),
{
    join(dir, ".git")
}

/// The index of the first `true`, if there is one.
pub open spec fn first_marked(marks: Seq<bool>) -> Option<int>
    decreases marks.len(),
{
    if marks.len() == 0 {
        None
    } else if marks[0] {
        Some(0)
    } else {
        match first_marked(marks.skip(1)) {
            Some(i) => Some(i + 1),
            None => None,
        }
    }
}

proof fn lemma_first_marked(marks: Seq<bool>, i: int)
    requires
        0 <= i <= marks.len(),
        forall|j: int| 0 <= j < i ==> !marks[j],
    ensures
        first_marked(marks) == match first_marked(marks.skip(i)) {
            Some(k) => Some(k + i),
            None => None::<int>,
        },
    decreases i,
{
    if i == 0 {
        assert(marks.skip(0) =~= marks);
        match first_marked(marks) {
            Some(k) => {},
            None => {},
        }
    } else {
        lemma_first_marked(marks, i - 1);
        assert(marks.skip(i - 1).skip(1) =~= marks.skip(i));
        assert(marks.skip(i - 1)[0] == marks[i - 1]);
    }
}

fn find_marked(marks: &Vec<bool>) -> (res: Option<usize>)
    ensures
        match res {
            Some(i) => i < marks@.len() && first_marked(marks@) == Some(i as int),
            None => first_marked(marks@) is None,
        },
{
    let n = marks.len();
    for i in 0..n
        invariant
            n == marks@.len(),
            forall|j: int| 0 <= j < i ==> !marks@[j],
    {
        if marks[i] {
            proof {
                lemma_first_marked(marks@, i as int);
                assert(marks@.skip(i as int)[0]);
            }
            return Some(i);
        }
    }
    proof {
        lemma_first_marked(marks@, n as int);
        assert(marks@.skip(n as int).len() == 0);
    }
    None
}

/// No repository was found: above a repo path, or above the current directory.
#[derive(Debug, Clone)]
pub enum VcsError {
    NoRepository { repo_path: String },
    NoProjectRoot,
}

impl VcsError {
    /// The message that the error is reported with.
    pub fn message(&self) -> (res: String)
        ensures
            match *self {
                VcsError::NoRepository { repo_path } => res@
                    == "Repo side: no git repository found at "@ + repo_path@,
                VcsError::NoProjectRoot => res@
                    == "No git repository found. Run from within a git project."@,
            },
    {
        match self {
            VcsError::NoRepository { repo_path } => concat2(
                "Repo side: no git repository found at ",
                repo_path.as_str(),
            ),
            VcsError::NoProjectRoot => owned("No git repository found. Run from within a git project."),
        }
    }
}

/// Detect VCS by walking up the file system. Returns the backend and the
/// repository root: the nearest of `vcs_search_dirs(repo_path, cwd)` whose
/// `.git` exists. `has_git[i]` tells whether the `i`-th of those has one.
pub fn detect_vcs(repo_path: &str, cwd: &str, has_git: &Vec<bool>) -> (res: Result<
    (Git, String),
    VcsError,
>)
    requires
        has_git@.len() == ancestors_spec(search_start(repo_path@, cwd@)).len(),
    ensures
        match first_marked(has_git@) {
            Some(i) => res matches Ok((_, root)) && root@ == ancestors_spec(
                search_start(repo_path@, cwd@),
            )[i],
            None => res matches Err(VcsError::NoRepository { repo_path: p }) && p@ == repo_path@,
        },
{
    let dirs = vcs_search_dirs(repo_path, cwd);
    match find_marked(has_git) {
        Some(i) => {
            assert(views(dirs@).len() == dirs@.len());
            assert(views(dirs@)[i as int] == dirs@[i as int]@);
            Ok((Git, dirs[i].clone()))
        },
        None => Err(VcsError::NoRepository { repo_path: owned(repo_path) }),
    }
}

/// Find the project root by walking up from `cwd` looking for `.git`:
/// `has_git[i]` tells whether the `i`-th of `ancestors(cwd)` has one.
pub fn find_project_root(cwd: &str, has_git: &Vec<bool>) -> (res: Result<String, VcsError>)
    requires
        has_git@.len() == ancestors_spec(cwd@).len(),
    ensures
        match first_marked(has_git@) {
            Some(i) => res matches Ok(root) && root@ == ancestors_spec(cwd@)[i],
            None => res matches Err(VcsError::NoProjectRoot),
        },
{
    let dirs = ancestors(cwd);
    match find_marked(has_git) {
        Some(i) => {
            assert(views(dirs@).len() == dirs@.len());
            assert(views(dirs@)[i as int] == dirs@[i as int]@);
            Ok(dirs[i].clone())
        },
        None => Err(VcsError::NoProjectRoot),
    }
}

} // verus!

//! The `init` command as a state machine: each dotdir is set up on both
//! sides, its files are absorbed into the repo and linked back, and the repo
//! is committed and pushed when that changed it.
use vstd::prelude::*;
use crate::cli::{
    init_message, init_summary, init_summary_spec, project_name, project_name_spec,
    repo_for_config, repo_for_config_spec, report_line, resolve_from, resolve_from_spec,
};
use crate::config::{config_path_spec, config_text, create_dotdir_config, repo_project_spec, FileWrite};
use crate::linker::{leads_back, walkable};
use crate::path::{ancestors_spec, file_name, file_name_spec, is_relative_spec, join, join_spec, normalized};
use crate::text::{concat2, join_strings, joined, owned, views};
use crate::vcs::{changes_reported, detect_vcs, first_marked, search_start, Git, Vcs};

verus! {

broadcast use vstd::seq_lib::group_seq_properties;

/// Where an initialization stands.
#[derive(Debug, Clone, Copy, PartialEq, Eq, Structural)]
pub enum InitStage {
    Start,
    AwaitCwd,
    AwaitRoot,
    AwaitRepoDotdirs,
    AwaitEmptyPrinted,
    AwaitSetUp,
    AwaitAbsorbed,
    AwaitAbsorbedPrinted,
    AwaitLinked,
    AwaitSummaryPrinted,
    AwaitRepo,
    AwaitChanges,
    AwaitProjectRoot,
    AwaitAdd,
    AwaitCommit,
    AwaitPush,
    AwaitDonePrinted,
    Finished,
}

/// What the outside reports back.
#[derive(Debug)]
pub enum InitEvent {
    /// The run starts, or the last action was done.
    Next,
    /// The current directory.
    Cwd(String),
    /// The project root found above the current directory, if any.
    Root(Option<String>),
    /// The dotdirs found on the repo side.
    Dotdirs(Vec<String>),
    /// The files that were absorbed, or linked, in order.
    Names(Vec<String>),
    /// Which of `vcs_search_dirs(repo_abs, cwd)` hold a `.git`.
    RepoProbe { has_git: Vec<bool> },
    /// The trimmed standard output of a git command that succeeded.
    Output(String),
    /// The last action failed, with this message.
    Failed(String),
}

/// What the outside is to do next.
#[derive(Debug)]
pub enum InitAction {
    CurrentDir,
    FindProjectRoot,
    /// List the dotdirs on the repo side (none when it does not exist).
    DiscoverRepoDotdirs { repo_abs: String },
    /// Create both directories, give the dotdir its `.gitignore` (see
    /// `ensure_dotdir_gitignore`), and write its configuration.
    SetUpDotdir { repo_dotdir: String, dotdir_path: String, config: FileWrite },
    /// Move the dotdir's real files into the repo side.
    Absorb { dotdir_path: String, repo_dotdir: String },
    /// Link the repo side's files into the dotdir.
    Link { dotdir_path: String, repo_dotdir: String },
    /// Look for `.git` above `repo_abs`.
    ProbeRepo { repo_abs: String },
    RunGit(crate::vcs::GitCommand),
    Print(String),
    Finish(Result<(), String>),
}

/// A run of `init`.
pub struct InitSession {
    pub dotdir: Option<String>,
    pub repo: String,
    pub root_arg: String,
    pub stage: InitStage,
    pub cwd: String,
    pub root: String,
    pub repo_abs: String,
    pub dotdirs: Vec<String>,
    pub index: usize,
    pub absorbed: Vec<String>,
    pub repo_root: String,
    pub subdir: String,
    pub message: String,
}

/// The event is of the kind that the stage awaits.
pub open spec fn init_awaits(stage: InitStage, e: InitEvent) -> bool {
    e is Failed || match stage {
        InitStage::Start | InitStage::AwaitEmptyPrinted | InitStage::AwaitSetUp
        | InitStage::AwaitAbsorbedPrinted | InitStage::AwaitSummaryPrinted
        | InitStage::AwaitDonePrinted => e is Next,
        InitStage::AwaitCwd => e is Cwd,
        InitStage::AwaitRoot | InitStage::AwaitProjectRoot => e is Root,
        InitStage::AwaitRepoDotdirs => e is Dotdirs,
        InitStage::AwaitAbsorbed | InitStage::AwaitLinked => e is Names,
        InitStage::AwaitRepo => e is RepoProbe,
        InitStage::AwaitChanges | InitStage::AwaitAdd | InitStage::AwaitCommit
        | InitStage::AwaitPush => e is Output,
        InitStage::Finished => false,
    }
}

/// The run is setting up its dotdirs, or done with them.
pub open spec fn setting_up(s: InitSession) -> bool {
    (s.stage == InitStage::AwaitSetUp || s.stage == InitStage::AwaitAbsorbed || s.stage
        == InitStage::AwaitAbsorbedPrinted || s.stage == InitStage::AwaitLinked || s.stage
        == InitStage::AwaitSummaryPrinted) ==> s.index < s.dotdirs@.len()
}

/// The action ends the run with the error `m`.
pub open spec fn init_fails(a: InitAction, m: Seq<char>) -> bool {
    a matches InitAction::Finish(Err(x)) && x@ == m
}

/// The dotdir being set up.
pub open spec fn current(s: InitSession) -> Seq<char> {
    s.dotdirs@[s.index as int]@
}

/// The action sets up the dotdir at `i` in `t`.
pub open spec fn sets_up(t: InitSession, i: int, a: InitAction) -> bool {
    let dd = t.dotdirs@[i]@;
    let dotdir_path = join_spec(t.root@, dd);
    &&& t.stage == InitStage::AwaitSetUp
    &&& t.index == i
    &&& a matches InitAction::SetUpDotdir { repo_dotdir, dotdir_path: dp, config }
    &&& repo_dotdir@ == join_spec(t.repo_abs@, dd)
    &&& dp@ == dotdir_path
    &&& config.path@ == config_path_spec(dotdir_path)
    &&& config.content@ == config_text(repo_for_config_spec(t.repo@, t.repo_abs@, dotdir_path))
    &&& is_relative_spec(t.repo@) && leads_back(t.repo_abs@, dotdir_path) ==> repo_project_spec(
        repo_for_config_spec(t.repo@, t.repo_abs@, dotdir_path),
        dotdir_path,
    ) == normalized(t.repo_abs@)
    &&& is_relative_spec(t.repo@) && walkable(t.repo_abs@, dotdir_path) ==> is_relative_spec(
        repo_for_config_spec(t.repo@, t.repo_abs@, dotdir_path),
    )
}

/// The action links the repo side of the current dotdir into it.
pub open spec fn links(s: InitSession, a: InitAction) -> bool {
    a matches InitAction::Link { dotdir_path, repo_dotdir } && dotdir_path@ == join_spec(
        s.root@,
        current(s),
    ) && repo_dotdir@ == join_spec(s.repo_abs@, current(s))
}

/// The lines reporting the files absorbed into the repo for `dotdir`.
pub open spec fn absorbed_lines(dotdir: Seq<char>, names: Seq<Seq<char>>) -> Seq<char> {
    joined(names.map_values(|f: Seq<char>| "  absorbed: "@ + dotdir + "/"@ + f), "\n"@)
}

/// The action runs git with `args` in `cwd`.
pub open spec fn init_runs_git(a: InitAction, args: Seq<Seq<char>>, cwd: Seq<char>) -> bool {
    a matches InitAction::RunGit(c) && views(c.args@) == args && c.cwd@ == cwd
}

impl InitSession {
    /// A run of `init` with its arguments: the dotdir (or all on the repo
    /// side), the repo project path, and the project root (empty: find it).
    pub fn new(dotdir: Option<String>, repo: String, root_arg: String) -> (res: Self)
        ensures
            res.stage == InitStage::Start,
            res.dotdir == dotdir,
            res.repo == repo,
            res.root_arg == root_arg,
    {
        InitSession {
            dotdir,
            repo,
            root_arg,
            stage: InitStage::Start,
            cwd: String::new(),
            root: String::new(),
            repo_abs: String::new(),
            dotdirs: Vec::new(),
            index: 0,
            absorbed: Vec::new(),
            repo_root: String::new(),
            subdir: String::new(),
            message: String::new(),
        }
    }

    fn set_up(&mut self, i: usize) -> (res: InitAction)
        requires
            i < old(self).dotdirs@.len(),
        ensures
            sets_up(*final(self), i as int, res),
            final(self).dotdirs == old(self).dotdirs,
            final(self).root == old(self).root,
            final(self).repo == old(self).repo,
            final(self).repo_abs == old(self).repo_abs,
            final(self).cwd == old(self).cwd,
            final(self).dotdir == old(self).dotdir,
            final(self).root_arg == old(self).root_arg,
    {
        self.index = i;
        self.stage = InitStage::AwaitSetUp;
        let dd = self.dotdirs[i].as_str();
        let dotdir_path = join(self.root.as_str(), dd);
        let repo_dotdir = join(self.repo_abs.as_str(), dd);
        let value = repo_for_config(self.repo.as_str(), self.repo_abs.as_str(), dotdir_path.as_str());
        let config = create_dotdir_config(dotdir_path.as_str(), value.as_str());
        InitAction::SetUpDotdir { repo_dotdir, dotdir_path, config }
    }

    fn choose_dotdirs(&mut self) -> (res: InitAction)
        ensures
            chooses(*old(self), *final(self), res),
            final(self).dotdir == old(self).dotdir,
            final(self).repo == old(self).repo,
            final(self).root_arg == old(self).root_arg,
    {
        match &self.dotdir {
            Some(d) => {
                let mut v = Vec::new();
                v.push(d.clone());
                self.dotdirs = v;
                assert(self.dotdirs@ =~= seq![self.dotdir->0]);
                self.set_up(0)
            },
            None => {
                self.stage = InitStage::AwaitRepoDotdirs;
                InitAction::DiscoverRepoDotdirs { repo_abs: self.repo_abs.clone() }
            },
        }
    }

    /// Takes the outcome of the last action and gives the next action.
    pub fn step(&mut self, event: InitEvent) -> (res: InitAction)
        requires
            init_awaits(old(self).stage, event),
            setting_up(*old(self)),
            old(self).stage == InitStage::AwaitRepo ==> (event matches InitEvent::RepoProbe {
                has_git,
            } ==> has_git@.len() == ancestors_spec(search_start(old(self).repo_abs@, old(self).cwd@)).len()),
            old(self).stage == InitStage::AwaitLinked ==> (event matches InitEvent::Names(l)
                ==> old(self).absorbed@.len() + l@.len() <= usize::MAX),
        ensures
            setting_up(*final(self)),
            final(self).dotdir == old(self).dotdir,
            final(self).repo == old(self).repo,
            final(self).root_arg == old(self).root_arg,
            match event {
                InitEvent::Failed(m) => final(self).stage == InitStage::Finished && init_fails(res, m@),
                _ => init_step_ok(*old(self), event, *final(self), res),
            },
    {
        if let InitEvent::Failed(m) = event {
            self.stage = InitStage::Finished;
            return InitAction::Finish(Err(m));
        }
        match self.stage {
            InitStage::Start => {
                self.stage = InitStage::AwaitCwd;
                InitAction::CurrentDir
            },
            InitStage::AwaitCwd => {
                let cwd = match event {
                    InitEvent::Cwd(c) => c,
                    _ => String::new(),
                };
                self.repo_abs = resolve_from(cwd.as_str(), self.repo.as_str());
                self.cwd = cwd;
                if self.root_arg.as_str().is_empty() {
                    self.stage = InitStage::AwaitRoot;
                    InitAction::FindProjectRoot
                } else {
                    self.root = resolve_from(self.cwd.as_str(), self.root_arg.as_str());
                    self.choose_dotdirs()
                }
            },
            InitStage::AwaitRoot => {
                let found = match event {
                    InitEvent::Root(r) => r,
                    _ => None,
                };
                match found {
                    None => {
                        self.stage = InitStage::Finished;
                        InitAction::Finish(
                            Err(
                                owned(
                                    "Could not find project root (.git). Use --root to specify explicitly.",
                                ),
                            ),
                        )
                    },
                    Some(r) => {
                        self.root = r;
                        self.choose_dotdirs()
                    },
                }
            },
            InitStage::AwaitRepoDotdirs => {
                let v = match event {
                    InitEvent::Dotdirs(v) => v,
                    _ => Vec::new(),
                };
                if v.len() == 0 {
                    self.stage = InitStage::AwaitEmptyPrinted;
                    InitAction::Print(
                        owned(
                            "No dotdirs found in repo. Use 'tt init <dotdir> -r <path>' to create one.",
                        ),
                    )
                } else {
                    self.dotdirs = v;
                    self.set_up(0)
                }
            },
            InitStage::AwaitEmptyPrinted | InitStage::AwaitDonePrinted => {
                self.stage = InitStage::Finished;
                InitAction::Finish(Ok(()))
            },
            InitStage::AwaitSetUp => {
                self.stage = InitStage::AwaitAbsorbed;
                let dd = self.dotdirs[self.index].as_str();
                InitAction::Absorb {
                    dotdir_path: join(self.root.as_str(), dd),
                    repo_dotdir: join(self.repo_abs.as_str(), dd),
                }
            },
            InitStage::AwaitAbsorbed => {
                let names = match event {
                    InitEvent::Names(v) => v,
                    _ => Vec::new(),
                };
                self.absorbed = names;
                if self.absorbed.len() == 0 {
                    self.stage = InitStage::AwaitLinked;
                    self.link()
                } else {
                    let dd = self.dotdirs[self.index].as_str();
                    let mut lines: Vec<String> = Vec::new();
                    let n = self.absorbed.len();
                    let ghost f = |x: Seq<char>| "  absorbed: "@ + dd@ + "/"@ + x;
                    proof {
                        reveal_strlit("  ");
                        reveal_strlit("absorbed");
                        reveal_strlit(": ");
                        reveal_strlit("  absorbed: ");
                        assert("  "@ + "absorbed"@ + ": "@ =~= "  absorbed: "@);
                    }
                    for k in 0..n
                        invariant
                            n == self.absorbed@.len(),
                            f == (|x: Seq<char>| "  absorbed: "@ + dd@ + "/"@ + x),
                            "  "@ + "absorbed"@ + ": "@ == "  absorbed: "@,
                            views(lines@) == views(self.absorbed@).take(k as int).map_values(f),
                    {
                        let ghost before = views(lines@);
                        let line = report_line("absorbed", dd, self.absorbed[k].as_str());
                        lines.push(line);
                        proof {
                            let av = views(self.absorbed@);
                            assert(av.take(k + 1) =~= av.take(k as int).push(av[k as int]));
                            assert(line@ =~= f(av[k as int]));
                            av.take(k as int).lemma_push_map_commute(f, av[k as int]);
                            assert(views(lines@) =~= before.push(line@));
                        }
                    }
                    assert(views(self.absorbed@).take(n as int) =~= views(self.absorbed@));
                    self.stage = InitStage::AwaitAbsorbedPrinted;
                    InitAction::Print(join_strings(&lines, "\n"))
                }
            },
            InitStage::AwaitAbsorbedPrinted => {
                self.stage = InitStage::AwaitLinked;
                self.link()
            },
            InitStage::AwaitLinked => {
                let linked = match event {
                    InitEvent::Names(v) => v,
                    _ => Vec::new(),
                };
                let line = init_summary(self.dotdirs[self.index].as_str(), &self.absorbed, &linked);
                self.stage = InitStage::AwaitSummaryPrinted;
                InitAction::Print(line)
            },
            InitStage::AwaitSummaryPrinted => {
                if self.index < self.dotdirs.len() - 1 {
                    let i = self.index + 1;
                    self.set_up(i)
                } else {
                    self.stage = InitStage::AwaitRepo;
                    InitAction::ProbeRepo { repo_abs: self.repo_abs.clone() }
                }
            },
            InitStage::AwaitRepo => {
                let has_git = match event {
                    InitEvent::RepoProbe { has_git } => has_git,
                    _ => Vec::new(),
                };
                match detect_vcs(self.repo_abs.as_str(), self.cwd.as_str(), &has_git) {
                    Err(e) => {
                        self.stage = InitStage::Finished;
                        InitAction::Finish(Err(e.message()))
                    },
                    Ok((_, root)) => {
                        self.repo_root = root;
                        match file_name(self.repo_abs.as_str()) {
                            None => {
                                self.stage = InitStage::Finished;
                                InitAction::Finish(Err(owned("repo path has no file name component")))
                            },
                            Some(sub) => {
                                self.subdir = sub;
                                self.stage = InitStage::AwaitChanges;
                                InitAction::RunGit(
                                    Git.has_changes(self.repo_root.as_str(), self.subdir.as_str()),
                                )
                            },
                        }
                    },
                }
            },
            InitStage::AwaitChanges => {
                let out = match event {
                    InitEvent::Output(o) => o,
                    _ => String::new(),
                };
                if changes_reported(out.as_str()) {
                    self.stage = InitStage::AwaitProjectRoot;
                    InitAction::FindProjectRoot
                } else {
                    self.stage = InitStage::Finished;
                    InitAction::Finish(Ok(()))
                }
            },
            InitStage::AwaitProjectRoot => {
                let found = match event {
                    InitEvent::Root(r) => r,
                    _ => None,
                };
                let project = match &found {
                    Some(r) => project_name(Some(r.as_str())),
                    None => project_name(None),
                };
                self.message = init_message(project.as_str(), &self.dotdirs);
                self.stage = InitStage::AwaitAdd;
                InitAction::RunGit(Git.add(self.repo_root.as_str(), self.subdir.as_str()))
            },
            InitStage::AwaitAdd => {
                self.stage = InitStage::AwaitCommit;
                InitAction::RunGit(Git.commit(self.repo_root.as_str(), self.message.as_str()))
            },
            InitStage::AwaitCommit => {
                self.stage = InitStage::AwaitPush;
                InitAction::RunGit(Git.push(self.repo_root.as_str()))
            },
            InitStage::AwaitPush => {
                self.stage = InitStage::AwaitDonePrinted;
                InitAction::Print(concat2("Committed and pushed: ", self.message.as_str()))
            },
            InitStage::Finished => InitAction::Finish(Ok(())),
        }
    }

    fn link(&self) -> (res: InitAction)
        requires
            self.index < self.dotdirs@.len(),
        ensures
            links(*self, res),
    {
        let dd = self.dotdirs[self.index].as_str();
        InitAction::Link {
            dotdir_path: join(self.root.as_str(), dd),
            repo_dotdir: join(self.repo_abs.as_str(), dd),
        }
    }
}

/// How the run picks its dotdirs once the root is known: the one named is
/// set up at once; otherwise the repo side is listed.
pub open spec fn chooses(s: InitSession, t: InitSession, a: InitAction) -> bool {
    &&& t.root == s.root
    &&& t.repo_abs == s.repo_abs
    &&& t.cwd == s.cwd
    &&& match s.dotdir {
        Some(d) => t.dotdirs@ == seq![d] && sets_up(t, 0, a),
        None => t.stage == InitStage::AwaitRepoDotdirs && (a matches InitAction::DiscoverRepoDotdirs {
            repo_abs,
        } && repo_abs == s.repo_abs),
    }
}

/// What a step that is not a failure does.
pub open spec fn init_step_ok(s: InitSession, e: InitEvent, t: InitSession, a: InitAction) -> bool {
    let same = t.root == s.root && t.repo_abs == s.repo_abs && t.cwd == s.cwd && t.dotdirs
        == s.dotdirs;
    match s.stage {
        InitStage::Start => t.stage == InitStage::AwaitCwd && a is CurrentDir,
        InitStage::AwaitCwd => match e {
            InitEvent::Cwd(c) => {
                let u = InitSession { cwd: c, repo_abs: t.repo_abs, root: t.root, ..s };
                &&& t.cwd == c
                &&& t.repo_abs@ == resolve_from_spec(c@, s.repo@)
                &&& if s.root_arg@.len() == 0 {
                    t.stage == InitStage::AwaitRoot && a is FindProjectRoot
                } else {
                    t.root@ == resolve_from_spec(c@, s.root_arg@) && chooses(u, t, a)
                }
            },
            _ => false,
        },
        InitStage::AwaitRoot => match e {
            InitEvent::Root(Some(r)) => t.root == r && chooses(
                InitSession { root: r, ..s },
                t,
                a,
            ),
            _ => t.stage == InitStage::Finished && init_fails(
                a,
                "Could not find project root (.git). Use --root to specify explicitly."@,
            ),
        },
        InitStage::AwaitRepoDotdirs => match e {
            InitEvent::Dotdirs(v) => if v@.len() == 0 {
                t.stage == InitStage::AwaitEmptyPrinted && (a matches InitAction::Print(l) && l@
                    == "No dotdirs found in repo. Use 'tt init <dotdir> -r <path>' to create one."@)
            } else {
                t.root == s.root && t.repo_abs == s.repo_abs && t.cwd == s.cwd && t.dotdirs == v
                    && sets_up(t, 0, a)
            },
            _ => false,
        },
        InitStage::AwaitEmptyPrinted | InitStage::AwaitDonePrinted => t.stage == InitStage::Finished
            && (a matches InitAction::Finish(Ok(()))),
        InitStage::AwaitSetUp => same && t.index == s.index && t.stage == InitStage::AwaitAbsorbed
            && (a matches InitAction::Absorb { dotdir_path, repo_dotdir } && dotdir_path@
            == join_spec(s.root@, current(s)) && repo_dotdir@ == join_spec(s.repo_abs@, current(s))),
        InitStage::AwaitAbsorbed => match e {
            InitEvent::Names(v) => same && t.index == s.index && t.absorbed == v && if v@.len()
                == 0 {
                t.stage == InitStage::AwaitLinked && links(s, a)
            } else {
                t.stage == InitStage::AwaitAbsorbedPrinted && (a matches InitAction::Print(l) && l@
                    == absorbed_lines(current(s), views(v@)))
            },
            _ => false,
        },
        InitStage::AwaitAbsorbedPrinted => same && t.index == s.index && t.absorbed == s.absorbed
            && t.stage == InitStage::AwaitLinked && links(s, a),
        InitStage::AwaitLinked => match e {
            InitEvent::Names(l) => same && t.index == s.index && t.stage
                == InitStage::AwaitSummaryPrinted && (a matches InitAction::Print(p) && p@
                == init_summary_spec(current(s), views(s.absorbed@), views(l@))),
            _ => false,
        },
        InitStage::AwaitSummaryPrinted => if s.index + 1 < s.dotdirs@.len() {
            same && sets_up(t, s.index + 1, a)
        } else {
            same && t.stage == InitStage::AwaitRepo && (a matches InitAction::ProbeRepo { repo_abs }
                && repo_abs == s.repo_abs)
        },
        InitStage::AwaitRepo => match e {
            InitEvent::RepoProbe { has_git } => match first_marked(has_git@) {
                None => t.stage == InitStage::Finished && init_fails(
                    a,
                    "Repo side: no git repository found at "@ + s.repo_abs@,
                ),
                Some(i) => {
                    let root = ancestors_spec(search_start(s.repo_abs@, s.cwd@))[i];
                    match file_name_spec(s.repo_abs@) {
                        None => t.stage == InitStage::Finished && init_fails(
                            a,
                            "repo path has no file name component"@,
                        ),
                        Some(sub) => same && t.stage == InitStage::AwaitChanges && t.repo_root@
                            == root && t.subdir@ == sub && init_runs_git(
                            a,
                            seq!["status"@, "--short"@, sub],
                            root,
                        ),
                    }
                },
            },
            _ => false,
        },
        InitStage::AwaitChanges => match e {
            InitEvent::Output(o) => if o@.len() > 0 {
                same && t.repo_root == s.repo_root && t.subdir == s.subdir && t.stage
                    == InitStage::AwaitProjectRoot && a is FindProjectRoot
            } else {
                t.stage == InitStage::Finished && (a matches InitAction::Finish(Ok(())))
            },
            _ => false,
        },
        InitStage::AwaitProjectRoot => match e {
            InitEvent::Root(r) => {
                let msg = "init "@ + project_name_spec(
                    match r {
                        Some(x) => Some(x@),
                        None => None,
                    },
                ) + " "@ + joined(views(s.dotdirs@), " "@);
                same && t.repo_root == s.repo_root && t.subdir == s.subdir && t.message@ == msg
                    && t.stage == InitStage::AwaitAdd && init_runs_git(
                    a,
                    seq!["add"@, s.subdir@],
                    s.repo_root@,
                )
            },
            _ => false,
        },
        InitStage::AwaitAdd => same && t.repo_root == s.repo_root && t.message == s.message
            && t.stage == InitStage::AwaitCommit && init_runs_git(
            a,
            seq!["commit"@, "-m"@, s.message@],
            s.repo_root@,
        ),
        InitStage::AwaitCommit => same && t.repo_root == s.repo_root && t.message == s.message
            && t.stage == InitStage::AwaitPush && init_runs_git(a, seq!["push"@], s.repo_root@),
        InitStage::AwaitPush => t.stage == InitStage::AwaitDonePrinted && (a matches InitAction::Print(
            l,
        ) && l@ == "Committed and pushed: "@ + s.message@),
        InitStage::Finished => false,
    }
}

/// `init` sets up each dotdir, then moves its real files into the repo, then
/// links the repo files into it, in that order; and it stages, commits and
/// pushes, one after the other, only after git reported changes under the repo
/// project.
pub proof fn lemma_init_order(s: InitSession, e: InitEvent, t: InitSession, a: InitAction)
    requires
        init_step_ok(s, e, t, a),
    ensures
        a is Absorb ==> s.stage == InitStage::AwaitSetUp,
        a is Link ==> s.stage == InitStage::AwaitAbsorbed || s.stage
            == InitStage::AwaitAbsorbedPrinted,
        t.stage == InitStage::AwaitProjectRoot ==> s.stage == InitStage::AwaitChanges && (
        e matches InitEvent::Output(o) && o@.len() > 0),
        t.stage == InitStage::AwaitAdd ==> s.stage == InitStage::AwaitProjectRoot,
        t.stage == InitStage::AwaitCommit ==> s.stage == InitStage::AwaitAdd,
        t.stage == InitStage::AwaitPush ==> s.stage == InitStage::AwaitCommit,
{
}

/// `init` sets up every dotdir of its list, in order: after the summary of
/// the dotdir at `i`, the next action sets up the dotdir at `i + 1` (its
/// directories, under the project root and the repo side, and its
/// configuration); the repo is probed only after the last one.
pub proof fn lemma_init_sets_up_every_dotdir(s: InitSession, e: InitEvent, t: InitSession, a: InitAction)
    requires
        s.stage == InitStage::AwaitSummaryPrinted,
        init_step_ok(s, e, t, a),
    ensures
        s.index + 1 < s.dotdirs@.len() ==> t.index == s.index + 1 && t.dotdirs == s.dotdirs && (
        a matches InitAction::SetUpDotdir { dotdir_path, repo_dotdir, config } && dotdir_path@
            == join_spec(s.root@, s.dotdirs@[s.index + 1]@) && repo_dotdir@ == join_spec(
            s.repo_abs@,
            s.dotdirs@[s.index + 1]@,
        ) && config.path@ == config_path_spec(join_spec(s.root@, s.dotdirs@[s.index + 1]@))),
        s.index + 1 >= s.dotdirs@.len() ==> (a matches InitAction::ProbeRepo { repo_abs }
            && repo_abs == s.repo_abs),
{
}

/// `init` starts on the first dotdir of a non-empty list found on the repo
/// side, and handles each dotdir in turn: after setting it up, its real files
/// are absorbed into the repo side; then the repo files are linked into it;
/// then its summary is printed, all for the same dotdir.
pub proof fn lemma_init_handles_each_dotdir(s: InitSession, e: InitEvent, t: InitSession, a: InitAction)
    requires
        init_step_ok(s, e, t, a),
    ensures
        s.stage == InitStage::AwaitRepoDotdirs ==> (e matches InitEvent::Dotdirs(v) ==> (v@.len() > 0
            ==> t.index == 0 && t.dotdirs == v && (a matches InitAction::SetUpDotdir {
            dotdir_path,
            ..
        } && dotdir_path@ == join_spec(s.root@, v@[0]@)))),
        s.stage == InitStage::AwaitSetUp ==> t.index == s.index && t.dotdirs == s.dotdirs && (
        a matches InitAction::Absorb { dotdir_path, repo_dotdir } && dotdir_path@ == join_spec(
            s.root@,
            s.dotdirs@[s.index as int]@,
        ) && repo_dotdir@ == join_spec(s.repo_abs@, s.dotdirs@[s.index as int]@)),
        s.stage == InitStage::AwaitAbsorbedPrinted || (s.stage == InitStage::AwaitAbsorbed && (
        e matches InitEvent::Names(v) && v@.len() == 0)) ==> t.index == s.index && (
        a matches InitAction::Link { dotdir_path, repo_dotdir } && dotdir_path@ == join_spec(
            s.root@,
            s.dotdirs@[s.index as int]@,
        ) && repo_dotdir@ == join_spec(s.repo_abs@, s.dotdirs@[s.index as int]@)),
        s.stage == InitStage::AwaitLinked ==> t.index == s.index && t.stage
            == InitStage::AwaitSummaryPrinted && (a matches InitAction::Print(l) && (
        e matches InitEvent::Names(v) && l@ == init_summary_spec(
            s.dotdirs@[s.index as int]@,
            views(s.absorbed@),
            views(v@),
        ))),
{
}

} // verus!

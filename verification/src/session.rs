//! The commands that work on the repo side (`push`, `pull`, `sync`, `status`,
//! `diff`) as a state machine: each step takes what the last action gave and
//! says what to do next. The file system, git and printing are done from
//! outside.
use vstd::prelude::*;
use crate::cli::{
    Commands,
    managed_paths, missing_repo_msg, names_of, no_dotdirs_msg,
    project_name, project_name_spec, repo_root_from_config, repo_subdir, scan_root, update_message,
    update_message_spec, dotdir_names, DotdirPaths,
};
use crate::config::{repo_project_spec, DotdirConfig};
use crate::path::{ancestors_spec, file_name_spec, join_spec};
use crate::text::{concat2, joined, owned, views};
use crate::vcs::{changes_reported, first_marked, search_start, Git, GitCommand, Vcs};

verus! {

/// The repo-side commands.
#[derive(Debug, Clone, Copy, PartialEq, Eq, Structural)]
pub enum RepoCommand {
    Push,
    Pull,
    Sync,
    Status,
    Diff,
}

/// Where a session stands: what the last action was, whose outcome it awaits.
#[derive(Debug, Clone, Copy, PartialEq, Eq, Structural)]
pub enum Stage {
    Start,
    AwaitRoot,
    AwaitConfigs,
    AwaitPrune,
    AwaitAbsorb,
    AwaitLinks,
    AwaitRepo,
    AwaitChanges,
    AwaitNothingToPush,
    AwaitAdd,
    AwaitCommit,
    AwaitCommitted,
    AwaitPush,
    AwaitPushed,
    AwaitPull,
    AwaitPulled,
    AwaitFetch,
    AwaitStatus,
    AwaitDiff,
    AwaitReport,
    Finished,
}

/// What the outside reports back after performing an action.
#[derive(Debug)]
pub enum Event {
    /// The session starts, or the last action was done and gave nothing back.
    Next,
    /// The project root found above the current directory, if any.
    Root(Option<String>),
    /// The managed dotdirs and their configurations.
    Configs(Vec<(String, DotdirConfig)>),
    /// What was seen of the repo path: whether it exists, the current
    /// directory, and which of `vcs_search_dirs(repo_path, cwd)` hold a `.git`.
    RepoProbe { exists: bool, cwd: String, has_git: Vec<bool> },
    /// The trimmed standard output of a git command that succeeded.
    Output(String),
    /// The last action failed, with this message.
    Failed(String),
}

/// What the outside is to do next.
#[derive(Debug)]
pub enum Action {
    /// Look for the project root above the current directory.
    FindProjectRoot,
    /// Discover the managed dotdirs under `root` and load their configurations.
    LoadConfigs { root: String },
    /// For each dotdir whose both sides exist, delete from the repo what the
    /// project deleted, reporting `  deleted: <dotdir>/<file>`.
    PruneAll { targets: Vec<DotdirPaths> },
    /// For each dotdir that exists, move its real files into the repo,
    /// reporting `  absorbed: <dotdir>/<file>`.
    AbsorbAll { targets: Vec<DotdirPaths> },
    /// For each dotdir that exists, link the repo files it lacks, reporting
    /// `  linked: <dotdir>/<file>`.
    SyncAllLinks { targets: Vec<DotdirPaths> },
    /// Check the repo path, and look for `.git` above it.
    ProbeRepo { repo_path: String },
    /// Run a git command.
    RunGit(GitCommand),
    /// Print a line.
    Print(String),
    /// The command is over, with this outcome.
    Finish(Result<(), String>),
}

/// A run of one repo-side command.
pub struct Session {
    pub command: RepoCommand,
    pub message: Option<String>,
    pub stage: Stage,
    pub root: String,
    pub configs: Vec<(String, DotdirConfig)>,
    pub repo_path: String,
    pub repo_root: String,
    pub subdir: String,
    pub commit_message: String,
}

/// What of an event decides the next stage.
pub enum Outcome {
    Next,
    Root(bool),
    Configs(bool),
    Repo(bool, bool),
    Output(bool),
    Failed,
}

/// The repo path of the first managed dotdir.
pub open spec fn first_repo_path(configs: Seq<(String, DotdirConfig)>) -> Seq<char> {
    repo_project_spec(configs[0].1.repo_spec(), configs[0].1.dir())
}

/// What of `e` decides where the session goes from `s`.
pub open spec fn outcome(s: Session, e: Event) -> Outcome {
    match e {
        Event::Next => Outcome::Next,
        Event::Root(r) => Outcome::Root(r is Some),
        Event::Configs(cs) => Outcome::Configs(cs@.len() > 0),
        Event::RepoProbe { exists, cwd, has_git } => Outcome::Repo(
            exists && first_marked(has_git@) is Some,
            file_name_spec(first_repo_path(s.configs@)) is Some,
        ),
        Event::Output(o) => Outcome::Output(o@.len() > 0),
        Event::Failed(_) => Outcome::Failed,
    }
}

/// The event is of the kind that the stage awaits.
pub open spec fn awaits(stage: Stage, e: Event) -> bool {
    match stage {
        Stage::Start | Stage::AwaitPrune | Stage::AwaitAbsorb | Stage::AwaitLinks
        | Stage::AwaitNothingToPush | Stage::AwaitCommitted | Stage::AwaitPushed
        | Stage::AwaitPulled | Stage::AwaitReport => e is Next || e is Failed,
        Stage::AwaitRoot => e is Root || e is Failed,
        Stage::AwaitConfigs => e is Configs || e is Failed,
        Stage::AwaitRepo => e is RepoProbe || e is Failed,
        Stage::AwaitChanges | Stage::AwaitAdd | Stage::AwaitCommit | Stage::AwaitPush
        | Stage::AwaitPull | Stage::AwaitFetch | Stage::AwaitStatus | Stage::AwaitDiff => e is Output
            || e is Failed,
        Stage::Finished => false,
    }
}

/// The stage a session of `cmd` goes to from `stage` on an event with `o`.
pub open spec fn next_stage(cmd: RepoCommand, stage: Stage, o: Outcome) -> Stage {
    match o {
        Outcome::Failed => Stage::Finished,
        _ => match stage {
            Stage::Start => Stage::AwaitRoot,
            Stage::AwaitRoot => if o matches Outcome::Root(true) {
                Stage::AwaitConfigs
            } else {
                Stage::Finished
            },
            Stage::AwaitConfigs => if o matches Outcome::Configs(true) {
                if cmd == RepoCommand::Push {
                    Stage::AwaitPrune
                } else {
                    Stage::AwaitRepo
                }
            } else {
                Stage::Finished
            },
            Stage::AwaitPrune => Stage::AwaitAbsorb,
            Stage::AwaitAbsorb => if cmd == RepoCommand::Push {
                Stage::AwaitLinks
            } else {
                Stage::AwaitChanges
            },
            Stage::AwaitLinks => if cmd == RepoCommand::Push {
                Stage::AwaitRepo
            } else {
                Stage::Finished
            },
            Stage::AwaitRepo => match o {
                Outcome::Repo(true, subdir_ok) => match cmd {
                    RepoCommand::Push => if subdir_ok {
                        Stage::AwaitChanges
                    } else {
                        Stage::Finished
                    },
                    RepoCommand::Sync => if subdir_ok {
                        Stage::AwaitPrune
                    } else {
                        Stage::Finished
                    },
                    RepoCommand::Pull => Stage::AwaitPull,
                    RepoCommand::Status => Stage::AwaitFetch,
                    RepoCommand::Diff => Stage::AwaitDiff,
                },
                _ => Stage::Finished,
            },
            Stage::AwaitChanges => if o matches Outcome::Output(true) {
                Stage::AwaitAdd
            } else {
                Stage::AwaitNothingToPush
            },
            Stage::AwaitNothingToPush => if cmd == RepoCommand::Sync {
                Stage::AwaitPull
            } else {
                Stage::Finished
            },
            Stage::AwaitAdd => Stage::AwaitCommit,
            Stage::AwaitCommit => Stage::AwaitCommitted,
            Stage::AwaitCommitted => Stage::AwaitPush,
            Stage::AwaitPush => Stage::AwaitPushed,
            Stage::AwaitPushed => if cmd == RepoCommand::Sync {
                Stage::AwaitPull
            } else {
                Stage::Finished
            },
            Stage::AwaitPull => Stage::AwaitPulled,
            Stage::AwaitPulled => Stage::AwaitLinks,
            Stage::AwaitFetch => Stage::AwaitStatus,
            Stage::AwaitStatus => Stage::AwaitReport,
            Stage::AwaitDiff => Stage::AwaitReport,
            Stage::AwaitReport => Stage::Finished,
            Stage::Finished => Stage::Finished,
        },
    }
}

/// `t` lists the directories of each managed dotdir of `configs` under `root`.
pub open spec fn targets_ok(root: Seq<char>, configs: Seq<(String, DotdirConfig)>, t: Seq<DotdirPaths>) -> bool {
    &&& t.len() == configs.len()
    &&& forall|i: int|
        0 <= i < t.len() ==> {
            let p = #[trigger] t[i];
            let c = configs[i];
            &&& p.dotdir@ == c.0@
            &&& p.dotdir_path@ == join_spec(root, c.0@)
            &&& p.repo_dotdir@ == join_spec(repo_project_spec(c.1.repo_spec(), c.1.dir()), c.0@)
        }
}

/// The action runs git with `args` in `cwd`.
pub open spec fn runs_git(a: Action, args: Seq<Seq<char>>, cwd: Seq<char>) -> bool {
    a matches Action::RunGit(c) && views(c.args@) == args && c.cwd@ == cwd
}

/// The action prints `line`.
pub open spec fn prints(a: Action, line: Seq<char>) -> bool {
    a matches Action::Print(l) && l@ == line
}

/// The action ends the command with the error `m`.
pub open spec fn fails_with(a: Action, m: Seq<char>) -> bool {
    a matches Action::Finish(Err(x)) && x@ == m
}

/// The action ends the command successfully.
pub open spec fn succeeds(a: Action) -> bool {
    a matches Action::Finish(Ok(()))
}

/// What a session keeps once its configurations are loaded: there is at
/// least one, and the repo path is that of the first.
pub open spec fn loaded(s: Session) -> bool {
    &&& s.configs@.len() > 0
    &&& s.repo_path@ == first_repo_path(s.configs@)
}

impl Session {
    /// A session of `command`, with the commit message given (if any).
    pub fn new(command: RepoCommand, message: Option<String>) -> (res: Self)
        ensures
            res.command == command,
            res.message == message,
            res.stage == Stage::Start,
    {
        Session {
            command,
            message,
            stage: Stage::Start,
            root: String::new(),
            configs: Vec::new(),
            repo_path: String::new(),
            repo_root: String::new(),
            subdir: String::new(),
            commit_message: String::new(),
        }
    }

    /// The session is past loading its configurations.
    pub open spec fn past_loading(&self) -> bool {
        !(self.stage == Stage::Start || self.stage == Stage::AwaitRoot || self.stage
            == Stage::AwaitConfigs || self.stage == Stage::Finished)
    }

    /// Takes the outcome of the last action and gives the next action.
    pub fn step(&mut self, event: Event) -> (res: Action)
        requires
            awaits(old(self).stage, event),
            old(self).past_loading() ==> loaded(*old(self)),
            old(self).stage == Stage::AwaitRepo ==> (event matches Event::RepoProbe {
                cwd,
                has_git,
                ..
            } ==> has_git@.len() == ancestors_spec(search_start(old(self).repo_path@, cwd@)).len()),
        ensures
            final(self).stage == next_stage(old(self).command, old(self).stage, outcome(*old(self), event)),
            final(self).command == old(self).command,
            final(self).message == old(self).message,
            final(self).past_loading() ==> loaded(*final(self)),
            old(self).stage != Stage::AwaitRoot ==> final(self).root == old(self).root,
            old(self).stage != Stage::AwaitConfigs ==> final(self).configs == old(self).configs
                && final(self).repo_path == old(self).repo_path,
            old(self).stage != Stage::AwaitRepo ==> final(self).repo_root == old(self).repo_root
                && final(self).subdir == old(self).subdir,
            old(self).stage != Stage::AwaitChanges ==> final(self).commit_message == old(
                self,
            ).commit_message,
            match event {
                Event::Failed(m) => fails_with(
                    res,
                    if old(self).stage == Stage::AwaitPull && old(self).command == RepoCommand::Sync {
                        "Pull failed (possible conflict): "@ + m@
                    } else {
                        m@
                    },
                ),
                _ => step_ok(*old(self), event, *final(self), res),
            },
    {
        let cmd = self.command;
        let stage = self.stage;
        let ghost s0 = *self;
        if let Event::Failed(m) = event {
            self.stage = Stage::Finished;
            if stage == Stage::AwaitPull && cmd == RepoCommand::Sync {
                return Action::Finish(Err(concat2("Pull failed (possible conflict): ", m.as_str())));
            }
            return Action::Finish(Err(m));
        }
        match stage {
            Stage::Start => {
                self.stage = Stage::AwaitRoot;
                Action::FindProjectRoot
            },
            Stage::AwaitRoot => {
                let found = match event {
                    Event::Root(r) => r,
                    _ => None,
                };
                match scan_root(found) {
                    Ok(r) => {
                        self.root = r.clone();
                        self.stage = Stage::AwaitConfigs;
                        Action::LoadConfigs { root: r }
                    },
                    Err(e) => {
                        self.stage = Stage::Finished;
                        Action::Finish(Err(e.message))
                    },
                }
            },
            Stage::AwaitConfigs => {
                let cs = match event {
                    Event::Configs(cs) => cs,
                    _ => Vec::new(),
                };
                if cs.len() == 0 {
                    self.stage = Stage::Finished;
                    return Action::Finish(Err(owned("No managed dotdirs found. Run 'tt init' first.")));
                }
                let repo_path = cs[0].1.repo_project_path();
                self.configs = cs;
                self.repo_path = repo_path.clone();
                if cmd == RepoCommand::Push {
                    self.stage = Stage::AwaitPrune;
                    Action::PruneAll { targets: managed_paths(self.root.as_str(), &self.configs) }
                } else {
                    self.stage = Stage::AwaitRepo;
                    Action::ProbeRepo { repo_path }
                }
            },
            Stage::AwaitPrune => {
                self.stage = Stage::AwaitAbsorb;
                Action::AbsorbAll { targets: managed_paths(self.root.as_str(), &self.configs) }
            },
            Stage::AwaitAbsorb => {
                if cmd == RepoCommand::Push {
                    self.stage = Stage::AwaitLinks;
                    Action::SyncAllLinks { targets: managed_paths(self.root.as_str(), &self.configs) }
                } else {
                    self.stage = Stage::AwaitChanges;
                    Action::RunGit(Git.has_changes(self.repo_root.as_str(), self.subdir.as_str()))
                }
            },
            Stage::AwaitLinks => {
                if cmd == RepoCommand::Push {
                    self.stage = Stage::AwaitRepo;
                    Action::ProbeRepo { repo_path: self.repo_path.clone() }
                } else {
                    self.stage = Stage::Finished;
                    Action::Finish(Ok(()))
                }
            },
            Stage::AwaitRepo => {
                let (exists, cwd, has_git) = match event {
                    Event::RepoProbe { exists, cwd, has_git } => (exists, cwd, has_git),
                    _ => (false, String::new(), Vec::new()),
                };
                let root = match repo_root_from_config(&self.configs[0].1, exists, cwd.as_str(), &has_git) {
                    Ok((root, _)) => root,
                    Err(e) => {
                        self.stage = Stage::Finished;
                        return Action::Finish(Err(e.message));
                    },
                };
                self.repo_root = root;
                match cmd {
                    RepoCommand::Pull => {
                        self.stage = Stage::AwaitPull;
                        Action::RunGit(Git.pull(self.repo_root.as_str()))
                    },
                    RepoCommand::Status => {
                        self.stage = Stage::AwaitFetch;
                        Action::RunGit(Git.fetch(self.repo_root.as_str()))
                    },
                    RepoCommand::Diff => {
                        self.stage = Stage::AwaitDiff;
                        Action::RunGit(Git.diff(self.repo_root.as_str()))
                    },
                    _ => {
                        match repo_subdir(&self.configs[0].1) {
                            Err(e) => {
                                self.stage = Stage::Finished;
                                Action::Finish(Err(e.message))
                            },
                            Ok(sub) => {
                                self.subdir = sub;
                                if cmd == RepoCommand::Push {
                                    self.stage = Stage::AwaitChanges;
                                    Action::RunGit(
                                        Git.has_changes(self.repo_root.as_str(), self.subdir.as_str()),
                                    )
                                } else {
                                    self.stage = Stage::AwaitPrune;
                                    Action::PruneAll {
                                        targets: managed_paths(self.root.as_str(), &self.configs),
                                    }
                                }
                            },
                        }
                    },
                }
            },
            Stage::AwaitChanges => {
                let out = match event {
                    Event::Output(o) => o,
                    _ => String::new(),
                };
                if changes_reported(out.as_str()) {
                    let project = project_name(Some(self.root.as_str()));
                    let names = names_of(&self.configs);
                    self.commit_message = update_message(&self.message, project.as_str(), &names);
                    self.stage = Stage::AwaitAdd;
                    Action::RunGit(Git.add(self.repo_root.as_str(), self.subdir.as_str()))
                } else {
                    self.stage = Stage::AwaitNothingToPush;
                    Action::Print(owned("Nothing to push."))
                }
            },
            Stage::AwaitNothingToPush | Stage::AwaitPushed => {
                if cmd == RepoCommand::Sync {
                    self.stage = Stage::AwaitPull;
                    Action::RunGit(Git.pull(self.repo_root.as_str()))
                } else {
                    self.stage = Stage::Finished;
                    Action::Finish(Ok(()))
                }
            },
            Stage::AwaitAdd => {
                self.stage = Stage::AwaitCommit;
                Action::RunGit(Git.commit(self.repo_root.as_str(), self.commit_message.as_str()))
            },
            Stage::AwaitCommit => {
                self.stage = Stage::AwaitCommitted;
                Action::Print(concat2("Committed: ", self.commit_message.as_str()))
            },
            Stage::AwaitCommitted => {
                self.stage = Stage::AwaitPush;
                Action::RunGit(Git.push(self.repo_root.as_str()))
            },
            Stage::AwaitPush => {
                self.stage = Stage::AwaitPushed;
                Action::Print(owned("Pushed."))
            },
            Stage::AwaitPull => {
                self.stage = Stage::AwaitPulled;
                Action::Print(owned("Pulled."))
            },
            Stage::AwaitPulled => {
                self.stage = Stage::AwaitLinks;
                Action::SyncAllLinks { targets: managed_paths(self.root.as_str(), &self.configs) }
            },
            Stage::AwaitFetch => {
                self.stage = Stage::AwaitStatus;
                Action::RunGit(Git.status(self.repo_root.as_str()))
            },
            Stage::AwaitStatus | Stage::AwaitDiff => {
                let out = match event {
                    Event::Output(o) => o,
                    _ => String::new(),
                };
                self.stage = Stage::AwaitReport;
                if out.as_str().is_empty() {
                    if stage == Stage::AwaitStatus {
                        Action::Print(owned("Clean."))
                    } else {
                        Action::Print(owned("No differences."))
                    }
                } else {
                    Action::Print(out)
                }
            },
            Stage::AwaitReport => {
                self.stage = Stage::Finished;
                Action::Finish(Ok(()))
            },
            Stage::Finished => Action::Finish(Ok(())),
        }
    }
}

/// What a step that is not a failure does: the action it gives and the
/// values it keeps for later steps.
pub open spec fn step_ok(s: Session, e: Event, t: Session, a: Action) -> bool {
    let project = project_name_spec(Some(s.root@));
    let msg = update_message_spec(
        match s.message {
            Some(m) => Some(m@),
            None => None,
        },
        project,
        dotdir_names(s.configs@),
    );
    match s.stage {
        Stage::Start => a is FindProjectRoot,
        Stage::AwaitRoot => match e {
            Event::Root(Some(r)) => a matches Action::LoadConfigs { root } && root@ == r@ && t.root@
                == r@,
            _ => fails_with(a, "Could not find project root (.git)."@),
        },
        Stage::AwaitConfigs => match e {
            Event::Configs(cs) => if cs@.len() == 0 {
                fails_with(a, no_dotdirs_msg())
            } else {
                &&& t.configs@ == cs@
                &&& t.root == s.root
                &&& t.repo_path@ == first_repo_path(cs@)
                &&& if s.command == RepoCommand::Push {
                    a matches Action::PruneAll { targets } && targets_ok(s.root@, cs@, targets@)
                } else {
                    a matches Action::ProbeRepo { repo_path } && repo_path@ == first_repo_path(cs@)
                }
            },
            _ => false,
        },
        Stage::AwaitPrune => a matches Action::AbsorbAll { targets } && targets_ok(
            s.root@,
            s.configs@,
            targets@,
        ),
        Stage::AwaitAbsorb => if s.command == RepoCommand::Push {
            a matches Action::SyncAllLinks { targets } && targets_ok(s.root@, s.configs@, targets@)
        } else {
            runs_git(a, seq!["status"@, "--short"@, s.subdir@], s.repo_root@)
        },
        Stage::AwaitLinks => if s.command == RepoCommand::Push {
            a matches Action::ProbeRepo { repo_path } && repo_path@ == s.repo_path@
        } else {
            succeeds(a)
        },
        Stage::AwaitRepo => match e {
            Event::RepoProbe { exists, cwd, has_git } => if !exists {
                fails_with(a, missing_repo_msg(s.repo_path@))
            } else {
                match first_marked(has_git@) {
                    None => fails_with(a, "Repo side: no git repository found at "@ + s.repo_path@),
                    Some(i) => {
                        let root = ancestors_spec(search_start(s.repo_path@, cwd@))[i];
                        &&& t.repo_root@ == root
                        &&& t.configs == s.configs
                        &&& t.root == s.root
                        &&& match s.command {
                            RepoCommand::Pull => runs_git(a, seq!["pull"@], root),
                            RepoCommand::Status => runs_git(a, seq!["fetch"@], root),
                            RepoCommand::Diff => runs_git(a, seq!["diff"@], root),
                            _ => match file_name_spec(s.repo_path@) {
                                None => fails_with(a, "repo path has no file name component"@),
                                Some(sub) => t.subdir@ == sub && if s.command == RepoCommand::Push {
                                    runs_git(a, seq!["status"@, "--short"@, sub], root)
                                } else {
                                    a matches Action::PruneAll { targets } && targets_ok(
                                        s.root@,
                                        s.configs@,
                                        targets@,
                                    )
                                },
                            },
                        }
                    },
                }
            },
            _ => false,
        },
        Stage::AwaitChanges => match e {
            Event::Output(o) => if o@.len() > 0 {
                t.commit_message@ == msg && runs_git(a, seq!["add"@, s.subdir@], s.repo_root@)
            } else {
                prints(a, "Nothing to push."@)
            },
            _ => false,
        },
        Stage::AwaitNothingToPush => if s.command == RepoCommand::Sync {
            runs_git(a, seq!["pull"@], s.repo_root@)
        } else {
            succeeds(a)
        },
        Stage::AwaitAdd => runs_git(a, seq!["commit"@, "-m"@, s.commit_message@], s.repo_root@),
        Stage::AwaitCommit => prints(a, "Committed: "@ + s.commit_message@),
        Stage::AwaitCommitted => runs_git(a, seq!["push"@], s.repo_root@),
        Stage::AwaitPush => prints(a, "Pushed."@),
        Stage::AwaitPushed => if s.command == RepoCommand::Sync {
            runs_git(a, seq!["pull"@], s.repo_root@)
        } else {
            succeeds(a)
        },
        Stage::AwaitPull => prints(a, "Pulled."@),
        Stage::AwaitPulled => a matches Action::SyncAllLinks { targets } && targets_ok(
            s.root@,
            s.configs@,
            targets@,
        ),
        Stage::AwaitFetch => runs_git(a, seq!["status"@, "--short"@], s.repo_root@),
        Stage::AwaitStatus => match e {
            Event::Output(o) => prints(a, if o@.len() == 0 { "Clean."@ } else { o@ }),
            _ => false,
        },
        Stage::AwaitDiff => match e {
            Event::Output(o) => prints(a, if o@.len() == 0 { "No differences."@ } else { o@ }),
            _ => false,
        },
        Stage::AwaitReport => succeeds(a),
        Stage::Finished => false,
    }
}

/// The position of `stage` in the run of `cmd`, counting down to `Finished`
/// at 0; -1 for a stage that the command never reaches.
pub open spec fn flow_rank(cmd: RepoCommand, stage: Stage) -> int {
    match stage {
        Stage::Finished => 0,
        Stage::Start => 40,
        Stage::AwaitRoot => 39,
        Stage::AwaitConfigs => 38,
        _ => match cmd {
            RepoCommand::Push => match stage {
                Stage::AwaitPrune => 30,
                Stage::AwaitAbsorb => 29,
                Stage::AwaitLinks => 28,
                Stage::AwaitRepo => 27,
                Stage::AwaitChanges => 26,
                Stage::AwaitAdd => 25,
                Stage::AwaitCommit => 24,
                Stage::AwaitCommitted => 23,
                Stage::AwaitPush => 22,
                Stage::AwaitPushed => 21,
                Stage::AwaitNothingToPush => 20,
                _ => -1,
            },
            RepoCommand::Sync => match stage {
                Stage::AwaitRepo => 30,
                Stage::AwaitPrune => 29,
                Stage::AwaitAbsorb => 28,
                Stage::AwaitChanges => 27,
                Stage::AwaitAdd => 26,
                Stage::AwaitCommit => 25,
                Stage::AwaitCommitted => 24,
                Stage::AwaitPush => 23,
                Stage::AwaitPushed => 22,
                Stage::AwaitNothingToPush => 21,
                Stage::AwaitPull => 20,
                Stage::AwaitPulled => 19,
                Stage::AwaitLinks => 18,
                _ => -1,
            },
            RepoCommand::Pull => match stage {
                Stage::AwaitRepo => 30,
                Stage::AwaitPull => 29,
                Stage::AwaitPulled => 28,
                Stage::AwaitLinks => 27,
                _ => -1,
            },
            RepoCommand::Status => match stage {
                Stage::AwaitRepo => 30,
                Stage::AwaitFetch => 29,
                Stage::AwaitStatus => 28,
                Stage::AwaitReport => 27,
                _ => -1,
            },
            RepoCommand::Diff => match stage {
                Stage::AwaitRepo => 30,
                Stage::AwaitDiff => 29,
                Stage::AwaitReport => 28,
                _ => -1,
            },
        },
    }
}

/// Every command runs to its end: from any stage of its run, a step leads to
/// a stage of its run nearer to `Finished`, so a session ends after at most
/// as many steps as its first rank.
pub proof fn lemma_session_ends(cmd: RepoCommand, stage: Stage, o: Outcome)
    requires
        flow_rank(cmd, stage) > 0,
    ensures
        flow_rank(cmd, next_stage(cmd, stage, o)) >= 0,
        flow_rank(cmd, next_stage(cmd, stage, o)) < flow_rank(cmd, stage),
{
}

/// `sync` publishes local changes before it pulls: the pull is asked for only
/// right after the push (or after finding nothing to push), and links are
/// synced only after the pull succeeded.
pub proof fn lemma_sync_pushes_before_pulling(stage: Stage, o: Outcome)
    requires
        flow_rank(RepoCommand::Sync, stage) > 0,
    ensures
        next_stage(RepoCommand::Sync, stage, o) == Stage::AwaitPull ==> stage
            == Stage::AwaitPushed || stage == Stage::AwaitNothingToPush,
        next_stage(RepoCommand::Sync, stage, o) == Stage::AwaitLinks ==> stage
            == Stage::AwaitPulled,
        next_stage(RepoCommand::Sync, stage, o) == Stage::AwaitPulled ==> stage
            == Stage::AwaitPull && !(o is Failed),
{
}

/// A failed pull during `sync` (a possible conflict) ends the command: no
/// links are synced after it.
pub proof fn lemma_sync_stops_on_conflict()
    ensures
        next_stage(RepoCommand::Sync, Stage::AwaitPull, Outcome::Failed) == Stage::Finished,
{
}

/// `push` and `sync` stage, commit and push only after git reported changes,
/// and in that order: each of those steps follows the one before it.
pub proof fn lemma_commit_only_after_changes(cmd: RepoCommand, stage: Stage, o: Outcome)
    requires
        flow_rank(cmd, stage) > 0,
    ensures
        next_stage(cmd, stage, o) == Stage::AwaitAdd ==> stage == Stage::AwaitChanges
            && o == Outcome::Output(true),
        next_stage(cmd, stage, o) == Stage::AwaitCommit ==> stage == Stage::AwaitAdd,
        next_stage(cmd, stage, o) == Stage::AwaitCommitted ==> stage == Stage::AwaitCommit,
        next_stage(cmd, stage, o) == Stage::AwaitPush ==> stage == Stage::AwaitCommitted,
        next_stage(cmd, stage, o) == Stage::AwaitNothingToPush ==> stage == Stage::AwaitChanges
            && o != Outcome::Output(true),
{
}

/// `sync` always pulls once it is past the changes check: right after saying
/// there is nothing to push, and right after pushing, it runs `git pull` in
/// the repo root.
pub proof fn lemma_sync_pulls_after_publishing(s: Session, e: Event, t: Session, a: Action)
    requires
        s.command == RepoCommand::Sync,
        s.stage == Stage::AwaitNothingToPush || s.stage == Stage::AwaitPushed,
        step_ok(s, e, t, a),
    ensures
        a matches Action::RunGit(c) && views(c.args@) == seq!["pull"@] && c.cwd@ == s.repo_root@,
        next_stage(s.command, s.stage, Outcome::Next) == Stage::AwaitPull,
{
}

/// `push` and `sync` commit with the message they were given: once git
/// reports changes, the commit message is the given one; without one, it is
/// `update <project> <dotdirs>`. The commit then runs `git commit -m` with
/// that message in the repo root.
pub proof fn lemma_commit_uses_given_message(s: Session, o: String, t: Session, a: Action)
    requires
        s.stage == Stage::AwaitChanges,
        o@.len() > 0,
        step_ok(s, Event::Output(o), t, a),
    ensures
        s.message matches Some(m) ==> t.commit_message@ == m@,
        s.message is None ==> t.commit_message@ == "update "@ + project_name_spec(Some(s.root@))
            + " "@ + joined(dotdir_names(s.configs@), " "@),
        a matches Action::RunGit(c) && views(c.args@) == seq!["add"@, s.subdir@],
{
}

/// The commit runs `git commit -m <message>` with the session's commit message.
pub proof fn lemma_commit_runs_with_message(s: Session, e: Event, t: Session, a: Action)
    requires
        s.stage == Stage::AwaitAdd,
        step_ok(s, e, t, a),
    ensures
        a matches Action::RunGit(c) && views(c.args@) == seq!["commit"@, "-m"@, s.commit_message@]
            && c.cwd@ == s.repo_root@,
{
}

/// `status` prints `Clean.` exactly when git's status output is empty, and
/// otherwise prints that output; `diff` likewise with `No differences.`.
pub proof fn lemma_report_shows_output(s: Session, o: String, t: Session, a: Action)
    requires
        s.stage == Stage::AwaitStatus || s.stage == Stage::AwaitDiff,
        step_ok(s, Event::Output(o), t, a),
    ensures
        o@.len() > 0 ==> (a matches Action::Print(l) && l@ == o@),
        o@.len() == 0 && s.stage == Stage::AwaitStatus ==> (a matches Action::Print(l) && l@
            == "Clean."@),
        o@.len() == 0 && s.stage == Stage::AwaitDiff ==> (a matches Action::Print(l) && l@
            == "No differences."@),
{
}

/// The stages through which `push` and `sync` publish local changes.
pub open spec fn publishing(stage: Stage) -> bool {
    stage == Stage::AwaitChanges || stage == Stage::AwaitNothingToPush || stage == Stage::AwaitAdd
        || stage == Stage::AwaitCommit || stage == Stage::AwaitCommitted || stage == Stage::AwaitPush
        || stage == Stage::AwaitPushed
}

/// Once `sync` reaches the changes check, it goes on to pull unless a step
/// fails: from each publishing stage, a step that did not fail leads to
/// another publishing stage or to the pull, never to the end.
pub proof fn lemma_sync_goes_on_to_pull(stage: Stage, o: Outcome)
    requires
        publishing(stage),
        !(o is Failed),
    ensures
        publishing(next_stage(RepoCommand::Sync, stage, o)) || next_stage(RepoCommand::Sync, stage, o)
            == Stage::AwaitPull,
{
}

/// The changes check: `git status --short <subdir>` in the repo root; when it
/// prints nothing, `Nothing to push.` is printed, and when it prints
/// something, the subdirectory is staged with `git add`.
pub proof fn lemma_changes_check(s: Session, o: String, t: Session, a: Action)
    requires
        s.stage == Stage::AwaitChanges,
        step_ok(s, Event::Output(o), t, a),
        t.stage == next_stage(s.command, s.stage, outcome(s, Event::Output(o))),
    ensures
        o@.len() == 0 ==> (a matches Action::Print(l) && l@ == "Nothing to push."@)
            && t.stage == Stage::AwaitNothingToPush,
        o@.len() > 0 ==> (a matches Action::RunGit(c) && views(c.args@) == seq!["add"@, s.subdir@]
            && c.cwd@ == s.repo_root@) && t.stage == Stage::AwaitAdd,
{
}

/// After staging, a push commits, reports the commit, pushes and reports it,
/// one step each.
pub proof fn lemma_publish_steps(s: Session, e: Event, t: Session, a: Action)
    requires
        s.stage == Stage::AwaitCommit || s.stage == Stage::AwaitCommitted || s.stage
            == Stage::AwaitPush,
        step_ok(s, e, t, a),
    ensures
        s.stage == Stage::AwaitCommit ==> (a matches Action::Print(l) && l@ == "Committed: "@
            + s.commit_message@),
        s.stage == Stage::AwaitCommitted ==> (a matches Action::RunGit(c) && views(c.args@)
            == seq!["push"@] && c.cwd@ == s.repo_root@),
        s.stage == Stage::AwaitPush ==> (a matches Action::Print(l) && l@ == "Pushed."@),
{
}

/// After a pull, `Pulled.` is printed and then the links of every managed
/// dotdir are synced.
pub proof fn lemma_links_after_pull(s: Session, e: Event, t: Session, a: Action)
    requires
        s.stage == Stage::AwaitPull || s.stage == Stage::AwaitPulled,
        step_ok(s, e, t, a),
    ensures
        s.stage == Stage::AwaitPull ==> (a matches Action::Print(l) && l@ == "Pulled."@),
        s.stage == Stage::AwaitPulled ==> (a matches Action::SyncAllLinks { targets } && targets@.len()
            == s.configs@.len() && forall|i: int|
            0 <= i < targets@.len() ==> (#[trigger] targets@[i]).dotdir_path@ == join_spec(
                s.root@,
                s.configs@[i].0@,
            )),
{
}

/// What running a command starts.
pub enum Run {
    /// A repo-side command, run step by step.
    Repo(Session),
    /// Set up dotdirs.
    Init { dotdir: Option<String>, repo: String, root: String },
    /// List the managed dotdirs.
    List,
    /// Remove dotdirs from the project.
    Unlink { dotdir: Option<String> },
}

impl crate::cli::Cli {
    /// Starts the command that was asked for.
    pub fn run(self) -> (res: Run)
        ensures
            match self.command {
                Commands::Push { message } => res matches Run::Repo(s) && s.command
                    == RepoCommand::Push && s.message == message && s.stage == Stage::Start,
                Commands::Sync { message } => res matches Run::Repo(s) && s.command
                    == RepoCommand::Sync && s.message == message && s.stage == Stage::Start,
                Commands::Pull => res matches Run::Repo(s) && s.command == RepoCommand::Pull
                    && s.message is None && s.stage == Stage::Start,
                Commands::Status => res matches Run::Repo(s) && s.command == RepoCommand::Status
                    && s.message is None && s.stage == Stage::Start,
                Commands::Diff => res matches Run::Repo(s) && s.command == RepoCommand::Diff
                    && s.message is None && s.stage == Stage::Start,
                Commands::Init { dotdir, repo, root } => res matches Run::Init {
                    dotdir: d,
                    repo: r,
                    root: t,
                } && d == dotdir && r == repo && t == root,
                Commands::List => res is List,
                Commands::Unlink { dotdir } => res matches Run::Unlink { dotdir: d } && d == dotdir,
            },
    {
        match self.command {
            Commands::Init { dotdir, repo, root } => Run::Init { dotdir, repo, root },
            Commands::Push { message } => Run::Repo(Session::new(RepoCommand::Push, message)),
            Commands::Pull => Run::Repo(Session::new(RepoCommand::Pull, None)),
            Commands::Sync { message } => Run::Repo(Session::new(RepoCommand::Sync, message)),
            Commands::Status => Run::Repo(Session::new(RepoCommand::Status, None)),
            Commands::Diff => Run::Repo(Session::new(RepoCommand::Diff, None)),
            Commands::List => Run::List,
            Commands::Unlink { dotdir } => Run::Unlink { dotdir },
        }
    }
}

} // verus!

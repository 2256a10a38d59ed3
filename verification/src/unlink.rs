//! The `unlink` command as a state machine: each dotdir named (or each
//! managed one) gets its files back from the repo and stops being managed.
use vstd::prelude::*;
use crate::cli::{report_line, scan_root};
use crate::config::{config_path_spec, load, load_spec, repo_project_spec, LoadFailure, CONFIG_FILE};
use crate::discover::ConfigFiles;
use crate::path::{join, join_spec};
use crate::text::{concat2, join_strings, joined, owned, views};

verus! {

broadcast use vstd::seq_lib::group_seq_properties;

/// Where an unlinking stands.
#[derive(Debug, Clone, Copy, PartialEq, Eq, Structural)]
pub enum UnlinkStage {
    Start,
    AwaitRoot,
    AwaitDotdirs,
    AwaitExists,
    AwaitConfig,
    AwaitRemoved,
    AwaitRestored,
    AwaitRestoredPrinted,
    AwaitCleanup,
    AwaitUnlinkedPrinted,
    Finished,
}

/// What the outside reports back.
#[derive(Debug)]
pub enum UnlinkEvent {
    /// The run starts, or the last action was done.
    Next,
    /// The project root found above the current directory, if any.
    Root(Option<String>),
    /// The managed dotdirs discovered under the root.
    Dotdirs(Vec<String>),
    /// Whether the dotdir exists in the project.
    Exists(bool),
    /// What became of the dotdir's configuration files.
    Config(ConfigFiles),
    /// The files restored from the repo, in order.
    Restored(Vec<String>),
    /// The last action failed, with this message.
    Failed(String),
}

/// What the outside is to do next.
#[derive(Debug)]
pub enum UnlinkAction {
    FindProjectRoot,
    /// Discover the managed dotdirs under `root`.
    DiscoverDotdirs { root: String },
    /// Check whether `path` exists.
    CheckDotdir { path: String },
    /// Look at the configuration files of `dotdir` under `root`.
    ReadConfig { root: String, dotdir: String },
    /// Remove the directory `path` and all it holds.
    RemoveDir { path: String },
    /// Copy the repo files of `repo_dotdir` back into `dotdir_path`.
    Restore { dotdir_path: String, repo_dotdir: String },
    /// Remove `config_path` and `gitignore_path` where they exist, then every
    /// symbolic link left in `dotdir_path`.
    Cleanup { dotdir_path: String, config_path: String, gitignore_path: String },
    Print(String),
    Finish(Result<(), String>),
}

/// A run of `unlink`.
pub struct UnlinkSession {
    pub dotdir: Option<String>,
    pub stage: UnlinkStage,
    pub root: String,
    pub dotdirs: Vec<String>,
    /// The dotdir being unlinked.
    pub index: usize,
}

/// The event is of the kind that the stage awaits.
pub open spec fn unlink_awaits(stage: UnlinkStage, e: UnlinkEvent) -> bool {
    e is Failed || match stage {
        UnlinkStage::Start | UnlinkStage::AwaitRemoved | UnlinkStage::AwaitRestoredPrinted
        | UnlinkStage::AwaitCleanup | UnlinkStage::AwaitUnlinkedPrinted => e is Next,
        UnlinkStage::AwaitRoot => e is Root,
        UnlinkStage::AwaitDotdirs => e is Dotdirs,
        UnlinkStage::AwaitExists => e is Exists,
        UnlinkStage::AwaitConfig => e is Config,
        UnlinkStage::AwaitRestored => e is Restored,
        UnlinkStage::Finished => false,
    }
}

/// The run is working through its dotdirs.
pub open spec fn unlinking(s: UnlinkSession) -> bool {
    !(s.stage == UnlinkStage::Start || s.stage == UnlinkStage::AwaitRoot || s.stage
        == UnlinkStage::AwaitDotdirs || s.stage == UnlinkStage::Finished) ==> s.index
        < s.dotdirs@.len()
}

/// The lines reporting the files restored into `dotdir`.
pub open spec fn restored_lines(dotdir: Seq<char>, names: Seq<Seq<char>>) -> Seq<char> {
    joined(names.map_values(|f: Seq<char>| "  restored: "@ + dotdir + "/"@ + f), "\n"@)
}

/// The action ends the run with the error `m`.
pub open spec fn unlink_fails(a: UnlinkAction, m: Seq<char>) -> bool {
    a matches UnlinkAction::Finish(Err(x)) && x@ == m
}

/// From `s`, the run moves on to the dotdir at `i`: checks it, or ends when
/// there are no more.
pub open spec fn begins(s: UnlinkSession, i: int, t: UnlinkSession, a: UnlinkAction) -> bool {
    &&& t.root == s.root
    &&& if i < t.dotdirs@.len() {
        &&& t.stage == UnlinkStage::AwaitExists
        &&& t.index == i
        &&& a matches UnlinkAction::CheckDotdir { path } && path@ == join_spec(
            s.root@,
            t.dotdirs@[i]@,
        )
    } else {
        t.stage == UnlinkStage::Finished && (a matches UnlinkAction::Finish(Ok(())))
    }
}

impl UnlinkSession {
    /// A run that unlinks `dotdir`, or every managed dotdir when none is named.
    pub fn new(dotdir: Option<String>) -> (res: Self)
        ensures
            res.stage == UnlinkStage::Start,
            res.dotdir == dotdir,
    {
        UnlinkSession { dotdir, stage: UnlinkStage::Start, root: String::new(), dotdirs: Vec::new(), index: 0 }
    }

    fn begin(&mut self, i: usize) -> (res: UnlinkAction)
        requires
            i <= old(self).dotdirs@.len(),
        ensures
            begins(*old(self), i as int, *final(self), res),
            final(self).dotdirs == old(self).dotdirs,
            final(self).dotdir == old(self).dotdir,
    {
        if i < self.dotdirs.len() {
            self.index = i;
            self.stage = UnlinkStage::AwaitExists;
            UnlinkAction::CheckDotdir { path: join(self.root.as_str(), self.dotdirs[i].as_str()) }
        } else {
            self.stage = UnlinkStage::Finished;
            UnlinkAction::Finish(Ok(()))
        }
    }

    /// Takes the outcome of the last action and gives the next action.
    pub fn step(&mut self, event: UnlinkEvent) -> (res: UnlinkAction)
        requires
            unlink_awaits(old(self).stage, event),
            unlinking(*old(self)),
        ensures
            unlinking(*final(self)),
            final(self).dotdir == old(self).dotdir,
            match event {
                UnlinkEvent::Failed(m) => final(self).stage == UnlinkStage::Finished
                    && unlink_fails(res, m@),
                _ => unlink_step_ok(*old(self), event, *final(self), res),
            },
    {
        if let UnlinkEvent::Failed(m) = event {
            self.stage = UnlinkStage::Finished;
            return UnlinkAction::Finish(Err(m));
        }
        match self.stage {
            UnlinkStage::Start => {
                self.stage = UnlinkStage::AwaitRoot;
                UnlinkAction::FindProjectRoot
            },
            UnlinkStage::AwaitRoot => {
                let found = match event {
                    UnlinkEvent::Root(r) => r,
                    _ => None,
                };
                match scan_root(found) {
                    Err(e) => {
                        self.stage = UnlinkStage::Finished;
                        UnlinkAction::Finish(Err(e.message))
                    },
                    Ok(r) => {
                        self.root = r;
                        match &self.dotdir {
                            Some(d) => {
                                let mut v = Vec::new();
                                v.push(d.clone());
                                self.dotdirs = v;
                                assert(self.dotdirs@ =~= seq![self.dotdir->0]);
                                self.begin(0)
                            },
                            None => {
                                self.stage = UnlinkStage::AwaitDotdirs;
                                UnlinkAction::DiscoverDotdirs { root: self.root.clone() }
                            },
                        }
                    },
                }
            },
            UnlinkStage::AwaitDotdirs => {
                let v = match event {
                    UnlinkEvent::Dotdirs(v) => v,
                    _ => Vec::new(),
                };
                self.dotdirs = v;
                self.begin(0)
            },
            UnlinkStage::AwaitExists => {
                let exists = match event {
                    UnlinkEvent::Exists(b) => b,
                    _ => false,
                };
                if exists {
                    self.stage = UnlinkStage::AwaitConfig;
                    UnlinkAction::ReadConfig {
                        root: self.root.clone(),
                        dotdir: self.dotdirs[self.index].clone(),
                    }
                } else {
                    let i = self.index;
                    assert(i < self.dotdirs.len());
                    self.begin(i + 1)
                }
            },
            UnlinkStage::AwaitConfig => {
                let files = match event {
                    UnlinkEvent::Config(f) => f,
                    _ => ConfigFiles {
                        dotdir_file: crate::config::FileState::Absent,
                        root_file: crate::config::FileState::Absent,
                    },
                };
                let dd = self.dotdirs[self.index].as_str();
                let dotdir_path = join(self.root.as_str(), dd);
                match load(self.root.as_str(), dd, &files.dotdir_file, &files.root_file) {
                    Err(_) => {
                        self.stage = UnlinkStage::AwaitRemoved;
                        UnlinkAction::RemoveDir { path: dotdir_path }
                    },
                    Ok(cfg) => {
                        let repo_dotdir = cfg.repo_dotdir_path(self.root.as_str(), dd);
                        self.stage = UnlinkStage::AwaitRestored;
                        UnlinkAction::Restore { dotdir_path, repo_dotdir }
                    },
                }
            },
            UnlinkStage::AwaitRestored => {
                let names = match event {
                    UnlinkEvent::Restored(v) => v,
                    _ => Vec::new(),
                };
                if names.len() == 0 {
                    self.stage = UnlinkStage::AwaitCleanup;
                    self.cleanup()
                } else {
                    let dd = self.dotdirs[self.index].as_str();
                    let mut lines: Vec<String> = Vec::new();
                    let n = names.len();
                    let ghost f = |x: Seq<char>| "  restored: "@ + dd@ + "/"@ + x;
                    proof {
                        reveal_strlit("  ");
                        reveal_strlit("restored");
                        reveal_strlit(": ");
                        reveal_strlit("  restored: ");
                        assert("  "@ + "restored"@ + ": "@ =~= "  restored: "@);
                    }
                    for k in 0..n
                        invariant
                            n == names@.len(),
                            f == (|x: Seq<char>| "  restored: "@ + dd@ + "/"@ + x),
                            "  "@ + "restored"@ + ": "@ == "  restored: "@,
                            views(lines@) == views(names@).take(k as int).map_values(f),
                    {
                        let ghost before = views(lines@);
                        let line = report_line("restored", dd, names[k].as_str());
                        lines.push(line);
                        assert(views(names@).take(k + 1) =~= views(names@).take(k as int).push(
                            names@[k as int]@,
                        ));
                        proof {
                            assert(line@ =~= f(names@[k as int]@));
                            views(names@).take(k as int).lemma_push_map_commute(f, names@[k as int]@);
                        }
                        assert(views(lines@) =~= before.push(line@));
                    }
                    assert(views(names@).take(n as int) =~= views(names@));
                    self.stage = UnlinkStage::AwaitRestoredPrinted;
                    UnlinkAction::Print(join_strings(&lines, "\n"))
                }
            },
            UnlinkStage::AwaitRestoredPrinted => {
                self.stage = UnlinkStage::AwaitCleanup;
                self.cleanup()
            },
            UnlinkStage::AwaitRemoved | UnlinkStage::AwaitCleanup => {
                self.stage = UnlinkStage::AwaitUnlinkedPrinted;
                UnlinkAction::Print(concat2("Unlinked ", self.dotdirs[self.index].as_str()))
            },
            UnlinkStage::AwaitUnlinkedPrinted => {
                let i = self.index;
                assert(i < self.dotdirs.len());
                self.begin(i + 1)
            },
            UnlinkStage::Finished => UnlinkAction::Finish(Ok(())),
        }
    }

    fn cleanup(&self) -> (res: UnlinkAction)
        requires
            self.index < self.dotdirs@.len(),
        ensures
            cleans(*self, res),
    {
        let dotdir_path = join(self.root.as_str(), self.dotdirs[self.index].as_str());
        let config_path = join(dotdir_path.as_str(), CONFIG_FILE);
        let gitignore_path = join(dotdir_path.as_str(), ".gitignore");
        UnlinkAction::Cleanup { dotdir_path, config_path, gitignore_path }
    }
}

/// The action cleans up the current dotdir.
pub open spec fn cleans(s: UnlinkSession, a: UnlinkAction) -> bool {
    let dp = join_spec(s.root@, s.dotdirs@[s.index as int]@);
    a matches UnlinkAction::Cleanup { dotdir_path, config_path, gitignore_path } && dotdir_path@
        == dp && config_path@ == config_path_spec(dp) && gitignore_path@ == join_spec(
        dp,
        ".gitignore"@,
    )
}

/// What a step that is not a failure does.
pub open spec fn unlink_step_ok(s: UnlinkSession, e: UnlinkEvent, t: UnlinkSession, a: UnlinkAction) -> bool {
    let dd = s.dotdirs@[s.index as int]@;
    let dotdir_path = join_spec(s.root@, dd);
    let same = t.root == s.root && t.dotdirs == s.dotdirs && t.index == s.index;
    match s.stage {
        UnlinkStage::Start => t.stage == UnlinkStage::AwaitRoot && a is FindProjectRoot,
        UnlinkStage::AwaitRoot => match e {
            UnlinkEvent::Root(Some(r)) => t.root == r && match s.dotdir {
                Some(d) => t.dotdirs@ == seq![d] && begins(t, 0, t, a),
                None => t.stage == UnlinkStage::AwaitDotdirs && (a matches UnlinkAction::DiscoverDotdirs {
                    root,
                } && root@ == r@),
            },
            _ => t.stage == UnlinkStage::Finished && unlink_fails(
                a,
                "Could not find project root (.git)."@,
            ),
        },
        UnlinkStage::AwaitDotdirs => match e {
            UnlinkEvent::Dotdirs(v) => t.dotdirs == v && begins(s, 0, t, a),
            _ => false,
        },
        UnlinkStage::AwaitExists => match e {
            UnlinkEvent::Exists(true) => same && t.stage == UnlinkStage::AwaitConfig && (
            a matches UnlinkAction::ReadConfig { root, dotdir } && root@ == s.root@ && dotdir@
                == dd),
            _ => t.dotdirs == s.dotdirs && begins(s, s.index + 1, t, a),
        },
        UnlinkStage::AwaitConfig => match e {
            UnlinkEvent::Config(f) => same && match load_spec(
                s.root@,
                dd,
                f.dotdir_file,
                f.root_file,
            ) {
                Err(_) => t.stage == UnlinkStage::AwaitRemoved && (a matches UnlinkAction::RemoveDir {
                    path,
                } && path@ == dotdir_path),
                Ok((repo, dir)) => t.stage == UnlinkStage::AwaitRestored && (
                a matches UnlinkAction::Restore { dotdir_path: p, repo_dotdir } && p@ == dotdir_path
                    && repo_dotdir@ == join_spec(repo_project_spec(repo, dir), dd)),
            },
            _ => false,
        },
        UnlinkStage::AwaitRestored => match e {
            UnlinkEvent::Restored(names) => same && if names@.len() == 0 {
                t.stage == UnlinkStage::AwaitCleanup && cleans(s, a)
            } else {
                t.stage == UnlinkStage::AwaitRestoredPrinted && (a matches UnlinkAction::Print(l)
                    && l@ == restored_lines(dd, views(names@)))
            },
            _ => false,
        },
        UnlinkStage::AwaitRestoredPrinted => same && t.stage == UnlinkStage::AwaitCleanup && cleans(s, a),
        UnlinkStage::AwaitRemoved | UnlinkStage::AwaitCleanup => same && t.stage
            == UnlinkStage::AwaitUnlinkedPrinted && (a matches UnlinkAction::Print(l) && l@
            == "Unlinked "@ + dd),
        UnlinkStage::AwaitUnlinkedPrinted => t.dotdirs == s.dotdirs && begins(s, s.index + 1, t, a),
        UnlinkStage::Finished => false,
    }
}

/// `unlink` gives a dotdir's files back before it stops managing it: its
/// configuration and links are cleaned up only right after its files were
/// restored from the repo (and reported); the files are restored only when its
/// configuration loads; and the dotdir is removed as a whole only when it does not.
pub proof fn lemma_unlink_restores_before_cleanup(
    s: UnlinkSession,
    e: UnlinkEvent,
    t: UnlinkSession,
    a: UnlinkAction,
)
    requires
        unlink_step_ok(s, e, t, a),
    ensures
        a is Cleanup ==> s.stage == UnlinkStage::AwaitRestored || s.stage
            == UnlinkStage::AwaitRestoredPrinted,
        a is Restore ==> s.stage == UnlinkStage::AwaitConfig && (e matches UnlinkEvent::Config(f)
            && load_spec(s.root@, s.dotdirs@[s.index as int]@, f.dotdir_file, f.root_file) is Ok),
        a is RemoveDir ==> s.stage == UnlinkStage::AwaitConfig && (e matches UnlinkEvent::Config(f)
            && load_spec(s.root@, s.dotdirs@[s.index as int]@, f.dotdir_file, f.root_file) is Err),
{
}

/// `unlink` takes every dotdir of its list, in order: after `Unlinked <d>`
/// for the dotdir at `i`, the next action checks the dotdir at `i + 1`; the
/// run ends, successfully, only after the last one.
pub proof fn lemma_unlink_takes_every_dotdir(s: UnlinkSession, e: UnlinkEvent, t: UnlinkSession, a: UnlinkAction)
    requires
        s.stage == UnlinkStage::AwaitUnlinkedPrinted,
        unlink_step_ok(s, e, t, a),
    ensures
        s.index + 1 < s.dotdirs@.len() ==> t.index == s.index + 1 && t.dotdirs == s.dotdirs && (
        a matches UnlinkAction::CheckDotdir { path } && path@ == join_spec(
            s.root@,
            s.dotdirs@[s.index + 1]@,
        )),
        s.index + 1 >= s.dotdirs@.len() ==> (a matches UnlinkAction::Finish(Ok(()))),
{
}

/// `unlink` starts on the first dotdir of its list, and handles each dotdir
/// in turn: one that does not exist is passed over; for one that exists its
/// configuration is read; then it is restored and cleaned up (or removed
/// whole), and `Unlinked <d>` is printed for it.
pub proof fn lemma_unlink_handles_each_dotdir(s: UnlinkSession, e: UnlinkEvent, t: UnlinkSession, a: UnlinkAction)
    requires
        unlink_step_ok(s, e, t, a),
    ensures
        s.stage == UnlinkStage::AwaitDotdirs ==> (e matches UnlinkEvent::Dotdirs(v) ==> (v@.len() > 0
            ==> t.index == 0 && t.dotdirs == v && (a matches UnlinkAction::CheckDotdir { path }
            && path@ == join_spec(s.root@, v@[0]@)))),
        s.stage == UnlinkStage::AwaitExists ==> (e matches UnlinkEvent::Exists(true) ==> t.index
            == s.index && (a matches UnlinkAction::ReadConfig { root, dotdir } && root@ == s.root@
            && dotdir@ == s.dotdirs@[s.index as int]@)),
        s.stage == UnlinkStage::AwaitExists ==> (e matches UnlinkEvent::Exists(false) ==> (
        s.index + 1 < s.dotdirs@.len() ==> t.index == s.index + 1 && (
        a matches UnlinkAction::CheckDotdir { path } && path@ == join_spec(
            s.root@,
            s.dotdirs@[s.index + 1]@,
        )))),
        s.stage == UnlinkStage::AwaitRemoved || s.stage == UnlinkStage::AwaitCleanup ==> t.index
            == s.index && (a matches UnlinkAction::Print(l) && l@ == "Unlinked "@
            + s.dotdirs@[s.index as int]@),
{
}

} // verus!

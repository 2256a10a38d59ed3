//! The `list` command as a state machine: each managed dotdir is printed with
//! the path of its repo side, colored by how much of that path exists.
use vstd::prelude::*;
use crate::cli::{colorable, colored_spec, format_repo_path_colored, no_dotdirs_msg, scan_root};
use crate::config::{repo_project_spec, DotdirConfig};
use crate::path::{components, join_spec};
use crate::text::{concat3, owned};

verus! {

/// Where a listing stands.
#[derive(Debug, Clone, Copy, PartialEq, Eq, Structural)]
pub enum ListStage {
    Start,
    AwaitRoot,
    AwaitConfigs,
    AwaitProbe,
    AwaitPrinted,
    Finished,
}

/// What the outside reports back.
#[derive(Debug)]
pub enum ListEvent {
    /// The listing starts, or the last line was printed.
    Next,
    /// The project root found above the current directory, if any.
    Root(Option<String>),
    /// The managed dotdirs and their configurations.
    Configs(Vec<(String, DotdirConfig)>),
    /// Whether `<repo_project>/<dotdir>` exists, and which of
    /// `repo_path_prefixes(repo_project, dotdir)` exist.
    PathProbe { full_exists: bool, prefix_exists: Vec<bool> },
    /// The last action failed, with this message.
    Failed(String),
}

/// What the outside is to do next.
#[derive(Debug)]
pub enum ListAction {
    FindProjectRoot,
    LoadConfigs { root: String },
    /// Check which parts of `<repo_project>/<dotdir>` exist.
    ProbeRepoPath { repo_project: String, dotdir: String },
    Print(String),
    Finish(Result<(), String>),
}

/// A run of `list`.
pub struct ListSession {
    pub stage: ListStage,
    pub root: String,
    pub configs: Vec<(String, DotdirConfig)>,
    /// The dotdir being listed.
    pub index: usize,
}

/// The repo project path of the `i`-th configuration.
pub open spec fn repo_project_of(configs: Seq<(String, DotdirConfig)>, i: int) -> Seq<char> {
    repo_project_spec(configs[i].1.repo_spec(), configs[i].1.dir())
}

/// The event is of the kind that the stage awaits.
pub open spec fn list_awaits(stage: ListStage, e: ListEvent) -> bool {
    match stage {
        ListStage::Start | ListStage::AwaitPrinted => e is Next || e is Failed,
        ListStage::AwaitRoot => e is Root || e is Failed,
        ListStage::AwaitConfigs => e is Configs || e is Failed,
        ListStage::AwaitProbe => e is PathProbe || e is Failed,
        ListStage::Finished => false,
    }
}

/// The listing is working through its configurations.
pub open spec fn listing(s: ListSession) -> bool {
    (s.stage == ListStage::AwaitProbe || s.stage == ListStage::AwaitPrinted) ==> s.index
        < s.configs@.len()
}

/// The two lines printed for the `i`-th dotdir: its name, and its repo side.
pub open spec fn list_lines(
    configs: Seq<(String, DotdirConfig)>,
    i: int,
    full_exists: bool,
    prefix_exists: Seq<bool>,
) -> Seq<char> {
    let dd = configs[i].0@;
    dd + "\n  ->  "@ + colored_spec(repo_project_of(configs, i), dd, full_exists, prefix_exists)
}

impl ListSession {
    pub fn new() -> (res: Self)
        ensures
            res.stage == ListStage::Start,
    {
        ListSession { stage: ListStage::Start, root: String::new(), configs: Vec::new(), index: 0 }
    }

    /// Takes the outcome of the last action and gives the next action.
    pub fn step(&mut self, event: ListEvent) -> (res: ListAction)
        requires
            list_awaits(old(self).stage, event),
            listing(*old(self)),
            old(self).stage == ListStage::AwaitProbe ==> (event matches ListEvent::PathProbe {
                full_exists,
                prefix_exists,
            } ==> prefix_exists@.len() == components(
                join_spec(
                    repo_project_of(old(self).configs@, old(self).index as int),
                    old(self).configs@[old(self).index as int].0@,
                ),
            ).len() && colorable(
                repo_project_of(old(self).configs@, old(self).index as int),
                old(self).configs@[old(self).index as int].0@,
                full_exists,
                prefix_exists@,
            )),
        ensures
            listing(*final(self)),
            match event {
                ListEvent::Failed(m) => final(self).stage == ListStage::Finished && list_fails(res, m@),
                _ => list_step_ok(*old(self), event, *final(self), res),
            },
    {
        if let ListEvent::Failed(m) = event {
            self.stage = ListStage::Finished;
            return ListAction::Finish(Err(m));
        }
        match self.stage {
            ListStage::Start => {
                self.stage = ListStage::AwaitRoot;
                ListAction::FindProjectRoot
            },
            ListStage::AwaitRoot => {
                let found = match event {
                    ListEvent::Root(r) => r,
                    _ => None,
                };
                match scan_root(found) {
                    Ok(r) => {
                        self.root = r.clone();
                        self.stage = ListStage::AwaitConfigs;
                        ListAction::LoadConfigs { root: r }
                    },
                    Err(e) => {
                        self.stage = ListStage::Finished;
                        ListAction::Finish(Err(e.message))
                    },
                }
            },
            ListStage::AwaitConfigs => {
                let cs = match event {
                    ListEvent::Configs(cs) => cs,
                    _ => Vec::new(),
                };
                if cs.len() == 0 {
                    self.stage = ListStage::Finished;
                    return ListAction::Finish(
                        Err(owned("No managed dotdirs found. Run 'tt init' first.")),
                    );
                }
                self.configs = cs;
                self.index = 0;
                self.stage = ListStage::AwaitProbe;
                ListAction::ProbeRepoPath {
                    repo_project: self.configs[0].1.repo_project_path(),
                    dotdir: self.configs[0].0.clone(),
                }
            },
            ListStage::AwaitProbe => {
                let (full_exists, prefix_exists) = match event {
                    ListEvent::PathProbe { full_exists, prefix_exists } => (full_exists, prefix_exists),
                    _ => (false, Vec::new()),
                };
                let i = self.index;
                let repo_project = self.configs[i].1.repo_project_path();
                let dd = &self.configs[i].0;
                let colored = format_repo_path_colored(
                    repo_project.as_str(),
                    dd.as_str(),
                    full_exists,
                    &prefix_exists,
                );
                self.stage = ListStage::AwaitPrinted;
                let line = concat3(dd.as_str(), "\n  ->  ", colored.as_str());
                ListAction::Print(line)
            },
            ListStage::AwaitPrinted => {
                if self.index < self.configs.len() - 1 {
                    self.index = self.index + 1;
                    self.stage = ListStage::AwaitProbe;
                    ListAction::ProbeRepoPath {
                        repo_project: self.configs[self.index].1.repo_project_path(),
                        dotdir: self.configs[self.index].0.clone(),
                    }
                } else {
                    self.stage = ListStage::Finished;
                    ListAction::Finish(Ok(()))
                }
            },
            ListStage::Finished => ListAction::Finish(Ok(())),
        }
    }
}

/// The action asks to probe the repo side of the `i`-th dotdir.
pub open spec fn probes(a: ListAction, configs: Seq<(String, DotdirConfig)>, i: int) -> bool {
    a matches ListAction::ProbeRepoPath { repo_project, dotdir } && repo_project@
        == repo_project_of(configs, i) && dotdir@ == configs[i].0@
}

/// The action ends the listing with the error `m`.
pub open spec fn list_fails(a: ListAction, m: Seq<char>) -> bool {
    a matches ListAction::Finish(Err(x)) && x@ == m
}

/// What a step that is not a failure does.
pub open spec fn list_step_ok(s: ListSession, e: ListEvent, t: ListSession, a: ListAction) -> bool {
    match s.stage {
        ListStage::Start => t.stage == ListStage::AwaitRoot && a is FindProjectRoot,
        ListStage::AwaitRoot => match e {
            ListEvent::Root(Some(r)) => t.stage == ListStage::AwaitConfigs && t.root@ == r@
                && (a matches ListAction::LoadConfigs { root } && root@ == r@),
            _ => t.stage == ListStage::Finished && list_fails(
                a,
                "Could not find project root (.git)."@,
            ),
        },
        ListStage::AwaitConfigs => match e {
            ListEvent::Configs(cs) => if cs@.len() == 0 {
                t.stage == ListStage::Finished && list_fails(a, no_dotdirs_msg())
            } else {
                &&& t.stage == ListStage::AwaitProbe
                &&& t.configs@ == cs@
                &&& t.index == 0
                &&& probes(a, cs@, 0)
            },
            _ => false,
        },
        ListStage::AwaitProbe => match e {
            ListEvent::PathProbe { full_exists, prefix_exists } => {
                &&& t.stage == ListStage::AwaitPrinted
                &&& t.configs == s.configs
                &&& t.index == s.index
                &&& a matches ListAction::Print(l) && l@ == list_lines(
                    s.configs@,
                    s.index as int,
                    full_exists,
                    prefix_exists@,
                )
            },
            _ => false,
        },
        ListStage::AwaitPrinted => if s.index + 1 < s.configs@.len() {
            &&& t.stage == ListStage::AwaitProbe
            &&& t.configs == s.configs
            &&& t.index == s.index + 1
            &&& probes(a, s.configs@, s.index + 1)
        } else {
            t.stage == ListStage::Finished && (a matches ListAction::Finish(Ok(())))
        },
        ListStage::Finished => false,
    }
}

} // verus!

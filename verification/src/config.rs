//! Per-dotdir configuration: where the repo side of a dotdir lives, how a
//! configuration is chosen, and what is written into a configuration file.
use vstd::prelude::*;
use crate::path::{
    components, has_root, is_relative, is_relative_spec, join, join_spec, lemma_normalized_components,
    normalize_path, normalized, Comp,
};
use crate::text::{concat3, owned, push_char, views};

verus! {

broadcast use vstd::seq_lib::group_seq_properties;

/// Name of the configuration file kept in a dotdir and in a project root.
pub const CONFIG_FILE: &'static str = ".hippocampus.toml";

/// What a dotdir's `.gitignore` holds: everything is ignored.
pub const DOTDIR_GITIGNORE: &'static str = "*\n";

// ----------------------------------------------------------------------------
// Escaping for TOML basic strings
// ----------------------------------------------------------------------------

/// What one character becomes inside a TOML basic string: a backslash and a
/// double quote are escaped with a backslash.
pub open spec fn escape_char(c: char) -> Seq<char> {
    if c == '\\' {
        seq!['\\', '\\']
    } else if c == '"' {
        seq!['\\', '"']
    } else {
        seq![c]
    }
}

/// `s` with each backslash and double quote escaped.
pub open spec fn escaped(s: Seq<char>) -> Seq<char>
    decreases s.len(),
{
    if s.len() == 0 {
        Seq::empty()
    } else {
        escape_char(s[0]) + escaped(s.skip(1))
    }
}

/// How a TOML basic string reads back its escapes `\\` and `\"`: a backslash
/// stands for the character after it.
pub open spec fn unescaped(s: Seq<char>) -> Seq<char>
    decreases s.len(),
{
    if s.len() == 0 {
        Seq::empty()
    } else if s[0] == '\\' && s.len() >= 2 {
        seq![s[1]] + unescaped(s.skip(2))
    } else {
        seq![s[0]] + unescaped(s.skip(1))
    }
}

proof fn lemma_escaped_push(s: Seq<char>, c: char)
    ensures
        escaped(s.push(c)) == escaped(s) + escape_char(c),
    decreases s.len(),
{
    if s.len() == 0 {
        assert(s.push(c).skip(1) =~= Seq::<char>::empty());
        assert(s.push(c)[0] == c);
        assert(escaped(Seq::<char>::empty()) =~= Seq::<char>::empty());
        assert(escaped(s.push(c)) =~= escape_char(c) + escaped(Seq::<char>::empty()));
        assert(escaped(s) =~= Seq::<char>::empty());
    } else {
        lemma_escaped_push(s.skip(1), c);
        assert(s.push(c).skip(1) =~= s.skip(1).push(c));
        assert(escaped(s.push(c)) =~= escaped(s) + escape_char(c));
    }
}

/// Reading back an escaped string gives the string that was escaped.
pub proof fn lemma_unescape_escaped(s: Seq<char>)
    ensures
        unescaped(escaped(s)) == s,
    decreases s.len(),
{
    if s.len() > 0 {
        lemma_unescape_escaped(s.skip(1));
        let e = escaped(s);
        let rest = escaped(s.skip(1));
        let c = s[0];
        if c == '\\' || c == '"' {
            assert(e =~= seq!['\\', c] + rest);
            assert(e.skip(2) =~= rest);
        } else {
            assert(e =~= seq![c] + rest);
            assert(e.skip(1) =~= rest);
        }
        assert(s =~= seq![c] + s.skip(1));
    }
}

/// In an escaped string every double quote follows a backslash.
pub proof fn lemma_escaped_quotes(s: Seq<char>)
    ensures
        forall|i: int| 0 <= i < escaped(s).len() && #[trigger] escaped(s)[i] == '"' ==> i > 0
            && escaped(s)[i - 1] == '\\',
    decreases s.len(),
{
    if s.len() > 0 {
        lemma_escaped_quotes(s.skip(1));
        let e = escaped(s);
        let h = escape_char(s[0]);
        let rest = escaped(s.skip(1));
        assert(e =~= h + rest);
        assert forall|i: int| 0 <= i < e.len() && #[trigger] e[i] == '"' implies i > 0 && e[i - 1] == '\\' by {
            if i >= h.len() {
                let k = i - h.len();
                assert(rest[k] == '"');
                if k == 0 {
                    assert(h.last() == '\\' || h.last() == '"' || h.len() == 1);
                    if h.len() == 1 {
                        assert(h[0] == s[0]);
                    }
                }
            }
        }
    }
}

/// Escapes backslashes and double quotes for a TOML basic string.
pub fn escape_toml_basic_string(value: &str) -> (res: String)
    ensures
        res@ == escaped(value@),
{
    let mut res = String::new();
    let ghost mut done: Seq<char> = Seq::empty();
    proof {
        assert(escaped(done) =~= Seq::<char>::empty());
    }
    for c in it: value.chars()
        invariant
            it.seq() == value@,
            done == it.seq().take(it.index() as int),
            res@ == escaped(done),
    {
        proof {
            lemma_escaped_push(done, c);
        }
        if c == '\\' {
            push_char(&mut res, '\\');
            push_char(&mut res, '\\');
        } else if c == '"' {
            push_char(&mut res, '\\');
            push_char(&mut res, '"');
        } else {
            push_char(&mut res, c);
        }
        proof {
            assert(res@ =~= escaped(done) + escape_char(c));
            done = done.push(c);
            assert(done =~= it.seq().take(it.index() + 1));
        }
    }
    proof {
        assert(done =~= value@);
    }
    res
}

/// The text of a dotdir configuration file that names `repo`.
pub open spec fn config_text(repo: Seq<char>) -> Seq<char> {
    "repo = \""@ + escaped(repo) + "\"\n"@
}

/// The path of the configuration file in the directory `dir`.
pub open spec fn config_path_spec(dir: Seq<char>) -> Seq<char> {
    join_spec(dir, CONFIG_FILE@)
}

/// A file that is to be written: where, and what it holds.
#[derive(Debug)]
pub struct FileWrite {
    pub path: String,
    pub content: String,
}

/// The configuration file to write for a dotdir at `dotdir_path` whose repo
/// side is `repo`: `repo = "<repo>"` with the value escaped, and a newline.
pub fn create_dotdir_config(dotdir_path: &str, repo: &str) -> (res: FileWrite)
    ensures
        res.path@ == config_path_spec(dotdir_path@),
        res.content@ == config_text(repo@),
{
    let path = join(dotdir_path, CONFIG_FILE);
    let body = escape_toml_basic_string(repo);
    let content = concat3("repo = \"", body.as_str(), "\"\n");
    FileWrite { path, content }
}

/// The `.gitignore` to write into a dotdir, unless one is there already.
pub fn ensure_dotdir_gitignore(dotdir_path: &str, gitignore_exists: bool) -> (res: Option<
    FileWrite,
>)
    ensures
        gitignore_exists ==> res is None,
        !gitignore_exists ==> (res matches Some(w) && w.path@ == join_spec(
            dotdir_path@,
            ".gitignore"@,
        ) && w.content@ == DOTDIR_GITIGNORE@),
{
    if gitignore_exists {
        None
    } else {
        Some(FileWrite { path: join(dotdir_path, ".gitignore"), content: owned(DOTDIR_GITIGNORE) })
    }
}

// ----------------------------------------------------------------------------
// Configuration values and how one is chosen
// ----------------------------------------------------------------------------

/// Per-dotdir config stored in `<dotdir>/.hippocampus.toml`: the repo-side
/// project path, and the directory that a relative `repo` is read from.
#[derive(Debug, Clone)]
pub struct DotdirConfig {
    pub repo: String,
    config_dir: String,
}

/// The contents of a per-dotdir configuration file.
#[derive(Debug, Clone)]
pub struct RawDotdirConfig {
    pub repo: String,
}

/// The value of a section of the project-root configuration: a table, with the
/// string under its key `repo` if there is one, or anything else.
#[derive(Debug, Clone)]
pub enum SectionValue {
    Table { repo: Option<String> },
    Other,
}

/// One top-level key of the project-root configuration other than `repo`.
#[derive(Debug, Clone)]
pub struct RootSection {
    pub name: String,
    pub value: SectionValue,
}

/// The project-root configuration: a default `repo`, and per-dotdir sections.
/// Section names are distinct.
#[derive(Debug, Clone)]
pub struct RootConfig {
    pub repo: Option<String>,
    pub sections: Vec<RootSection>,
}

/// What became of looking for a configuration file.
#[derive(Debug, Clone)]
pub enum FileState<T> {
    Absent,
    ReadFailed(String),
    ParseFailed(String),
    Loaded(T),
}

/// Why no configuration could be loaded for a dotdir.
#[derive(Debug, Clone)]
pub enum LoadError {
    ReadDotdirConfig { path: String, cause: String },
    ParseDotdirConfig { path: String, cause: String },
    ReadRootConfig { cause: String },
    ParseRootConfig { cause: String },
    NotFound { dotdir: String },
}

impl DotdirConfig {
    /// The directory that a relative `repo` is read from.
    pub closed spec fn dir(&self) -> Seq<char> {
        self.config_dir@
    }

    /// The repo path as written in the configuration.
    pub closed spec fn repo_spec(&self) -> Seq<char> {
        self.repo@
    }

    /// A configuration naming `repo`, read relative to `config_dir`.
    pub fn new(repo: String, config_dir: String) -> (res: Self)
        ensures
            res.repo_spec() == repo@,
            res.dir() == config_dir@,
    {
        DotdirConfig { repo, config_dir }
    }

    /// The directory that a relative `repo` is read from.
    pub fn config_dir(&self) -> (res: &String)
        ensures
            res@ == self.dir(),
    {
        &self.config_dir
    }

    /// Resolve the repo project path stored in this config: a relative value is
    /// read from the configuration's directory, and `.` and `..` are resolved.
    /// When the value or the directory is absolute, so is the result, and it
    /// has no `.` or `..` component left.
    pub fn repo_project_path(&self) -> (res: String)
        ensures
            res@ == repo_project_spec(self.repo_spec(), self.dir()),
            has_root(self.dir()) || has_root(self.repo_spec()) ==> has_root(res@) && forall|i: int|
                0 <= i < components(res@).len() ==> #[trigger] components(res@)[i] != Comp::Cur
                    && components(res@)[i] != Comp::Parent,
    {
        let raw = if is_relative(self.repo.as_str()) {
            join(self.config_dir.as_str(), self.repo.as_str())
        } else {
            self.repo.clone()
        };
        proof {
            if has_root(self.config_dir@) && !has_root(self.repo@) {
                assert(raw@[0] == self.config_dir@[0]);
            }
            lemma_normalized_components(raw@);
        }
        normalize_path(raw.as_str())
    }

    /// Resolve the repo-side path for this dotdir: the repo project path joined with `dotdir`.
    pub fn repo_dotdir_path(&self, _project_root: &str, dotdir: &str) -> (res: String)
        ensures
            res@ == join_spec(repo_project_spec(self.repo_spec(), self.dir()), dotdir@),
    {
        let repo_abs = self.repo_project_path();
        join(repo_abs.as_str(), dotdir)
    }
}

/// The repo project path that a configuration with `repo` read in `dir` names.
pub open spec fn repo_project_spec(repo: Seq<char>, dir: Seq<char>) -> Seq<char> {
    normalized(
        if is_relative_spec(repo) {
            join_spec(dir, repo)
        } else {
            repo
        },
    )
}

/// The `repo` of the first section named `name`, when that section is a table
/// with a string `repo`.
pub open spec fn section_repo(sections: Seq<RootSection>, name: Seq<char>) -> Option<Seq<char>>
    decreases sections.len(),
{
    if sections.len() == 0 {
        None
    } else if sections[0].name@ == name {
        match sections[0].value {
            SectionValue::Table { repo: Some(r) } => Some(r@),
            _ => None,
        }
    } else {
        section_repo(sections.skip(1), name)
    }
}

/// The repo that the project-root configuration gives a dotdir: its section's
/// `repo`, or else the top-level `repo`.
pub open spec fn root_repo_for(root: RootConfig, dotdir: Seq<char>) -> Option<Seq<char>> {
    match section_repo(root.sections@, dotdir) {
        Some(r) => Some(r),
        None => match root.repo {
            Some(r) => Some(r@),
            None => None,
        },
    }
}

fn find_section_repo(sections: &Vec<RootSection>, name: &str) -> (res: Option<String>)
    ensures
        res matches Some(r) ==> section_repo(sections@, name@) == Some(r@),
        res is None ==> section_repo(sections@, name@) is None,
{
    let n = sections.len();
    for i in 0..n
        invariant
            n == sections@.len(),
            section_repo(sections@, name@) == section_repo(sections@.skip(i as int), name@),
    {
        assert(sections@.skip(i as int)[0] == sections@[i as int]);
        assert(sections@.skip(i as int).skip(1) =~= sections@.skip(i + 1));
        if crate::text::str_eq(sections[i].name.as_str(), name) {
            return match &sections[i].value {
                SectionValue::Table { repo: Some(r) } => Some(r.clone()),
                _ => None,
            };
        }
    }
    assert(sections@.skip(n as int).len() == 0);
    None
}

/// The path of the configuration file of `dotdir` under `project_root`.
pub fn dotdir_config_path(project_root: &str, dotdir: &str) -> (res: String)
    ensures
        res@ == config_path_spec(join_spec(project_root@, dotdir@)),
{
    let d = join(project_root, dotdir);
    join(d.as_str(), CONFIG_FILE)
}

/// The path of the project-root configuration file.
pub fn root_config_path(project_root: &str) -> (res: String)
    ensures
        res@ == config_path_spec(project_root@),
{
    join(project_root, CONFIG_FILE)
}

/// Why loading failed, as a mathematical value.
pub enum LoadFailure {
    ReadDotdirConfig { path: Seq<char>, cause: Seq<char> },
    ParseDotdirConfig { path: Seq<char>, cause: Seq<char> },
    ReadRootConfig { cause: Seq<char> },
    ParseRootConfig { cause: Seq<char> },
    NotFound { dotdir: Seq<char> },
}

impl View for LoadError {
    type V = LoadFailure;

    open spec fn view(&self) -> LoadFailure {
        match self {
            LoadError::ReadDotdirConfig { path, cause } => LoadFailure::ReadDotdirConfig {
                path: path@,
                cause: cause@,
            },
            LoadError::ParseDotdirConfig { path, cause } => LoadFailure::ParseDotdirConfig {
                path: path@,
                cause: cause@,
            },
            LoadError::ReadRootConfig { cause } => LoadFailure::ReadRootConfig { cause: cause@ },
            LoadError::ParseRootConfig { cause } => LoadFailure::ParseRootConfig { cause: cause@ },
            LoadError::NotFound { dotdir } => LoadFailure::NotFound { dotdir: dotdir@ },
        }
    }
}

/// The outcome of loading the configuration of `dotdir` under `root`: on
/// success the configured repo and the directory it is read from.
pub open spec fn load_spec(
    root: Seq<char>,
    dotdir: Seq<char>,
    dotdir_file: FileState<RawDotdirConfig>,
    root_file: FileState<RootConfig>,
) -> Result<(Seq<char>, Seq<char>), LoadFailure> {
    let own_path = config_path_spec(join_spec(root, dotdir));
    match dotdir_file {
        FileState::Loaded(raw) => Ok((raw.repo@, join_spec(root, dotdir))),
        FileState::ReadFailed(cause) => Err(
            LoadFailure::ReadDotdirConfig { path: own_path, cause: cause@ },
        ),
        FileState::ParseFailed(cause) => Err(
            LoadFailure::ParseDotdirConfig { path: own_path, cause: cause@ },
        ),
        FileState::Absent => match root_file {
            FileState::Loaded(rc) => match root_repo_for(rc, dotdir) {
                Some(r) => Ok((r, root)),
                None => Err(LoadFailure::NotFound { dotdir }),
            },
            FileState::ReadFailed(cause) => Err(LoadFailure::ReadRootConfig { cause: cause@ }),
            FileState::ParseFailed(cause) => Err(LoadFailure::ParseRootConfig { cause: cause@ }),
            FileState::Absent => Err(LoadFailure::NotFound { dotdir }),
        },
    }
}

/// Load config for a specific dotdir. Resolution order:
/// 1. `<dotdir>/.hippocampus.toml` (primary)
/// 2. `<project_root>/.hippocampus.toml` with a `[<dotdir>]` section
/// 3. `<project_root>/.hippocampus.toml` top-level defaults
///
/// `dotdir_file` is what became of the dotdir's own file; `root_file` what
/// became of the project-root file, which is looked at only when the dotdir
/// has no file of its own.
pub fn load(
    project_root: &str,
    dotdir: &str,
    dotdir_file: &FileState<RawDotdirConfig>,
    root_file: &FileState<RootConfig>,
) -> (res: Result<DotdirConfig, LoadError>)
    ensures
        match res {
            Ok(c) => load_spec(project_root@, dotdir@, *dotdir_file, *root_file) == Ok::<
                (Seq<char>, Seq<char>),
                LoadFailure,
            >((c.repo_spec(), c.dir())),
            Err(e) => load_spec(project_root@, dotdir@, *dotdir_file, *root_file) == Err::<
                (Seq<char>, Seq<char>),
                LoadFailure,
            >(e@),
        },
{
    match dotdir_file {
        FileState::Loaded(raw) => {
            return Ok(DotdirConfig { repo: raw.repo.clone(), config_dir: join(project_root, dotdir) });
        },
        FileState::ReadFailed(cause) => {
            return Err(
                LoadError::ReadDotdirConfig {
                    path: dotdir_config_path(project_root, dotdir),
                    cause: cause.clone(),
                },
            );
        },
        FileState::ParseFailed(cause) => {
            return Err(
                LoadError::ParseDotdirConfig {
                    path: dotdir_config_path(project_root, dotdir),
                    cause: cause.clone(),
                },
            );
        },
        FileState::Absent => {},
    }
    match root_file {
        FileState::Loaded(root) => {
            if let Some(repo) = find_section_repo(&root.sections, dotdir) {
                return Ok(DotdirConfig { repo, config_dir: owned(project_root) });
            }
            if let Some(repo) = &root.repo {
                return Ok(DotdirConfig { repo: repo.clone(), config_dir: owned(project_root) });
            }
            Err(LoadError::NotFound { dotdir: owned(dotdir) })
        },
        FileState::ReadFailed(cause) => Err(LoadError::ReadRootConfig { cause: cause.clone() }),
        FileState::ParseFailed(cause) => Err(LoadError::ParseRootConfig { cause: cause.clone() }),
        FileState::Absent => Err(LoadError::NotFound { dotdir: owned(dotdir) }),
    }
}

impl LoadError {
    /// The message that the error is reported with.
    pub fn message(&self) -> (res: String)
        ensures
            match *self {
                LoadError::ReadDotdirConfig { path, .. } => res@ == "Failed to read "@ + path@,
                LoadError::ParseDotdirConfig { path, .. } => res@ == "Failed to parse "@ + path@,
                LoadError::ReadRootConfig { cause } => res@ == cause@,
                LoadError::ParseRootConfig { .. } => res@
                    == "Failed to parse root .hippocampus.toml"@,
                LoadError::NotFound { dotdir } => res@ == "No config found for '"@ + dotdir@
                    + "'. Run 'tatu init "@ + dotdir@ + " --repo <path>' first."@,
            },
    {
        match self {
            LoadError::ReadDotdirConfig { path, .. } => crate::text::concat2(
                "Failed to read ",
                path.as_str(),
            ),
            LoadError::ParseDotdirConfig { path, .. } => crate::text::concat2(
                "Failed to parse ",
                path.as_str(),
            ),
            LoadError::ReadRootConfig { cause } => cause.clone(),
            LoadError::ParseRootConfig { .. } => owned("Failed to parse root .hippocampus.toml"),
            LoadError::NotFound { dotdir } => {
                let mut m = concat3("No config found for '", dotdir.as_str(), "'. Run 'tatu init ");
                m.append(dotdir.as_str());
                m.append(" --repo <path>' first.");
                m
            },
        }
    }

    /// The underlying failure, where there is one.
    pub fn cause(&self) -> (res: Option<String>)
        ensures
            match *self {
                LoadError::ReadDotdirConfig { cause, .. } => res == Some(cause),
                LoadError::ParseDotdirConfig { cause, .. } => res == Some(cause),
                LoadError::ParseRootConfig { cause } => res == Some(cause),
                _ => res is None,
            },
    {
        match self {
            LoadError::ReadDotdirConfig { cause, .. } => Some(cause.clone()),
            LoadError::ParseDotdirConfig { cause, .. } => Some(cause.clone()),
            LoadError::ParseRootConfig { cause } => Some(cause.clone()),
            _ => None,
        }
    }
}

/// What `create_dotdir_config` writes for `repo` loads back as `repo`: when
/// the file holds `repo = "<body>"` as written, and the value is read as a
/// TOML basic string reads it (escapes undone), loading the dotdir gives
/// `repo`, read from the dotdir's directory.
pub proof fn lemma_written_config_loads(
    root: Seq<char>,
    dotdir: Seq<char>,
    repo: Seq<char>,
    body: Seq<char>,
    raw: RawDotdirConfig,
    root_file: FileState<RootConfig>,
)
    requires
        config_text(repo) == "repo = \""@ + body + "\"\n"@,
        raw.repo@ == unescaped(body),
    ensures
        load_spec(root, dotdir, FileState::Loaded(raw), root_file) == Ok::<
            (Seq<char>, Seq<char>),
            LoadFailure,
        >((repo, join_spec(root, dotdir))),
{
    reveal_strlit("repo = \"");
    reveal_strlit("\"\n");
    let t = config_text(repo);
    assert(t.subrange(8, t.len() - 2) =~= escaped(repo));
    assert(t.subrange(8, t.len() - 2) =~= body);
    lemma_unescape_escaped(repo);
}

} // verus!

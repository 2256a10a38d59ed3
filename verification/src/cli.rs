//! The command-line commands: their arguments, and the values that the
//! commands compute along the way (paths, messages, what is reported).
use vstd::prelude::*;
use crate::config::{repo_project_spec, DotdirConfig};
use crate::linker::{leads_back, relative_or_same, relative_or_same_path, walkable};
use crate::path::{
    ancestors_spec, comp_views, components, components_of, file_name, file_name_spec, is_relative,
    is_relative_spec, join, join_spec, normalized, render_comps, render_prefix,
};
use crate::text::{
    char_boundary, char_boundary_of, concat2, concat3, join_strings, joined, owned, utf8_len, utf8_len_of,
    utf8_width, views,
};
use crate::vcs::{detect_vcs, first_marked, search_start, Git};

verus! {

broadcast use vstd::seq_lib::group_seq_properties;

/// The subcommands of the tool.
#[derive(Debug, Clone)]
pub enum Commands {
    /// Initialize tt for dot-directories.
    Init { dotdir: Option<String>, repo: String, root: String },
    /// Commit and push changes to the repo.
    Push { message: Option<String> },
    /// Pull latest from repo and sync symlinks.
    Pull,
    /// Push local changes, then pull (stop on conflict).
    Sync { message: Option<String> },
    /// Show repo VCS status.
    Status,
    /// Show repo VCS diff.
    Diff,
    /// List dotdirs in repo.
    List,
    /// Remove dotdir from project, restoring files from repo.
    Unlink { dotdir: Option<String> },
}

/// Manage dot-directories via symlinks to a separate repo.
#[derive(Debug, Clone)]
pub struct Cli {
    pub command: Commands,
}

/// A failure of a command, with the message it is reported with.
#[derive(Debug, Clone)]
pub struct CliError {
    pub message: String,
}

pub open spec fn err_msg<T>(r: Result<T, CliError>) -> Seq<char> {
    match r {
        Err(e) => e.message@,
        Ok(_) => Seq::empty(),
    }
}

fn fail<T>(m: &str) -> (res: Result<T, CliError>)
    ensures
        res matches Err(e) && e.message@ == m@,
{
    Err(CliError { message: owned(m) })
}

/// The message when a command finds no managed dotdir.
pub open spec fn no_dotdirs_msg() -> Seq<char> {
    "No managed dotdirs found. Run 'tt init' first."@
}

/// The project root that the commands scan, from the search for `.git`
/// above the current directory.
pub fn scan_root(found: Option<String>) -> (res: Result<String, CliError>)
    ensures
        match found {
            Some(r) => res matches Ok(x) && x == r,
            None => res matches Err(e) && e.message@ == "Could not find project root (.git)."@,
        },
{
    match found {
        Some(r) => Ok(r),
        None => fail("Could not find project root (.git)."),
    }
}

/// The name of the project: the last component of the project root, or
/// `unnamed` when there is none.
pub open spec fn project_name_spec(root: Option<Seq<char>>) -> Seq<char> {
    match root {
        Some(r) => match file_name_spec(r) {
            Some(n) => n,
            None => "unnamed"@,
        },
        None => "unnamed"@,
    }
}

/// The name of the project, given the project root found (if any).
pub fn project_name(root: Option<&str>) -> (res: String)
    ensures
        res@ == project_name_spec(
            match root {
                Some(r) => Some(r@),
                None => None,
            },
        ),
{
    match root {
        Some(r) => match file_name(r) {
            Some(n) => n,
            None => owned("unnamed"),
        },
        None => owned("unnamed"),
    }
}

/// Returns the subdirectory name of a project within the plans repo:
/// the last component of the repo project path.
/// e.g. repo `../plans/hippocampus` gives `hippocampus`.
pub fn repo_subdir(cfg: &DotdirConfig) -> (res: Result<String, CliError>)
    ensures
        match file_name_spec(repo_project_spec(cfg.repo_spec(), cfg.dir())) {
            Some(n) => res matches Ok(x) && x@ == n,
            None => res matches Err(e) && e.message@ == "repo path has no file name component"@,
        },
{
    let p = cfg.repo_project_path();
    match file_name(p.as_str()) {
        Some(n) => Ok(n),
        None => fail("repo path has no file name component"),
    }
}

/// The message when the repo side of a configuration does not exist.
pub open spec fn missing_repo_msg(repo_path: Seq<char>) -> Seq<char> {
    "Repo side: path does not exist: "@ + repo_path + "\nCheck the 'repo' value in .hippocampus.toml"@
}

/// The message that names the repo path when it does not exist.
pub fn missing_repo_message(repo_path: &str) -> (res: String)
    ensures
        res@ == missing_repo_msg(repo_path@),
{
    concat3(
        "Repo side: path does not exist: ",
        repo_path,
        "\nCheck the 'repo' value in .hippocampus.toml",
    )
}

/// Get the VCS repo root and backend from a dotdir config: the repo project
/// path must exist (`exists`), and the root is the nearest directory at or
/// above it, read from `cwd`, that holds a `.git`: `has_git[i]` tells whether
/// the `i`-th of `vcs_search_dirs(<repo project path>, cwd)` does.
pub fn repo_root_from_config(cfg: &DotdirConfig, exists: bool, cwd: &str, has_git: &Vec<bool>) -> (res:
    Result<(String, Git), CliError>)
    requires
        exists ==> has_git@.len() == ancestors_spec(
            search_start(repo_project_spec(cfg.repo_spec(), cfg.dir()), cwd@),
        ).len(),
    ensures
        ({
            let p = repo_project_spec(cfg.repo_spec(), cfg.dir());
            if !exists {
                res matches Err(e) && e.message@ == missing_repo_msg(p)
            } else {
                match first_marked(has_git@) {
                    Some(i) => res matches Ok((root, _)) && root@ == ancestors_spec(
                        search_start(p, cwd@),
                    )[i],
                    None => res matches Err(e) && e.message@ == "Repo side: no git repository found at "@
                        + p,
                }
            }
        }),
{
    let repo_path = cfg.repo_project_path();
    if !exists {
        return Err(CliError { message: missing_repo_message(repo_path.as_str()) });
    }
    match detect_vcs(repo_path.as_str(), cwd, has_git) {
        Ok((git, root)) => Ok((root, git)),
        Err(e) => Err(CliError { message: e.message() }),
    }
}

/// The commit message: the one given, or `update <project> <dotdirs>`.
pub open spec fn update_message_spec(
    message: Option<Seq<char>>,
    project: Seq<char>,
    dotdirs: Seq<Seq<char>>,
) -> Seq<char> {
    match message {
        Some(m) => m,
        None => "update "@ + project + " "@ + joined(dotdirs, " "@),
    }
}

/// The names of the dotdirs of `(name, config)` pairs.
pub open spec fn dotdir_names(configs: Seq<(String, DotdirConfig)>) -> Seq<Seq<char>> {
    configs.map_values(|c: (String, DotdirConfig)| c.0@)
}

/// The names of the dotdirs of `(name, config)` pairs, in order.
pub fn names_of(configs: &Vec<(String, DotdirConfig)>) -> (res: Vec<String>)
    ensures
        views(res@) == dotdir_names(configs@),
{
    let mut names: Vec<String> = Vec::new();
    let n = configs.len();
    for i in 0..n
        invariant
            n == configs@.len(),
            views(names@) == dotdir_names(configs@.take(i as int)),
    {
        let ghost before = views(names@);
        names.push(configs[i].0.clone());
        assert(configs@.take(i + 1) =~= configs@.take(i as int).push(configs@[i as int]));
        assert(views(names@) =~= before.push(configs@[i as int].0@));
    }
    assert(configs@.take(n as int) =~= configs@);
    names
}

/// The commit message for `push` and `sync`.
pub fn update_message(message: &Option<String>, project: &str, dotdirs: &Vec<String>) -> (res: String)
    ensures
        res@ == update_message_spec(
            match *message {
                Some(m) => Some(m@),
                None => None,
            },
            project@,
            views(dotdirs@),
        ),
{
    match message {
        Some(m) => m.clone(),
        None => {
            let list = join_strings(dotdirs, " ");
            let mut m = concat3("update ", project, " ");
            m.append(list.as_str());
            m
        },
    }
}

/// The commit message for `init`: `init <project> <dotdirs>`.
pub fn init_message(project: &str, dotdirs: &Vec<String>) -> (res: String)
    ensures
        res@ == "init "@ + project@ + " "@ + joined(views(dotdirs@), " "@),
{
    let list = join_strings(dotdirs, " ");
    let mut m = concat3("init ", project, " ");
    m.append(list.as_str());
    m
}

/// What `init` reports for one dotdir, given the files it absorbed and linked.
pub open spec fn init_summary_spec(
    dotdir: Seq<char>,
    absorbed: Seq<Seq<char>>,
    linked: Seq<Seq<char>>,
) -> Seq<char> {
    if absorbed.len() + linked.len() == 0 {
        "Initialized "@ + dotdir + " (empty)"@
    } else {
        let parts = (if absorbed.len() > 0 {
            seq!["absorbed: "@ + joined(absorbed, ", "@)]
        } else {
            Seq::<Seq<char>>::empty()
        }) + (if linked.len() > 0 {
            seq!["linked: "@ + joined(linked, ", "@)]
        } else {
            Seq::<Seq<char>>::empty()
        });
        "Initialized "@ + dotdir + " ("@ + joined(parts, ", "@) + ")"@
    }
}

/// The line that `init` prints for one dotdir.
pub fn init_summary(dotdir: &str, absorbed: &Vec<String>, linked: &Vec<String>) -> (res: String)
    requires
        absorbed@.len() + linked@.len() <= usize::MAX,
    ensures
        res@ == init_summary_spec(dotdir@, views(absorbed@), views(linked@)),
{
    if absorbed.len() + linked.len() == 0 {
        return concat3("Initialized ", dotdir, " (empty)");
    }
    let mut parts: Vec<String> = Vec::new();
    if absorbed.len() > 0 {
        let a = join_strings(absorbed, ", ");
        parts.push(concat2("absorbed: ", a.as_str()));
    }
    let ghost first = views(parts@);
    if linked.len() > 0 {
        let l = join_strings(linked, ", ");
        parts.push(concat2("linked: ", l.as_str()));
    }
    proof {
        let sp = (if absorbed@.len() > 0 {
            seq!["absorbed: "@ + joined(views(absorbed@), ", "@)]
        } else {
            Seq::<Seq<char>>::empty()
        }) + (if linked@.len() > 0 {
            seq!["linked: "@ + joined(views(linked@), ", "@)]
        } else {
            Seq::<Seq<char>>::empty()
        });
        assert(views(parts@) =~= sp);
    }
    let body = join_strings(&parts, ", ");
    let mut m = concat3("Initialized ", dotdir, " (");
    m.append(body.as_str());
    m.append(")");
    m
}

/// A report line such as `  deleted: <dotdir>/<file>`.
pub fn report_line(kind: &str, dotdir: &str, file: &str) -> (res: String)
    ensures
        res@ == "  "@ + kind@ + ": "@ + dotdir@ + "/"@ + file@,
{
    let mut m = concat3("  ", kind, ": ");
    m.append(dotdir);
    m.append("/");
    m.append(file);
    m
}

/// `p`, read from `cwd` when it is relative.
pub open spec fn resolve_from_spec(cwd: Seq<char>, p: Seq<char>) -> Seq<char> {
    if is_relative_spec(p) {
        join_spec(cwd, p)
    } else {
        p
    }
}

/// `p`, read from `cwd` when it is relative.
pub fn resolve_from(cwd: &str, p: &str) -> (res: String)
    ensures
        res@ == resolve_from_spec(cwd@, p@),
{
    if is_relative(p) {
        join(cwd, p)
    } else {
        owned(p)
    }
}

/// The project root that `init` works in: the one given with `--root` (read
/// from the current directory), or else the one found above it.
pub fn init_root(root_arg: &str, cwd: &str, found: Option<String>) -> (res: Result<String, CliError>)
    ensures
        root_arg@.len() > 0 ==> (res matches Ok(r) && r@ == resolve_from_spec(cwd@, root_arg@)),
        root_arg@.len() == 0 ==> match found {
            Some(f) => res matches Ok(r) && r == f,
            None => res matches Err(e) && e.message@
                == "Could not find project root (.git). Use --root to specify explicitly."@,
        },
{
    if root_arg.is_empty() {
        match found {
            Some(f) => Ok(f),
            None => fail("Could not find project root (.git). Use --root to specify explicitly."),
        }
    } else {
        Ok(resolve_from(cwd, root_arg))
    }
}

/// The dotdirs that `init` sets up: the one named, or else those of the repo side.
pub fn init_dotdirs(dotdir: Option<String>, discovered: Vec<String>) -> (res: Vec<String>)
    ensures
        match dotdir {
            Some(d) => res@ == seq![d],
            None => res == discovered,
        },
{
    match dotdir {
        Some(d) => {
            let mut v = Vec::new();
            v.push(d);
            assert(v@ =~= seq![d]);
            v
        },
        None => discovered,
    }
}

/// The `repo` value that `init` writes into a dotdir's configuration: an
/// absolute `--repo` as given; a relative one as the path from the dotdir to
/// the repo project (so that it reads from the configuration's location), or
/// the absolute repo project path when no relative path can be formed.
pub open spec fn repo_for_config_spec(repo: Seq<char>, repo_abs: Seq<char>, dotdir_path: Seq<char>) -> Seq<char> {
    if is_relative_spec(repo) {
        relative_or_same(repo_abs, dotdir_path)
    } else {
        repo
    }
}

/// The `repo` value that `init` writes into a dotdir's configuration. Read
/// from the dotdir, as loading its configuration does, the value resolves to
/// the repo project: to `repo` itself when it is absolute (and then it is
/// `repo`), and to `repo_abs` when `repo` is relative and `repo_abs` leads
/// back from the dotdir; when `repo_abs` is walkable from the dotdir, the
/// value is relative too.
pub fn repo_for_config(repo: &str, repo_abs: &str, dotdir_path: &str) -> (res: String)
    ensures
        res@ == repo_for_config_spec(repo@, repo_abs@, dotdir_path@),
        !is_relative_spec(repo@) ==> repo_project_spec(res@, dotdir_path@) == normalized(repo@),
        is_relative_spec(repo@) && leads_back(repo_abs@, dotdir_path@) ==> repo_project_spec(
            res@,
            dotdir_path@,
        ) == normalized(repo_abs@),
        !is_relative_spec(repo@) ==> res@ == repo@,
        is_relative_spec(repo@) && walkable(repo_abs@, dotdir_path@) ==> is_relative_spec(res@),
{
    if is_relative(repo) {
        relative_or_same_path(repo_abs, dotdir_path)
    } else {
        owned(repo)
    }
}

/// The project-side and repo-side directories of one managed dotdir.
#[derive(Debug, Clone)]
pub struct DotdirPaths {
    pub dotdir: String,
    pub dotdir_path: String,
    pub repo_dotdir: String,
}

/// The directories of each managed dotdir, in order: `<root>/<dotdir>` and
/// the dotdir under the configured repo project.
pub fn managed_paths(root: &str, configs: &Vec<(String, DotdirConfig)>) -> (res: Vec<DotdirPaths>)
    ensures
        res@.len() == configs@.len(),
        forall|i: int|
            0 <= i < res@.len() ==> {
                let p = #[trigger] res@[i];
                let c = configs@[i];
                &&& p.dotdir@ == c.0@
                &&& p.dotdir_path@ == join_spec(root@, c.0@)
                &&& p.repo_dotdir@ == join_spec(repo_project_spec(c.1.repo_spec(), c.1.dir()), c.0@)
            },
{
    let mut res: Vec<DotdirPaths> = Vec::new();
    let n = configs.len();
    for i in 0..n
        invariant
            n == configs@.len(),
            res@.len() == i,
            forall|k: int|
                0 <= k < i ==> {
                    let p = #[trigger] res@[k];
                    let c = configs@[k];
                    &&& p.dotdir@ == c.0@
                    &&& p.dotdir_path@ == join_spec(root@, c.0@)
                    &&& p.repo_dotdir@ == join_spec(
                        repo_project_spec(c.1.repo_spec(), c.1.dir()),
                        c.0@,
                    )
                },
    {
        let dd = &configs[i].0;
        let cfg = &configs[i].1;
        res.push(
            DotdirPaths {
                dotdir: dd.clone(),
                dotdir_path: join(root, dd.as_str()),
                repo_dotdir: cfg.repo_dotdir_path(root, dd.as_str()),
            },
        );
    }
    res
}

/// Text shown dim on a terminal.
pub fn ansi_dim(s: &str) -> (res: String)
    ensures
        res@ == "\x1b[2m"@ + s@ + "\x1b[0m"@,
{
    concat3("\x1b[2m", s, "\x1b[0m")
}

/// Text shown red on a terminal.
pub fn ansi_red(s: &str) -> (res: String)
    ensures
        res@ == "\x1b[31m"@ + s@ + "\x1b[0m"@,
{
    concat3("\x1b[31m", s, "\x1b[0m")
}

/// The paths made of the first 1, 2, ... components of `<repo_project>/<dotdir>`:
/// the ancestors that `list` checks, shallowest first.
pub fn repo_path_prefixes(repo_project: &str, dotdir: &str) -> (res: Vec<String>)
    ensures
        views(res@) == Seq::new(
            components(join_spec(repo_project@, dotdir@)).len(),
            |i: int| render_comps(components(join_spec(repo_project@, dotdir@)).take(i + 1)),
        ),
{
    let full = join(repo_project, dotdir);
    let cs = components_of(full.as_str());
    let n = cs.len();
    let mut res: Vec<String> = Vec::new();
    for i in 0..n
        invariant
            n == cs@.len(),
            comp_views(cs@) == components(full@),
            full@ == join_spec(repo_project@, dotdir@),
            views(res@) == Seq::new(i as nat, |k: int| render_comps(components(full@).take(k + 1))),
    {
        let ghost before = views(res@);
        res.push(render_prefix(&cs, i + 1));
        assert(views(res@) =~= before.push(res@[i as int]@));
        assert(views(res@) =~= Seq::new(
            (i + 1) as nat,
            |k: int| render_comps(components(full@).take(k + 1)),
        ));
    }
    res
}

/// How many leading entries of `flags` are all true.
pub open spec fn leading_true(flags: Seq<bool>) -> nat
    decreases flags.len(),
{
    if flags.len() > 0 && flags[0] {
        1 + leading_true(flags.skip(1))
    } else {
        0
    }
}

/// The deepest existing ancestor of `<repo_project>/<dotdir>`, written out:
/// the first `leading_true(prefix_exists)` of its components.
pub open spec fn existing_prefix(repo_project: Seq<char>, dotdir: Seq<char>, prefix_exists: Seq<bool>) -> Seq<
    char,
> {
    render_comps(components(join_spec(repo_project, dotdir)).take(leading_true(prefix_exists) as int))
}

/// The coloured path can be formed: the path exists, no ancestor exists, or
/// the full path can be cut at the byte length of the existing ancestor
/// (where `list` cuts the full path; elsewhere the cut panics).
pub open spec fn colorable(
    repo_project: Seq<char>,
    dotdir: Seq<char>,
    full_exists: bool,
    prefix_exists: Seq<bool>,
) -> bool {
    let existing = existing_prefix(repo_project, dotdir, prefix_exists);
    full_exists || existing.len() == 0 || char_boundary(
        join_spec(repo_project, dotdir),
        utf8_len(existing),
    ) is Some
}

/// The repo-side dotdir path as `list` shows it: when it exists, the repo
/// project path plain and the dotdir dim; when it does not, the deepest
/// existing ancestor plain and the rest red (all red when no ancestor exists).
/// The rest is what follows the byte length of the ancestor's text in the
/// full path's text.
pub open spec fn colored_spec(
    repo_project: Seq<char>,
    dotdir: Seq<char>,
    full_exists: bool,
    prefix_exists: Seq<bool>,
) -> Seq<char> {
    let full = join_spec(repo_project, dotdir);
    if full_exists {
        repo_project + "/"@ + "\x1b[2m"@ + dotdir + "\x1b[0m"@
    } else {
        let existing = existing_prefix(repo_project, dotdir, prefix_exists);
        if existing.len() == 0 {
            "\x1b[31m"@ + full + "\x1b[0m"@
        } else {
            let rest = match char_boundary(full, utf8_len(existing)) {
                Some(c) => full.skip(c as int),
                None => Seq::<char>::empty(),
            };
            existing + "\x1b[31m"@ + rest + "\x1b[0m"@
        }
    }
}

proof fn lemma_leading_true(flags: Seq<bool>, i: int)
    requires
        0 <= i <= flags.len(),
        forall|j: int| 0 <= j < i ==> flags[j],
    ensures
        leading_true(flags) == i + leading_true(flags.skip(i)),
    decreases i,
{
    if i > 0 {
        lemma_leading_true(flags, i - 1);
        assert(flags.skip(i - 1)[0] == flags[i - 1]);
        assert(flags.skip(i - 1).skip(1) =~= flags.skip(i));
    } else {
        assert(flags.skip(0) =~= flags);
    }
}

/// The text of the deepest existing ancestor of `<repo_project>/<dotdir>`:
/// `prefix_exists[i]` tells whether the `i`-th of
/// `repo_path_prefixes(repo_project, dotdir)` exists.
pub fn existing_prefix_of(repo_project: &str, dotdir: &str, prefix_exists: &Vec<bool>) -> (res: String)
    requires
        prefix_exists@.len() == components(join_spec(repo_project@, dotdir@)).len(),
    ensures
        res@ == existing_prefix(repo_project@, dotdir@, prefix_exists@),
{
    let full = join(repo_project, dotdir);
    let cs = components_of(full.as_str());
    let n = prefix_exists.len();
    let mut k: usize = 0;
    while k < n && prefix_exists[k]
        invariant
            k <= n,
            n == prefix_exists@.len(),
            forall|j: int| 0 <= j < k ==> prefix_exists@[j],
        decreases n - k,
    {
        k = k + 1;
    }
    proof {
        lemma_leading_true(prefix_exists@, k as int);
        if k < n {
            assert(!prefix_exists@.skip(k as int)[0]);
        }
        assert(leading_true(prefix_exists@) == k);
    }
    render_prefix(&cs, k)
}

/// Whether `format_repo_path_colored` can form the path for these probes
/// (where it cannot, `list` would cut a path inside a character).
pub fn can_color(repo_project: &str, dotdir: &str, full_exists: bool, prefix_exists: &Vec<bool>) -> (res:
    bool)
    requires
        prefix_exists@.len() == components(join_spec(repo_project@, dotdir@)).len(),
    ensures
        res == colorable(repo_project@, dotdir@, full_exists, prefix_exists@),
{
    if full_exists {
        return true;
    }
    let existing = existing_prefix_of(repo_project, dotdir, prefix_exists);
    if existing.as_str().unicode_len() == 0 {
        return true;
    }
    let full = join(repo_project, dotdir);
    let b = utf8_len_of(existing.as_str());
    char_boundary_of(full.as_str(), b).is_some()
}

proof fn lemma_char_boundary_within(s: Seq<char>, b: nat)
    ensures
        char_boundary(s, b) matches Some(k) ==> k <= s.len(),
    decreases s.len(),
{
    if b > 0 && s.len() > 0 && b >= utf8_width(s[0]) {
        lemma_char_boundary_within(s.skip(1), (b - utf8_width(s[0])) as nat);
    }
}

/// Format the repo-side dotdir path with ANSI coloring. `full_exists` tells
/// whether `<repo_project>/<dotdir>` exists, and `prefix_exists[i]` whether
/// the `i`-th of `repo_path_prefixes(repo_project, dotdir)` exists. The red
/// rest is the full path's text past the byte length of the existing
/// ancestor's text; the probes must let that cut fall between characters.
pub fn format_repo_path_colored(
    repo_project: &str,
    dotdir: &str,
    full_exists: bool,
    prefix_exists: &Vec<bool>,
) -> (res: String)
    requires
        prefix_exists@.len() == components(join_spec(repo_project@, dotdir@)).len(),
        colorable(repo_project@, dotdir@, full_exists, prefix_exists@),
    ensures
        res@ == colored_spec(repo_project@, dotdir@, full_exists, prefix_exists@),
{
    if full_exists {
        let dim = ansi_dim(dotdir);
        let mut m = concat2(repo_project, "/");
        m.append(dim.as_str());
        return m;
    }
    let full = join(repo_project, dotdir);
    let existing = existing_prefix_of(repo_project, dotdir, prefix_exists);
    if existing.as_str().unicode_len() == 0 {
        return ansi_red(full.as_str());
    }
    let b = utf8_len_of(existing.as_str());
    let flen = full.as_str().unicode_len();
    let rest = match char_boundary_of(full.as_str(), b) {
        Some(c) => {
            proof {
                lemma_char_boundary_within(full@, b as nat);
            }
            let r = full.as_str().substring_char(c, flen);
            assert(r@ =~= full@.skip(c as int));
            r
        },
        None => "",
    };
    let red = ansi_red(rest);
    let mut m = existing;
    m.append(red.as_str());
    m
}

} // verus!

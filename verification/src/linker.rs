//! What to link, move, delete and restore between a project dotdir and its
//! repo-side directory. The file system work is done from outside, step by
//! step, from the plans made here.
use vstd::prelude::*;
use crate::path::{components, has_root, join, join_spec, normalized, parent, parent_spec, Comp};
use crate::text::{concat2, starts_with_char, str_eq, views};

verus! {

broadcast use vstd::seq_lib::group_seq_properties;

/// The relative path from `base` to `path` that `pathdiff::diff_paths` gives
/// (compared component by component), if it gives one.
pub uninterp spec fn diff_paths_result(path: Seq<char>, base: Seq<char>) -> Option<Seq<char>>;

/// The view of an optional string.
pub open spec fn opt_view(o: Option<String>) -> Option<Seq<char>> {
    match o {
        Some(s) => Some(s@),
        None => None,
    }
}

/// How many leading components `a` and `b` have in common.
pub open spec fn common_len(a: Seq<Comp>, b: Seq<Comp>) -> nat
    decreases a.len(),
{
    if a.len() > 0 && b.len() > 0 && a[0] == b[0] {
        1 + common_len(a.skip(1), b.skip(1))
    } else {
        0
    }
}

/// `path` can be reached from `base` by going up and then down: both are
/// absolute or both relative, and past the components they share, `base`
/// holds only names (no `.` or `..`).
pub open spec fn walkable(path: Seq<char>, base: Seq<char>) -> bool {
    let p = components(path);
    let b = components(base);
    &&& has_root(path) == has_root(base)
    &&& forall|j: int| common_len(p, b) <= j < b.len() ==> #[trigger] b[j] is Normal
}

/// There is a relative path, and `base` joined with it is `path` once `.` and
/// `..` are resolved.
pub open spec fn reaches(rel: Option<Seq<char>>, path: Seq<char>, base: Seq<char>) -> bool {
    match rel {
        Some(r) => normalized(join_spec(base, r)) == normalized(path),
        None => false,
    }
}

/// There is no result, or it is a relative path.
pub open spec fn rootless(rel: Option<Seq<char>>) -> bool {
    match rel {
        Some(r) => !has_root(r),
        None => true,
    }
}

/// A path written relative to `base` (or kept as it is) leads back to `path`:
/// `path` is absolute and `base` relative, or `path` is walkable from `base`.
pub open spec fn leads_back(path: Seq<char>, base: Seq<char>) -> bool {
    (has_root(path) && !has_root(base)) || walkable(path, base)
}

/// Trusted: calls `pathdiff::diff_paths` and renders its result as a string.
/// The result is the one named by `diff_paths_result`. As its source shows,
/// an absolute `path` from a relative `base` comes back unchanged, and a
/// relative `path` from an absolute `base` gives none. When `path` is
/// walkable from `base`, the source goes up from `base` past the components
/// the two share (one `..` for each name of `base` left) and then down the
/// rest of `path`; so there is a result, and `base` joined with it leads to
/// `path` once `.` and `..` are resolved. When both are absolute or both
/// relative, the result is made of `..`s and components of `path` past the
/// shared ones, never the root, so it is relative. Nothing more is stated of
/// how the relative path is formed.
#[verifier::external_body]
fn diff_paths(path: &str, base: &str) -> (res: Option<String>)
    ensures
        opt_view(res) == diff_paths_result(path@, base@),
        has_root(path@) && !has_root(base@) ==> opt_view(res) == Some(path@),
        !has_root(path@) && has_root(base@) ==> opt_view(res) is None,
        walkable(path@, base@) ==> reaches(opt_view(res), path@, base@),
        has_root(path@) == has_root(base@) ==> rootless(opt_view(res)),
{
    match pathdiff::diff_paths(path, base) {
        Some(p) => Some(p.to_string_lossy().into_owned()),
        None => None,
    }
}

/// `path` relative to `base` when one can be formed, else `path` itself.
pub open spec fn relative_or_same(path: Seq<char>, base: Seq<char>) -> Seq<char> {
    match diff_paths_result(path, base) {
        Some(r) => r,
        None => path,
    }
}

/// The relative path `rel` when there is one, else `path` unchanged.
pub fn or_unchanged(rel: Option<String>, path: &str) -> (res: String)
    ensures
        res@ == match opt_view(rel) {
            Some(r) => r,
            None => path@,
        },
{
    match rel {
        Some(r) => r,
        None => path.to_owned(),
    }
}

/// `path` written relative to `base` when `pathdiff` can, else `path`
/// unchanged. Where `path` leads back from `base`, `base` joined with the
/// result is `path` once `.` and `..` are resolved.
pub fn relative_or_same_path(path: &str, base: &str) -> (res: String)
    ensures
        res@ == relative_or_same(path@, base@),
        leads_back(path@, base@) ==> normalized(join_spec(base@, res@)) == normalized(path@),
        has_root(path@) == has_root(base@) && diff_paths_result(path@, base@) is Some ==> !has_root(
            res@,
        ),
        walkable(path@, base@) ==> !has_root(res@),
{
    or_unchanged(diff_paths(path, base), path)
}

/// Names that are never linked, moved, pruned or restored.
pub open spec fn ignored_name(name: Seq<char>) -> bool {
    name == ".gitignore"@ || name == ".hippocampus.toml"@ || (name.len() > 0 && name[0] == '.')
}

/// Whether `name` is one of the files that stay out of the repo: the
/// `.gitignore`, the configuration file, and any other hidden file.
pub fn is_ignored(name: &str) -> (res: bool)
    ensures
        res == ignored_name(name@),
{
    str_eq(name, ".gitignore") || str_eq(name, ".hippocampus.toml") || starts_with_char(name, '.')
}

/// A symbolic link to make: where it goes, and the (relative) path it holds.
#[derive(Debug, Clone)]
pub struct SymlinkPlan {
    pub link_path: String,
    pub target: String,
}

/// A link path with no parent directory.
#[derive(Debug, Clone)]
pub enum LinkError {
    InvalidLinkPath { link_path: String },
}

impl LinkError {
    /// The message that the error is reported with.
    pub fn message(&self) -> (res: String)
        ensures
            match *self {
                LinkError::InvalidLinkPath { link_path } => res@ == "Invalid link path: "@ + link_path@,
            },
    {
        match self {
            LinkError::InvalidLinkPath { link_path } => concat2("Invalid link path: ", link_path.as_str()),
        }
    }
}

/// The plan for a link at `link_path` to `target`: an error when the link has
/// no parent directory; else a link there that holds `target` written
/// relative to that directory when `pathdiff` can do so. Where `target` leads
/// back from the directory, the link, read from there, resolves to `target`;
/// where it is walkable from there, the link holds a relative path.
pub open spec fn link_planned(
    plan: Result<SymlinkPlan, LinkError>,
    link_path: Seq<char>,
    target: Seq<char>,
) -> bool {
    match parent_spec(link_path) {
        None => plan matches Err(LinkError::InvalidLinkPath { link_path: l }) && l@ == link_path,
        Some(dir) => {
            &&& plan matches Ok(p)
            &&& p.link_path@ == link_path
            &&& p.target@ == relative_or_same(target, dir)
            &&& leads_back(target, dir) ==> normalized(join_spec(dir, p.target@)) == normalized(
                target,
            )
            &&& walkable(target, dir) ==> !has_root(p.target@)
        },
    }
}

/// The link to create at `link_path` pointing to `target`, using a relative
/// path (see `link_planned`).
pub fn create_symlink(target: &str, link_path: &str) -> (res: Result<SymlinkPlan, LinkError>)
    ensures
        link_planned(res, link_path@, target@),
{
    match parent(link_path) {
        None => Err(LinkError::InvalidLinkPath { link_path: link_path.to_owned() }),
        Some(dir) => Ok(
            SymlinkPlan {
                link_path: link_path.to_owned(),
                target: relative_or_same_path(target, dir.as_str()),
            },
        ),
    }
}

/// What is known of one entry of the repo-side directory.
#[derive(Debug, Clone)]
pub struct RepoFile {
    pub name: String,
    /// The entry is a regular file.
    pub is_file: bool,
    /// Something (a file, or a link, live or dead) is at its name in the project dotdir.
    pub in_project: bool,
}

/// One link that syncing creates, with the name it is reported under.
#[derive(Debug)]
pub struct LinkStep {
    pub name: String,
    pub plan: Result<SymlinkPlan, LinkError>,
}

/// The repo entries that syncing links into the project.
pub open spec fn to_link(e: RepoFile) -> bool {
    !ignored_name(e.name@) && !e.in_project
}

/// Sync symlinks from repo to project: for each file of the repo dotdir that
/// is not ignored and has nothing at its name in the project dotdir yet, a
/// link at `<dotdir_path>/<name>` to `<repo_dotdir_path>/<name>`, in listing
/// order, planned as `create_symlink` plans it (so that, read from the
/// dotdir, it resolves to the repo file where that leads back).
pub fn sync_links(dotdir_path: &str, repo_dotdir_path: &str, entries: &Vec<RepoFile>) -> (res: Vec<
    LinkStep,
>)
    ensures
        res@.len() == entries@.filter(|e: RepoFile| to_link(e)).len(),
        forall|i: int|
            0 <= i < res@.len() ==> {
                let e = entries@.filter(|e: RepoFile| to_link(e))[i];
                let step = #[trigger] res@[i];
                &&& step.name@ == e.name@
                &&& link_planned(
                    step.plan,
                    join_spec(dotdir_path@, e.name@),
                    join_spec(repo_dotdir_path@, e.name@),
                )
            },
{
    let ghost keep = |e: RepoFile| to_link(e);
    let mut steps: Vec<LinkStep> = Vec::new();
    let n = entries.len();
    for i in 0..n
        invariant
            n == entries@.len(),
            keep == (|e: RepoFile| to_link(e)),
            steps@.len() == entries@.take(i as int).filter(keep).len(),
            forall|k: int|
                0 <= k < steps@.len() ==> {
                    let e = entries@.take(i as int).filter(keep)[k];
                    let step = #[trigger] steps@[k];
                    &&& step.name@ == e.name@
                    &&& link_planned(
                        step.plan,
                        join_spec(dotdir_path@, e.name@),
                        join_spec(repo_dotdir_path@, e.name@),
                    )
                },
    {
        let e = &entries[i];
        proof {
            assert(entries@.take(i + 1) =~= entries@.take(i as int).push(entries@[i as int]));
            entries@.take(i as int).lemma_filter_push(entries@[i as int], keep);
        }
        if !is_ignored(e.name.as_str()) && !e.in_project {
            let link_path = join(dotdir_path, e.name.as_str());
            let target = join(repo_dotdir_path, e.name.as_str());
            let plan = create_symlink(target.as_str(), link_path.as_str());
            steps.push(LinkStep { name: e.name.clone(), plan });
        }
    }
    assert(entries@.take(n as int) =~= entries@);
    steps
}

/// The repo entries that pruning deletes: regular files, not ignored, with
/// nothing left at their name in the project.
pub open spec fn to_prune(e: RepoFile) -> bool {
    !ignored_name(e.name@) && e.is_file && !e.in_project
}

/// The repo listing once the links that syncing planned are made: every entry
/// that was linked now has something at its name in the project.
pub open spec fn after_linking(entries: Seq<RepoFile>) -> Seq<RepoFile> {
    entries.map_values(
        |e: RepoFile|
            if to_link(e) {
                RepoFile { name: e.name, is_file: e.is_file, in_project: true }
            } else {
                e
            },
    )
}

/// Syncing links twice links nothing the second time: once the links of a
/// sync are made, no entry of the listing is left to link.
pub proof fn lemma_linking_twice_links_nothing(entries: Seq<RepoFile>)
    ensures
        after_linking(entries).filter(|e: RepoFile| to_link(e)).len() == 0,
    decreases entries.len(),
{
    let pred = |e: RepoFile| to_link(e);
    let a = after_linking(entries);
    if entries.len() > 0 {
        lemma_linking_twice_links_nothing(entries.drop_last());
        assert(a.drop_last() =~= after_linking(entries.drop_last()));
        assert(!pred(a.last()));
        assert(a =~= a.drop_last().push(a.last()));
        a.drop_last().lemma_filter_push(a.last(), pred);
    }
}

/// For a regular repo file, pruning and linking look at the same thing:
/// nothing at its name in the project. From one listing the two cannot tell a
/// file deleted in the project from one newly added to the repo, which is why
/// `sync` prunes and pushes before it pulls and links.
pub proof fn lemma_prune_and_link_agree(e: RepoFile)
    requires
        e.is_file,
    ensures
        to_prune(e) == to_link(e),
{
}

/// Delete files from repo dotdir that no longer exist in the project dotdir.
/// A file is considered deleted if there is no project-side entry at all
/// (neither a real file nor a symlink, live or dead). Returns the names to
/// delete, in listing order.
pub fn prune_deletions(entries: &Vec<RepoFile>) -> (res: Vec<String>)
    ensures
        views(res@) == entries@.filter(|e: RepoFile| to_prune(e)).map_values(|e: RepoFile| e.name@),
{
    let ghost keep = |e: RepoFile| to_prune(e);
    let ghost name_of = |e: RepoFile| e.name@;
    let mut names: Vec<String> = Vec::new();
    let n = entries.len();
    for i in 0..n
        invariant
            n == entries@.len(),
            keep == (|e: RepoFile| to_prune(e)),
            name_of == (|e: RepoFile| e.name@),
            views(names@) == entries@.take(i as int).filter(keep).map_values(name_of),
    {
        let e = &entries[i];
        proof {
            assert(entries@.take(i + 1) =~= entries@.take(i as int).push(entries@[i as int]));
            entries@.take(i as int).lemma_filter_push(entries@[i as int], keep);
            entries@.take(i as int).filter(keep).lemma_push_map_commute(name_of, entries@[i as int]);
        }
        if !is_ignored(e.name.as_str()) && e.is_file && !e.in_project {
            let ghost before = views(names@);
            names.push(e.name.clone());
            assert(views(names@) =~= before.push(e.name@));
        }
    }
    assert(entries@.take(n as int) =~= entries@);
    names
}

/// What restoring does with one repo file: remove what stands at its name
/// in the project, copy the repo file there.
#[derive(Debug, Clone)]
pub struct RestoreStep {
    pub name: String,
    pub src: String,
    pub dst: String,
    pub remove_existing: bool,
    pub copy: bool,
}

/// Copy files from repo dotdir back to project dotdir as real files.
/// Used by unlink to restore files before removing the dotdir. For every
/// entry that is not ignored, in listing order: what is at its name in the
/// project is removed, and a regular repo file is copied there.
pub fn restore_files(dotdir_path: &str, repo_dotdir_path: &str, entries: &Vec<RepoFile>) -> (res: Vec<
    RestoreStep,
>)
    ensures
        res@.len() == entries@.filter(|e: RepoFile| !ignored_name(e.name@)).len(),
        forall|i: int|
            0 <= i < res@.len() ==> {
                let e = entries@.filter(|e: RepoFile| !ignored_name(e.name@))[i];
                let step = #[trigger] res@[i];
                &&& step.name@ == e.name@
                &&& step.src@ == join_spec(repo_dotdir_path@, e.name@)
                &&& step.dst@ == join_spec(dotdir_path@, e.name@)
                &&& step.remove_existing == e.in_project
                &&& step.copy == e.is_file
            },
{
    let ghost keep = |e: RepoFile| !ignored_name(e.name@);
    let mut steps: Vec<RestoreStep> = Vec::new();
    let n = entries.len();
    for i in 0..n
        invariant
            n == entries@.len(),
            keep == (|e: RepoFile| !ignored_name(e.name@)),
            steps@.len() == entries@.take(i as int).filter(keep).len(),
            forall|k: int|
                0 <= k < steps@.len() ==> {
                    let e = entries@.take(i as int).filter(keep)[k];
                    let step = #[trigger] steps@[k];
                    &&& step.name@ == e.name@
                    &&& step.src@ == join_spec(repo_dotdir_path@, e.name@)
                    &&& step.dst@ == join_spec(dotdir_path@, e.name@)
                    &&& step.remove_existing == e.in_project
                    &&& step.copy == e.is_file
                },
    {
        let e = &entries[i];
        proof {
            assert(entries@.take(i + 1) =~= entries@.take(i as int).push(entries@[i as int]));
            entries@.take(i as int).lemma_filter_push(entries@[i as int], keep);
        }
        if !is_ignored(e.name.as_str()) {
            steps.push(
                RestoreStep {
                    name: e.name.clone(),
                    src: join(repo_dotdir_path, e.name.as_str()),
                    dst: join(dotdir_path, e.name.as_str()),
                    remove_existing: e.in_project,
                    copy: e.is_file,
                },
            );
        }
    }
    assert(entries@.take(n as int) =~= entries@);
    steps
}

/// What is known of one entry of the project dotdir.
#[derive(Debug, Clone)]
pub struct ProjectEntry {
    pub name: String,
    /// The entry is a regular file (symbolic links are not followed).
    pub is_file: bool,
}

/// A project entry that absorbing picks up when no file list is given.
pub open spec fn absorbable(e: ProjectEntry) -> bool {
    !ignored_name(e.name@) && e.is_file
}

/// The names that absorbing looks at: the given list, or else the regular
/// files of the project dotdir that are not ignored, in listing order.
pub fn absorb_candidates(files: Option<&Vec<String>>, listing: &Vec<ProjectEntry>) -> (res: Vec<
    String,
>)
    ensures
        files matches Some(f) ==> views(res@) == views(f@),
        files is None ==> views(res@) == listing@.filter(|e: ProjectEntry| absorbable(e)).map_values(
            |e: ProjectEntry| e.name@,
        ),
{
    match files {
        Some(f) => f.clone(),
        None => {
            let ghost keep = |e: ProjectEntry| absorbable(e);
            let ghost name_of = |e: ProjectEntry| e.name@;
            let mut names: Vec<String> = Vec::new();
            let n = listing.len();
            for i in 0..n
                invariant
                    n == listing@.len(),
                    keep == (|e: ProjectEntry| absorbable(e)),
                    name_of == (|e: ProjectEntry| e.name@),
                    views(names@) == listing@.take(i as int).filter(keep).map_values(name_of),
            {
                let e = &listing[i];
                proof {
                    assert(listing@.take(i + 1) =~= listing@.take(i as int).push(listing@[i as int]));
                    listing@.take(i as int).lemma_filter_push(listing@[i as int], keep);
                    listing@.take(i as int).filter(keep).lemma_push_map_commute(
                        name_of,
                        listing@[i as int],
                    );
                }
                if !is_ignored(e.name.as_str()) && e.is_file {
                    let ghost before = views(names@);
                    names.push(e.name.clone());
                    assert(views(names@) =~= before.push(e.name@));
                }
            }
            assert(listing@.take(n as int) =~= listing@);
            names
        },
    }
}

/// The project listing once absorbing is done: every file it moved is now a
/// link into the repo, no longer a regular file.
pub open spec fn after_absorbing(listing: Seq<ProjectEntry>) -> Seq<ProjectEntry> {
    listing.map_values(
        |e: ProjectEntry|
            if absorbable(e) {
                ProjectEntry { name: e.name, is_file: false }
            } else {
                e
            },
    )
}

/// Absorbing twice moves nothing the second time: once the files of a dotdir
/// are absorbed, none of its entries is left to absorb.
pub proof fn lemma_absorbing_twice_moves_nothing(listing: Seq<ProjectEntry>)
    ensures
        after_absorbing(listing).filter(|e: ProjectEntry| absorbable(e)).len() == 0,
    decreases listing.len(),
{
    let pred = |e: ProjectEntry| absorbable(e);
    let a = after_absorbing(listing);
    if listing.len() > 0 {
        lemma_absorbing_twice_moves_nothing(listing.drop_last());
        assert(a.drop_last() =~= after_absorbing(listing.drop_last()));
        assert(!pred(a.last()));
        assert(a =~= a.drop_last().push(a.last()));
        a.drop_last().lemma_filter_push(a.last(), pred);
    }
}

/// What is at a candidate's name in the project dotdir.
#[derive(Debug, Clone, Copy, PartialEq, Eq, Structural)]
pub enum SourceState {
    /// Nothing there (or a link that leads nowhere).
    Missing,
    /// A symbolic link: already absorbed.
    Symlink,
    /// A real file.
    Present,
}

/// What absorbing does with one name.
#[derive(Debug)]
pub enum AbsorbStep {
    /// Nothing to move; the message says so.
    Skip { message: String },
    /// Already a link into the repo.
    AlreadyLinked,
    /// Copy `src` to `dst`, remove `src`, and link it back to `dst`.
    Move { src: String, dst: String, link: Result<SymlinkPlan, LinkError> },
}

/// Move a real file from the project dotdir to the repo dotdir, replacing it
/// with a symlink (copy then delete, so that it works across file systems).
/// The link is planned as `create_symlink` plans it: read from the dotdir, it
/// resolves to the moved file where that leads back.
pub fn absorb_step(dotdir_path: &str, repo_dotdir_path: &str, name: &str, state: SourceState) -> (res:
    AbsorbStep)
    ensures
        state == SourceState::Missing ==> (res matches AbsorbStep::Skip { message } && message@
            == "  skip: "@ + name@ + " (not found)"@),
        state == SourceState::Symlink ==> res is AlreadyLinked,
        state == SourceState::Present ==> (res matches AbsorbStep::Move { src, dst, link } && src@
            == join_spec(dotdir_path@, name@) && dst@ == join_spec(repo_dotdir_path@, name@)
            && link_planned(link, src@, dst@)),
{
    match state {
        SourceState::Missing => AbsorbStep::Skip {
            message: crate::text::concat3("  skip: ", name, " (not found)"),
        },
        SourceState::Symlink => AbsorbStep::AlreadyLinked,
        SourceState::Present => {
            let src = join(dotdir_path, name);
            let dst = join(repo_dotdir_path, name);
            let link = create_symlink(dst.as_str(), src.as_str());
            AbsorbStep::Move { src, dst, link }
        },
    }
}

} // verus!

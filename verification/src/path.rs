//! Path algebra on `/`-separated path strings.
//!
//! A path is held as a `String`. Its components follow the rules of
//! `std::path::Path::components` on Unix: a leading `/` is the root, empty
//! segments and `.` segments are dropped (except that a relative path that
//! begins with `.` keeps one leading current-directory component), and `..`
//! is a parent component.
use vstd::prelude::*;
use crate::text::{ends_with_char, join_strings, joined, push_char, starts_with_char, views};

verus! {

broadcast use vstd::seq_lib::group_seq_properties;

/// The mathematical view of one path component.
pub enum Comp {
    Root,
    Cur,
    Parent,
    Normal(Seq<char>),
}

/// One component of a path.
#[derive(Debug, Clone, PartialEq, Eq)]
pub enum Component {
    RootDir,
    CurDir,
    ParentDir,
    Normal(String),
}

impl View for Component {
    type V = Comp;

    open spec fn view(&self) -> Comp {
        match self {
            Component::RootDir => Comp::Root,
            Component::CurDir => Comp::Cur,
            Component::ParentDir => Comp::Parent,
            Component::Normal(s) => Comp::Normal(s@),
        }
    }
}

/// The views of a vector of components.
pub open spec fn comp_views(v: Seq<Component>) -> Seq<Comp> {
    v.map_values(|c: Component| c@)
}

pub open spec fn slash() -> char {
    '/'
}

/// The pieces of `s` between `/` characters, empty pieces included.
pub open spec fn segments(s: Seq<char>) -> Seq<Seq<char>>
    decreases s.len(),
{
    if s.len() == 0 {
        seq![Seq::<char>::empty()]
    } else {
        let r = segments(s.drop_last());
        if s.last() == slash() {
            r.push(Seq::<char>::empty())
        } else {
            r.update(r.len() - 1, r.last().push(s.last()))
        }
    }
}

pub open spec fn dot_seq() -> Seq<char> {
    seq!['.']
}

pub open spec fn dotdot_seq() -> Seq<char> {
    seq!['.', '.']
}

/// A segment that yields a component: not empty and not `.`.
pub open spec fn kept(seg: Seq<char>) -> bool {
    seg.len() > 0 && seg != dot_seq()
}

/// The component that a kept segment yields.
pub open spec fn seg_comp(seg: Seq<char>) -> Comp {
    if seg == dotdot_seq() {
        Comp::Parent
    } else {
        Comp::Normal(seg)
    }
}

/// The path begins at the root.
pub open spec fn has_root(s: Seq<char>) -> bool {
    s.len() > 0 && s[0] == slash()
}

/// A relative path that begins with a `.` segment.
pub open spec fn leading_cur(s: Seq<char>) -> bool {
    !has_root(s) && s.len() > 0 && s[0] == '.' && (s.len() == 1 || s[1] == slash())
}

pub open spec fn root_prefix(s: Seq<char>) -> Seq<Comp> {
    (if has_root(s) { seq![Comp::Root] } else { Seq::<Comp>::empty() }) + (if leading_cur(s) {
        seq![Comp::Cur]
    } else {
        Seq::<Comp>::empty()
    })
}

/// The components of the path `s`.
pub open spec fn components(s: Seq<char>) -> Seq<Comp> {
    root_prefix(s) + segments(s).filter(|g: Seq<char>| kept(g)).map_values(
        |g: Seq<char>| seg_comp(g),
    )
}

/// The path is relative: it does not begin at the root.
pub open spec fn is_relative_spec(s: Seq<char>) -> bool {
    !has_root(s)
}

proof fn lemma_segments_nonempty(s: Seq<char>)
    ensures
        segments(s).len() >= 1,
    decreases s.len(),
{
    if s.len() > 0 {
        lemma_segments_nonempty(s.drop_last());
    }
}

/// Splits `s` at every `/`.
pub fn split_segments(s: &str) -> (res: Vec<String>)
    ensures
        views(res@) == segments(s@),
{
    let mut done: Vec<String> = Vec::new();
    let mut cur = String::new();
    let ghost mut prefix: Seq<char> = Seq::empty();
    for c in it: s.chars()
        invariant
            it.seq() == s@,
            prefix == it.seq().take(it.index() as int),
            views(done@).push(cur@) == segments(prefix),
    {
        proof {
            lemma_segments_nonempty(prefix);
            let np = prefix.push(c);
            assert(np.drop_last() =~= prefix);
            assert(np.last() == c);
        }
        if c == '/' {
            let finished = cur;
            done.push(finished);
            cur = String::new();
            proof {
                assert(views(done@) =~= views(done@).drop_last().push(finished@));
                assert(views(done@).push(cur@) =~= segments(prefix.push(c)));
            }
        } else {
            let ghost old_cur = cur@;
            push_char(&mut cur, c);
            proof {
                assert(views(done@).push(cur@) =~= segments(prefix.push(c)));
            }
        }
        proof {
            prefix = prefix.push(c);
            assert(prefix =~= it.seq().take(it.index() + 1));
        }
    }
    proof {
        assert(prefix =~= s@);
    }
    done.push(cur);
    proof {
        assert(views(done@) =~= segments(prefix));
    }
    done
}

/// Whether `s` is exactly one `.`.
fn is_dot(s: &String) -> (res: bool)
    ensures
        res == (s@ == dot_seq()),
{
    let n = s.as_str().unicode_len();
    if n == 1 && s.as_str().get_char(0) == '.' {
        assert(s@ =~= dot_seq());
        true
    } else {
        false
    }
}

/// Whether `s` is exactly `..`.
fn is_dotdot(s: &String) -> (res: bool)
    ensures
        res == (s@ == dotdot_seq()),
{
    let n = s.as_str().unicode_len();
    if n == 2 && s.as_str().get_char(0) == '.' && s.as_str().get_char(1) == '.' {
        assert(s@ =~= dotdot_seq());
        true
    } else {
        false
    }
}

/// Whether the path is relative (does not begin with `/`), as `Path::is_relative` on Unix.
pub fn is_relative(p: &str) -> (res: bool)
    ensures
        res == is_relative_spec(p@),
{
    !starts_with_char(p, '/')
}

/// The components of the path `p`, as `Path::components` on Unix.
pub fn components_of(p: &str) -> (res: Vec<Component>)
    ensures
        comp_views(res@) == components(p@),
{
    let n = p.unicode_len();
    let rooted = n > 0 && p.get_char(0) == '/';
    let lead = !rooted && n > 0 && p.get_char(0) == '.' && (n == 1 || p.get_char(1) == '/');
    let mut res: Vec<Component> = Vec::new();
    if rooted {
        res.push(Component::RootDir);
    }
    if lead {
        res.push(Component::CurDir);
    }
    assert(comp_views(res@) =~= root_prefix(p@));
    let segs = split_segments(p);
    let ghost sv = views(segs@);
    let ghost keep = |g: Seq<char>| kept(g);
    let ghost to_comp = |g: Seq<char>| seg_comp(g);
    let m = segs.len();
    for i in 0..m
        invariant
            m == segs@.len(),
            sv == views(segs@),
            sv == segments(p@),
            keep == (|g: Seq<char>| kept(g)),
            to_comp == (|g: Seq<char>| seg_comp(g)),
            comp_views(res@) == root_prefix(p@) + sv.take(i as int).filter(keep).map_values(
                to_comp,
            ),
    {
        let seg = &segs[i];
        proof {
            assert(sv.take(i + 1) =~= sv.take(i as int).push(sv[i as int]));
            sv.take(i as int).lemma_filter_push(sv[i as int], keep);
        }
        let empty = seg.as_str().is_empty();
        if !empty && !is_dot(seg) {
            let ghost before = comp_views(res@);
            if is_dotdot(seg) {
                res.push(Component::ParentDir);
            } else {
                res.push(Component::Normal(seg.clone()));
            }
            proof {
                sv.take(i as int).filter(keep).lemma_push_map_commute(to_comp, sv[i as int]);
                assert(comp_views(res@) =~= before.push(seg_comp(sv[i as int])));
            }
        }
    }
    assert(sv.take(m as int) =~= sv);
    res
}


/// `base` extended by `p`, as `Path::join` on Unix: an absolute `p` replaces
/// `base`; otherwise a `/` is put between them unless `base` is empty or
/// already ends with one.
pub open spec fn join_spec(base: Seq<char>, p: Seq<char>) -> Seq<char> {
    if has_root(p) {
        p
    } else if base.len() == 0 || base.last() == slash() {
        base + p
    } else {
        base + seq![slash()] + p
    }
}

/// Joins `p` onto `base`, as `Path::join` on Unix.
pub fn join(base: &str, p: &str) -> (res: String)
    ensures
        res@ == join_spec(base@, p@),
{
    if starts_with_char(p, '/') {
        return p.to_owned();
    }
    let mut res = base.to_owned();
    if base.unicode_len() > 0 && !ends_with_char(base, '/') {
        push_char(&mut res, '/');
    }
    res.append(p);
    res
}

/// The text that a component stands for in a path.
pub open spec fn comp_text(c: Comp) -> Seq<char> {
    match c {
        Comp::Root => seq![slash()],
        Comp::Cur => dot_seq(),
        Comp::Parent => dotdot_seq(),
        Comp::Normal(x) => x,
    }
}

/// The path made of the components `cs`, as collecting them into a `PathBuf`.
pub open spec fn render_comps(cs: Seq<Comp>) -> Seq<char>
    decreases cs.len(),
{
    if cs.len() == 0 {
        Seq::empty()
    } else {
        join_spec(render_comps(cs.drop_last()), comp_text(cs.last()))
    }
}

fn comp_string(c: &Component) -> (res: String)
    ensures
        res@ == comp_text(c@),
{
    match c {
        Component::RootDir => {
            let mut s = String::new();
            push_char(&mut s, '/');
            assert(s@ =~= seq![slash()]);
            s
        },
        Component::CurDir => {
            let mut s = String::new();
            push_char(&mut s, '.');
            assert(s@ =~= dot_seq());
            s
        },
        Component::ParentDir => {
            let mut s = String::new();
            push_char(&mut s, '.');
            push_char(&mut s, '.');
            assert(s@ =~= dotdot_seq());
            s
        },
        Component::Normal(x) => x.clone(),
    }
}

/// The path made of the first `k` components of `cs`.
pub fn render_prefix(cs: &Vec<Component>, k: usize) -> (res: String)
    requires
        k <= cs@.len(),
    ensures
        res@ == render_comps(comp_views(cs@).take(k as int)),
{
    let mut res = String::new();
    let ghost cv = comp_views(cs@);
    for i in 0..k
        invariant
            k <= cs@.len(),
            cv == comp_views(cs@),
            res@ == render_comps(cv.take(i as int)),
    {
        let t = comp_string(&cs[i]);
        assert(cv.take(i + 1).drop_last() =~= cv.take(i as int));
        res = join(res.as_str(), t.as_str());
    }
    res
}

/// The last component of `p` when it is a normal one, as `Path::file_name`.
pub open spec fn file_name_spec(p: Seq<char>) -> Option<Seq<char>> {
    let cs = components(p);
    if cs.len() > 0 && cs.last() is Normal {
        Some(cs.last()->Normal_0)
    } else {
        None
    }
}

/// The final component of `p` when it is a normal one (not the root, `.` or `..`).
pub fn file_name(p: &str) -> (res: Option<String>)
    ensures
        res matches Some(x) ==> file_name_spec(p@) == Some(x@),
        res is None ==> file_name_spec(p@) is None,
{
    let cs = components_of(p);
    let n = cs.len();
    if n == 0 {
        return None;
    }
    match &cs[n - 1] {
        Component::Normal(x) => Some(x.clone()),
        _ => None,
    }
}

/// How many components stay in the shortest ancestor: the root stays.
pub open spec fn lowest_ancestor_len(cs: Seq<Comp>) -> int {
    if cs.len() > 0 && cs[0] == Comp::Root {
        1
    } else {
        0
    }
}

/// The path `p` followed by its parents, nearest first, as repeated calls of
/// `Path::parent` give them (each written with single separators).
pub open spec fn ancestors_spec(p: Seq<char>) -> Seq<Seq<char>> {
    let cs = components(p);
    let n = cs.len() as int;
    Seq::new(
        (n - lowest_ancestor_len(cs) + 1) as nat,
        |i: int| render_comps(cs.take(n - i)),
    )
}

/// The path `p` and each of its parents in turn, nearest first.
pub fn ancestors(p: &str) -> (res: Vec<String>)
    ensures
        views(res@) == ancestors_spec(p@),
{
    let cs = components_of(p);
    let ghost cv = comp_views(cs@);
    let n = cs.len();
    let low: usize = if n > 0 && matches!(cs[0], Component::RootDir) {
        1
    } else {
        0
    };
    assert(low as int == lowest_ancestor_len(cv));
    let count = n - low;
    let mut res: Vec<String> = Vec::new();
    for i in 0..count
        invariant
            n == cs@.len(),
            cv == comp_views(cs@),
            low <= n,
            count == n - low,
            res@.len() == i,
            forall|j: int|
                0 <= j < res@.len() ==> #[trigger] res@[j]@ == render_comps(cv.take(n - j)),
    {
        let r = render_prefix(&cs, n - i);
        res.push(r);
    }
    let last = render_prefix(&cs, low);
    res.push(last);
    assert(views(res@) =~= ancestors_spec(p@));
    res
}


/// What resolving `.` and `..` leaves of a path: whether it is rooted, how
/// many `..` stay at its front, and the names after them.
pub struct Resolved {
    pub rooted: bool,
    pub ups: nat,
    pub names: Seq<Seq<char>>,
}

pub open spec fn resolved_empty() -> Resolved {
    Resolved { rooted: false, ups: 0, names: Seq::empty() }
}

/// One step of resolution: `.` is dropped and `..` removes the last name;
/// with no name to remove, a `..` is dropped at the root (nothing is above
/// it) and kept in a relative path. Nothing stays above the root.
pub open spec fn resolve_step(r: Resolved, c: Comp) -> Resolved {
    match c {
        Comp::Root => Resolved { rooted: true, ups: 0, ..r },
        Comp::Cur => r,
        Comp::Parent => if r.names.len() > 0 {
            Resolved { names: r.names.drop_last(), ..r }
        } else if r.rooted {
            r
        } else {
            Resolved { ups: r.ups + 1, ..r }
        },
        Comp::Normal(x) => Resolved { names: r.names.push(x), ..r },
    }
}

/// The resolution of the components `cs`, taken from first to last.
pub open spec fn resolve(cs: Seq<Comp>) -> Resolved
    decreases cs.len(),
{
    if cs.len() == 0 {
        resolved_empty()
    } else {
        resolve_step(resolve(cs.drop_last()), cs.last())
    }
}

/// The pieces of a resolved path after its root: the `..`s, then the names.
pub open spec fn resolved_parts(r: Resolved) -> Seq<Seq<char>> {
    Seq::new(r.ups, |i: int| dotdot_seq()) + r.names
}

/// The text of a resolved path.
pub open spec fn render_resolved(r: Resolved) -> Seq<char> {
    (if r.rooted {
        seq![slash()]
    } else {
        Seq::<char>::empty()
    }) + joined(resolved_parts(r), seq![slash()])
}

/// `p` with its `.` and `..` components resolved without looking at the file system.
pub open spec fn normalized(p: Seq<char>) -> Seq<char> {
    render_resolved(resolve(components(p)))
}

/// Resolves `.` and `..` components in a path without requiring it to exist.
pub fn normalize_path(p: &str) -> (res: String)
    ensures
        res@ == normalized(p@),
{
    let cs = components_of(p);
    let ghost cv = comp_views(cs@);
    let n = cs.len();
    let mut rooted = false;
    let mut ups: usize = 0;
    let mut names: Vec<String> = Vec::new();
    assert(cv.take(0) =~= Seq::<Comp>::empty());
    assert(views(names@) =~= Seq::<Seq<char>>::empty());
    for i in 0..n
        invariant
            n == cs@.len(),
            cv == comp_views(cs@),
            ups <= i,
            (Resolved { rooted, ups: ups as nat, names: views(names@) }) == resolve(
                cv.take(i as int),
            ),
    {
        assert(cv.take(i + 1).drop_last() =~= cv.take(i as int));
        let ghost before = views(names@);
        match &cs[i] {
            Component::RootDir => {
                rooted = true;
                ups = 0;
            },
            Component::CurDir => {},
            Component::ParentDir => {
                if names.len() > 0 {
                    names.pop();
                    assert(views(names@) =~= before.drop_last());
                } else if !rooted {
                    ups = ups + 1;
                }
            },
            Component::Normal(x) => {
                names.push(x.clone());
                assert(views(names@) =~= before.push(x@));
            },
        }
    }
    assert(cv.take(n as int) =~= cv);
    let mut parts: Vec<String> = Vec::new();
    for j in 0..ups
        invariant
            views(parts@) =~= Seq::new(j as nat, |i: int| dotdot_seq()),
    {
        let mut up = String::new();
        push_char(&mut up, '.');
        push_char(&mut up, '.');
        assert(up@ =~= dotdot_seq());
        let ghost before = views(parts@);
        parts.push(up);
        assert(views(parts@) =~= before.push(dotdot_seq()));
    }
    let ghost ups_part = views(parts@);
    let m = names.len();
    for j in 0..m
        invariant
            m == names@.len(),
            views(parts@) =~= ups_part + views(names@).take(j as int),
    {
        let ghost before = views(parts@);
        parts.push(names[j].clone());
        assert(views(parts@) =~= before.push(names@[j as int]@));
        assert(views(names@).take(j + 1) =~= views(names@).take(j as int).push(names@[j as int]@));
    }
    assert(views(names@).take(m as int) =~= views(names@));
    let mut sep = String::new();
    push_char(&mut sep, '/');
    assert(sep@ =~= seq![slash()]);
    let body = join_strings(&parts, sep.as_str());
    if rooted {
        let mut res = sep;
        res.append(body.as_str());
        res
    } else {
        assert(body@ =~= Seq::<char>::empty() + body@);
        body
    }
}


/// A name that a normal component can hold: not empty, no `/`, not `.` or `..`.
pub open spec fn wf_name(x: Seq<char>) -> bool {
    x.len() > 0 && !x.contains(slash()) && x != dot_seq() && x != dotdot_seq()
}

/// Every name of the resolution is one that a normal component can hold,
/// and a rooted resolution has no `..`.
pub open spec fn wf_resolved(r: Resolved) -> bool {
    &&& forall|i: int| 0 <= i < r.names.len() ==> wf_name(#[trigger] r.names[i])
    &&& r.rooted ==> r.ups == 0
}

/// The components of a resolved path: the root if any, then the `..`s, then the names.
pub open spec fn canonical(r: Resolved) -> Seq<Comp> {
    (if r.rooted {
        seq![Comp::Root]
    } else {
        Seq::<Comp>::empty()
    }) + Seq::new(r.ups, |i: int| Comp::Parent) + r.names.map_values(|x: Seq<char>| Comp::Normal(x))
}

proof fn lemma_segments_no_slash(s: Seq<char>)
    ensures
        forall|i: int| 0 <= i < segments(s).len() ==> !(#[trigger] segments(s)[i]).contains(slash()),
    decreases s.len(),
{
    lemma_segments_nonempty(s);
    if s.len() > 0 {
        lemma_segments_no_slash(s.drop_last());
        lemma_segments_nonempty(s.drop_last());
        let r = segments(s.drop_last());
        if s.last() != slash() {
            assert forall|i: int| 0 <= i < segments(s).len() implies !(
            #[trigger] segments(s)[i]).contains(slash()) by {
                if i == r.len() - 1 {
                    let g = r.last().push(s.last());
                    if g.contains(slash()) {
                        let k = choose|k: int| 0 <= k < g.len() && g[k] == slash();
                        assert(r.last()[k] == slash());
                    }
                } else {
                    assert(segments(s)[i] == r[i]);
                }
            }
        } else {
            assert forall|i: int| 0 <= i < segments(s).len() implies !(
            #[trigger] segments(s)[i]).contains(slash()) by {
                if i < r.len() {
                    assert(segments(s)[i] == r[i]);
                }
            }
        }
    }
}

proof fn lemma_segments_concat(a: Seq<char>, b: Seq<char>)
    ensures
        segments(a + seq![slash()] + b) == segments(a) + segments(b),
    decreases b.len(),
{
    let s = a + seq![slash()] + b;
    if b.len() == 0 {
        assert(s.drop_last() =~= a);
        assert(segments(s) =~= segments(a) + segments(b));
    } else {
        lemma_segments_concat(a, b.drop_last());
        assert(s.drop_last() =~= a + seq![slash()] + b.drop_last());
        lemma_segments_nonempty(b.drop_last());
        lemma_segments_nonempty(a);
        assert(s.last() == b.last());
        assert(segments(s) =~= segments(a) + segments(b));
    }
}

proof fn lemma_segments_plain(x: Seq<char>)
    requires
        !x.contains(slash()),
    ensures
        segments(x) == seq![x],
    decreases x.len(),
{
    if x.len() == 0 {
        assert(segments(x) =~= seq![x]);
    } else {
        let y = x.drop_last();
        if y.contains(slash()) {
            let k = choose|k: int| 0 <= k < y.len() && y[k] == slash();
            assert(x[k] == slash());
        }
        lemma_segments_plain(y);
        assert(x.last() != slash()) by {
            assert(x[x.len() - 1] == x.last());
        }
        assert(y.push(x.last()) =~= x);
        assert(segments(x) =~= seq![x]);
    }
}

proof fn lemma_segments_joined(parts: Seq<Seq<char>>)
    requires
        parts.len() > 0,
        forall|i: int| 0 <= i < parts.len() ==> !(#[trigger] parts[i]).contains(slash()),
    ensures
        segments(joined(parts, seq![slash()])) == parts,
    decreases parts.len(),
{
    if parts.len() == 1 {
        lemma_segments_plain(parts[0]);
        assert(seq![parts[0]] =~= parts);
    } else {
        let init = parts.drop_last();
        lemma_segments_joined(init);
        lemma_segments_concat(joined(init, seq![slash()]), parts.last());
        lemma_segments_plain(parts.last());
        assert(init + seq![parts.last()] =~= parts);
    }
}

proof fn lemma_joined_head(parts: Seq<Seq<char>>) -> (rest: Seq<char>)
    requires
        parts.len() > 0,
    ensures
        joined(parts, seq![slash()]) == parts[0] + rest,
        rest.len() == 0 || rest[0] == slash(),
    decreases parts.len(),
{
    if parts.len() == 1 {
        assert(parts[0] + Seq::<char>::empty() =~= parts[0]);
        Seq::empty()
    } else {
        let r0 = lemma_joined_head(parts.drop_last());
        let rest = r0 + seq![slash()] + parts.last();
        assert(joined(parts, seq![slash()]) =~= parts[0] + rest);
        rest
    }
}

proof fn lemma_resolve_step_wf(r: Resolved, c: Comp)
    requires
        wf_resolved(r),
        c is Normal ==> wf_name(c->Normal_0),
    ensures
        wf_resolved(resolve_step(r, c)),
{
    let n = resolve_step(r, c);
    assert forall|i: int| 0 <= i < n.names.len() implies wf_name(#[trigger] n.names[i]) by {
        if c is Normal && i == r.names.len() {
        } else {
            assert(n.names[i] == r.names[i]);
        }
    }
}

proof fn lemma_resolve_wf(cs: Seq<Comp>)
    requires
        forall|i: int| 0 <= i < cs.len() && (#[trigger] cs[i]) is Normal ==> wf_name(cs[i]->Normal_0),
    ensures
        wf_resolved(resolve(cs)),
    decreases cs.len(),
{
    if cs.len() > 0 {
        lemma_resolve_wf(cs.drop_last());
        assert(cs.last() == cs[cs.len() - 1]);
        lemma_resolve_step_wf(resolve(cs.drop_last()), cs.last());
    }
}

proof fn lemma_components_wf(s: Seq<char>)
    ensures
        forall|i: int|
            0 <= i < components(s).len() && (#[trigger] components(s)[i]) is Normal ==> wf_name(
                components(s)[i]->Normal_0,
            ),
{
    let segs = segments(s);
    let keep = |g: Seq<char>| kept(g);
    let f = segs.filter(keep);
    lemma_segments_no_slash(s);
    let cs = components(s);
    let pre = root_prefix(s);
    assert forall|i: int| 0 <= i < cs.len() && (#[trigger] cs[i]) is Normal implies wf_name(
        cs[i]->Normal_0,
    ) by {
        if i >= pre.len() {
            let j = i - pre.len();
            assert(cs[i] == seg_comp(f[j]));
            assert(keep(f[j]));
            assert(f.contains(f[j]));
            segs.lemma_filter_contains_rev(keep, f[j]);
            let k = choose|k: int| 0 <= k < segs.len() && segs[k] == f[j];
            assert(!segs[k].contains(slash()));
        }
    }
}

proof fn lemma_resolve_ups(rooted: bool, ups: nat)
    requires
        rooted ==> ups == 0,
    ensures
        resolve(
            (if rooted {
                seq![Comp::Root]
            } else {
                Seq::<Comp>::empty()
            }) + Seq::new(ups, |i: int| Comp::Parent),
        ) == (Resolved { rooted, ups, names: Seq::empty() }),
    decreases ups,
{
    let base = if rooted {
        seq![Comp::Root]
    } else {
        Seq::<Comp>::empty()
    };
    let cs = base + Seq::new(ups, |i: int| Comp::Parent);
    if ups == 0 {
        assert(cs =~= base);
        if rooted {
            assert(cs.drop_last() =~= Seq::<Comp>::empty());
            assert(cs.last() == Comp::Root);
            assert(resolve(Seq::<Comp>::empty()) == resolved_empty());
            assert(resolve(cs) == resolve_step(resolved_empty(), Comp::Root));
        } else {
            assert(cs.len() == 0);
        }
    } else {
        lemma_resolve_ups(rooted, (ups - 1) as nat);
        assert(cs.drop_last() =~= base + Seq::new((ups - 1) as nat, |i: int| Comp::Parent));
        assert(cs.last() == Comp::Parent);
        let prev = resolve(cs.drop_last());
        assert(prev == (Resolved { rooted, ups: (ups - 1) as nat, names: Seq::empty() }));
        assert(resolve(cs) == resolve_step(prev, Comp::Parent));
    }
}

proof fn lemma_resolve_canonical(r: Resolved)
    requires
        r.rooted ==> r.ups == 0,
    ensures
        resolve(canonical(r)) == r,
    decreases r.names.len(),
{
    let base = (if r.rooted {
        seq![Comp::Root]
    } else {
        Seq::<Comp>::empty()
    }) + Seq::new(r.ups, |i: int| Comp::Parent);
    if r.names.len() == 0 {
        lemma_resolve_ups(r.rooted, r.ups);
        assert(canonical(r) =~= base);
    } else {
        let r0 = Resolved { names: r.names.drop_last(), ..r };
        lemma_resolve_canonical(r0);
        assert(canonical(r).drop_last() =~= canonical(r0));
        assert(r.names.drop_last().push(r.names.last()) =~= r.names);
    }
}

proof fn lemma_filter_all<A>(s: Seq<A>, p: spec_fn(A) -> bool)
    requires
        forall|i: int| 0 <= i < s.len() ==> p(#[trigger] s[i]),
    ensures
        s.filter(p) == s,
    decreases s.len(),
{
    if s.len() > 0 {
        lemma_filter_all(s.drop_last(), p);
        s.drop_last().lemma_filter_push(s.last(), p);
        assert(s.drop_last().push(s.last()) =~= s);
    } else {
        assert(s.filter(p) =~= s);
    }
}

/// Facts about the pieces of a well-formed resolution: no `/` in any, all kept,
/// and they map to the `..`s and names of its canonical components.
proof fn lemma_parts_facts(r: Resolved)
    requires
        wf_resolved(r),
    ensures
        forall|i: int|
            0 <= i < resolved_parts(r).len() ==> !(#[trigger] resolved_parts(r)[i]).contains(
                slash(),
            ) && kept(resolved_parts(r)[i]),
        resolved_parts(r).filter(|g: Seq<char>| kept(g)) == resolved_parts(r),
        resolved_parts(r).map_values(|g: Seq<char>| seg_comp(g)) == Seq::new(
            r.ups,
            |i: int| Comp::Parent,
        ) + r.names.map_values(|x: Seq<char>| Comp::Normal(x)),
{
    let parts = resolved_parts(r);
    assert forall|i: int| 0 <= i < parts.len() implies !(#[trigger] parts[i]).contains(slash())
        && kept(parts[i]) by {
        if i < r.ups {
            assert(parts[i] == dotdot_seq());
            if dotdot_seq().contains(slash()) {
                let k = choose|k: int| 0 <= k < 2 && dotdot_seq()[k] == slash();
            }
            assert(dotdot_seq() != dot_seq()) by {
                assert(dotdot_seq().len() != dot_seq().len());
            }
        } else {
            assert(parts[i] == r.names[i - r.ups]);
        }
    }
    lemma_filter_all(parts, |g: Seq<char>| kept(g));
    assert(parts.map_values(|g: Seq<char>| seg_comp(g)) =~= Seq::new(r.ups, |i: int| Comp::Parent)
        + r.names.map_values(|x: Seq<char>| Comp::Normal(x)));
}

proof fn lemma_components_render_empty(r: Resolved)
    requires
        resolved_parts(r).len() == 0,
    ensures
        components(render_resolved(r)) == canonical(r),
{
    let s = render_resolved(r);
    let keep = |g: Seq<char>| kept(g);
    let e = Seq::<Seq<char>>::empty();
    let one = seq![Seq::<char>::empty()];
    assert(one =~= e.push(Seq::<char>::empty()));
    e.lemma_filter_push(Seq::<char>::empty(), keep);
    one.lemma_filter_push(Seq::<char>::empty(), keep);
    assert(r.names.len() == 0);
    if r.rooted {
        assert(s =~= seq![slash()]);
        assert(s.drop_last() =~= Seq::<char>::empty());
        assert(s.last() == slash());
        assert(segments(Seq::<char>::empty()) =~= one);
        assert(segments(s) =~= one.push(Seq::<char>::empty()));
    } else {
        assert(s =~= Seq::<char>::empty());
        assert(segments(s) =~= one);
    }
    assert(components(s) =~= canonical(r));
}

#[verifier::rlimit(40)]
proof fn lemma_components_render_rooted(r: Resolved)
    requires
        wf_resolved(r),
        r.rooted,
        resolved_parts(r).len() > 0,
    ensures
        components(render_resolved(r)) == canonical(r),
{
    let parts = resolved_parts(r);
    let sl = seq![slash()];
    let j = joined(parts, sl);
    let s = render_resolved(r);
    let keep = |g: Seq<char>| kept(g);
    lemma_parts_facts(r);
    lemma_segments_joined(parts);
    assert(s =~= Seq::<char>::empty() + sl + j);
    lemma_segments_concat(Seq::<char>::empty(), j);
    let one = seq![Seq::<char>::empty()];
    assert(segments(s) =~= one + parts);
    Seq::filter_distributes_over_add(one, parts, keep);
    let e = Seq::<Seq<char>>::empty();
    e.lemma_filter_push(Seq::<char>::empty(), keep);
    assert(one =~= e.push(Seq::<char>::empty()));
    assert(segments(s).filter(keep) =~= parts);
    assert(root_prefix(s) =~= seq![Comp::Root]);
    assert(components(s) =~= canonical(r));
}

proof fn lemma_components_render_relative(r: Resolved)
    requires
        wf_resolved(r),
        !r.rooted,
        resolved_parts(r).len() > 0,
    ensures
        components(render_resolved(r)) == canonical(r),
{
    let parts = resolved_parts(r);
    let sl = seq![slash()];
    let s = render_resolved(r);
    lemma_parts_facts(r);
    lemma_segments_joined(parts);
    let rest = lemma_joined_head(parts);
    assert(s =~= joined(parts, sl));
    assert(kept(parts[0]));
    assert(!parts[0].contains(slash()));
    assert(parts[0].len() > 0);
    assert(s[0] == parts[0][0]);
    assert(parts[0][0] != slash());
    if s[0] == '.' && (s.len() == 1 || s[1] == slash()) {
        if parts[0].len() == 1 {
            assert(parts[0] =~= dot_seq());
        } else {
            assert(s[1] == parts[0][1]);
        }
    }
    assert(root_prefix(s) =~= Seq::<Comp>::empty());
    assert(components(s) =~= canonical(r));
}

proof fn lemma_components_render(r: Resolved)
    requires
        wf_resolved(r),
    ensures
        components(render_resolved(r)) == canonical(r),
{
    if resolved_parts(r).len() == 0 {
        lemma_components_render_empty(r);
    } else if r.rooted {
        lemma_components_render_rooted(r);
    } else {
        lemma_components_render_relative(r);
    }
}

proof fn lemma_resolve_rooted(cs: Seq<Comp>)
    requires
        cs.len() > 0,
        cs[0] == Comp::Root,
    ensures
        resolve(cs).rooted,
    decreases cs.len(),
{
    if cs.len() > 1 {
        lemma_resolve_rooted(cs.drop_last());
    } else {
        assert(cs.drop_last().len() == 0);
    }
}

/// The components of a normalized path are its root, if any, then the `..`s
/// that could not be resolved, then names: resolution leaves no `.`, and no
/// `..` after a name. A path from the root stays one, and keeps no `..` at all.
pub proof fn lemma_normalized_components(p: Seq<char>)
    ensures
        has_root(p) ==> has_root(normalized(p)),
        has_root(p) ==> forall|i: int|
            0 <= i < components(normalized(p)).len() ==> #[trigger] components(normalized(p))[i]
                != Comp::Parent,
        components(normalized(p)) == canonical(resolve(components(p))),
        forall|i: int|
            0 <= i < components(normalized(p)).len() ==> #[trigger] components(normalized(p))[i]
                != Comp::Cur,
        forall|i: int, j: int|
            0 <= i < j < components(normalized(p)).len() && #[trigger] components(normalized(p))[j]
                == Comp::Parent ==> !(#[trigger] components(normalized(p))[i] is Normal),
{
    let r = resolve(components(p));
    lemma_components_wf(p);
    lemma_resolve_wf(components(p));
    lemma_components_render(r);
    let cs = canonical(r);
    if has_root(p) {
        assert(components(p)[0] == Comp::Root);
        lemma_resolve_rooted(components(p));
        assert(normalized(p)[0] == slash());
        assert forall|i: int| 0 <= i < cs.len() implies #[trigger] cs[i] != Comp::Parent by {
            if i >= 1 {
                assert(cs[i] == Comp::Normal(r.names[i - 1]));
            }
        }
    }
    let pre = if r.rooted {
        1int
    } else {
        0int
    };
    assert forall|i: int| 0 <= i < cs.len() implies #[trigger] cs[i] != Comp::Cur by {
        if i >= pre + r.ups {
            assert(cs[i] == Comp::Normal(r.names[i - pre - r.ups]));
        }
    }
    assert forall|i: int, j: int|
        0 <= i < j < cs.len() && #[trigger] cs[j] == Comp::Parent implies !(#[trigger] cs[i] is Normal) by {
        if j >= pre + r.ups {
            assert(cs[j] == Comp::Normal(r.names[j - pre - r.ups]));
        }
    }
}

/// Normalizing a normalized path changes nothing.
pub proof fn lemma_normalize_idempotent(p: Seq<char>)
    ensures
        normalized(normalized(p)) == normalized(p),
{
    let r = resolve(components(p));
    lemma_normalized_components(p);
    lemma_components_wf(p);
    lemma_resolve_wf(components(p));
    lemma_resolve_canonical(r);
}

/// The path without its final component, as `Path::parent`: none for a path
/// that is empty or ends at the root (written with single separators).
pub open spec fn parent_spec(p: Seq<char>) -> Option<Seq<char>> {
    let cs = components(p);
    if cs.len() > 0 && cs.last() != Comp::Root {
        Some(render_comps(cs.drop_last()))
    } else {
        None
    }
}

/// The parent of `p`, if it has one.
pub fn parent(p: &str) -> (res: Option<String>)
    ensures
        res matches Some(r) ==> parent_spec(p@) == Some(r@),
        res is None ==> parent_spec(p@) is None,
{
    let cs = components_of(p);
    let ghost cv = comp_views(cs@);
    let n = cs.len();
    if n == 0 {
        return None;
    }
    if matches!(cs[n - 1], Component::RootDir) {
        assert(cv.last() == Comp::Root);
        return None;
    }
    assert(cv.last() != Comp::Root);
    assert(cv.take(n - 1) =~= cv.drop_last());
    Some(render_prefix(&cs, n - 1))
}

/// The path made of the names `names`, from a relative start: the names
/// joined with `/` (the empty path for no names).
pub open spec fn names_path(names: Seq<Seq<char>>) -> Seq<char> {
    joined(names, seq![slash()])
}

/// Every name of `names` is one that a normal component can hold.
pub open spec fn wf_names(names: Seq<Seq<char>>) -> bool {
    forall|k: int| 0 <= k < names.len() ==> wf_name(#[trigger] names[k])
}

proof fn lemma_names_path_tail(names: Seq<Seq<char>>) -> (head: Seq<char>)
    requires
        names.len() > 0,
    ensures
        names_path(names) == head + names.last(),
    decreases names.len(),
{
    if names.len() == 1 {
        assert(Seq::<char>::empty() + names.last() =~= names[0]);
        Seq::empty()
    } else {
        names_path(names.drop_last()) + seq![slash()]
    }
}

/// Joining one more name onto a path of names gives the path of the longer
/// list of names.
pub proof fn lemma_join_name(names: Seq<Seq<char>>, n: Seq<char>)
    requires
        wf_names(names),
        wf_name(n),
    ensures
        join_spec(names_path(names), n) == names_path(names.push(n)),
{
    assert(names.push(n).drop_last() =~= names);
    assert(names.push(n).last() == n);
    if !n.contains(slash()) {
        assert(n[0] != slash()) by {
            if n[0] == slash() {
                assert(n.contains(slash()));
            }
        }
    }
    if names.len() == 0 {
        assert(names.push(n).len() == 1);
        assert(names_path(names) =~= Seq::<char>::empty());
        assert(names_path(names.push(n)) == n);
        assert(Seq::<char>::empty() + n =~= n);
    } else {
        let head = lemma_names_path_tail(names);
        let last = names.last();
        assert(wf_name(names[names.len() - 1]));
        assert(last.len() > 0);
        assert(names_path(names).last() == last.last());
        assert(last.last() != slash()) by {
            if last.last() == slash() {
                assert(last[last.len() - 1] == slash());
                assert(last.contains(slash()));
            }
        }
    }
}

/// Different lists of names give different paths.
pub proof fn lemma_names_path_injective(a: Seq<Seq<char>>, b: Seq<Seq<char>>)
    requires
        wf_names(a),
        wf_names(b),
        names_path(a) == names_path(b),
    ensures
        a == b,
{
    assert forall|k: int| 0 <= k < a.len() implies !(#[trigger] a[k]).contains(slash()) by {
        assert(wf_name(a[k]));
    }
    assert forall|k: int| 0 <= k < b.len() implies !(#[trigger] b[k]).contains(slash()) by {
        assert(wf_name(b[k]));
    }
    if a.len() > 0 && b.len() > 0 {
        lemma_segments_joined(a);
        lemma_segments_joined(b);
    } else if a.len() > 0 {
        let h = lemma_names_path_tail(a);
        assert(wf_name(a[a.len() - 1]));
        assert(names_path(b) =~= Seq::<char>::empty());
    } else if b.len() > 0 {
        let h = lemma_names_path_tail(b);
        assert(wf_name(b[b.len() - 1]));
        assert(names_path(a) =~= Seq::<char>::empty());
    } else {
        assert(a =~= b);
    }
}

} // verus!

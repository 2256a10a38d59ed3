//! Finding the managed dotdirs of a project and the dotdirs of a repo.
//!
//! The directory walk reads the file system, so it is run from outside as a
//! state machine: `DotdirScan::next_dir` says which directory to read next and
//! `DotdirScan::visit` takes what was read there. Driven that way, the scan
//! finds each managed directory once, so the discovered dotdirs come in
//! strictly ascending order.
use vstd::prelude::*;
use crate::config::{load, load_spec, DotdirConfig, FileState, LoadError, LoadFailure, RawDotdirConfig, RootConfig};
use crate::path::{
    join, join_spec, lemma_join_name, lemma_names_path_injective, names_path, wf_name, wf_names,
};
use crate::sort::{sort_strings, sorted, strictly_sorted};
use crate::text::{str_eq, views};

verus! {

broadcast use vstd::seq_lib::group_seq_properties;

/// What a directory listing says of one entry.
#[derive(Debug, Clone)]
pub struct DirEntryInfo {
    pub name: String,
    /// The entry is a directory (symbolic links are not followed).
    pub is_dir: bool,
    pub is_symlink: bool,
    /// The entry holds a `.hippocampus.toml`.
    pub has_config: bool,
}

/// The scan looks into a directory entry: a real directory, not a link.
pub open spec fn scanned(e: DirEntryInfo) -> bool {
    e.is_dir && !e.is_symlink
}

/// The entries of `entries` that are managed dotdirs, as paths under `dir`.
pub open spec fn managed_in(dir: Seq<char>, entries: Seq<DirEntryInfo>) -> Seq<Seq<char>> {
    entries.filter(|e: DirEntryInfo| scanned(e) && e.has_config).map_values(
        |e: DirEntryInfo| join_spec(dir, e.name@),
    )
}

/// The entries of `entries` that the scan descends into, as paths under `dir`.
pub open spec fn descended_in(dir: Seq<char>, entries: Seq<DirEntryInfo>) -> Seq<Seq<char>> {
    entries.filter(|e: DirEntryInfo| scanned(e) && !e.has_config).map_values(
        |e: DirEntryInfo| join_spec(dir, e.name@),
    )
}

/// A depth-first scan for directories that hold a `.hippocampus.toml`.
/// Paths are relative to the directory the scan started at, which is `""`.
/// A managed directory is not looked into further.
pub struct DotdirScan {
    /// Directories still to be read; the last is read next.
    pub pending: Vec<String>,
    /// Managed directories found so far, in the order found.
    pub found: Vec<String>,
    /// The names leading from the start to each pending directory.
    pub pending_names: Ghost<Seq<Seq<Seq<char>>>>,
    /// The names leading from the start to each found directory.
    pub found_names: Ghost<Seq<Seq<Seq<char>>>>,
    /// The names leading to the directory handed out by `next_dir` and not
    /// visited yet, if any.
    pub current: Ghost<Option<Seq<Seq<char>>>>,
}

/// The directory `a` is `b` or one above it.
pub open spec fn at_or_above(a: Seq<Seq<char>>, b: Seq<Seq<char>>) -> bool {
    a.len() <= b.len() && b.take(a.len() as int) == a
}

/// Neither directory is `b` or above the other.
pub open spec fn apart(a: Seq<Seq<char>>, b: Seq<Seq<char>>) -> bool {
    !at_or_above(a, b) && !at_or_above(b, a)
}

/// The value of `o` as a list of one, or the empty list.
pub open spec fn opt_seq<A>(o: Option<A>) -> Seq<A> {
    match o {
        Some(x) => seq![x],
        None => Seq::empty(),
    }
}

/// Every directory of the list is made of proper names, and no two of them
/// are the same or one above the other.
pub open spec fn all_apart(dirs: Seq<Seq<Seq<char>>>) -> bool {
    &&& forall|i: int| 0 <= i < dirs.len() ==> wf_names(#[trigger] dirs[i])
    &&& forall|i: int, j: int|
        0 <= i < dirs.len() && 0 <= j < dirs.len() && i != j ==> apart(
            #[trigger] dirs[i],
            #[trigger] dirs[j],
        )
}

/// `dir` is the directory that the scan handed out last, the scan is well
/// formed, and the listing is one the file system gives.
pub open spec fn visit_ready(s: DotdirScan, dir: Seq<char>, entries: Seq<DirEntryInfo>) -> bool {
    &&& s.wf()
    &&& s.current@ matches Some(c) && dir == names_path(c)
    &&& listing_ok(entries)
}

/// A listing as the file system gives it: proper names, each once.
pub open spec fn listing_ok(entries: Seq<DirEntryInfo>) -> bool {
    &&& forall|k: int| 0 <= k < entries.len() ==> wf_name(#[trigger] entries[k].name@)
    &&& forall|j: int, k: int|
        0 <= j < entries.len() && 0 <= k < entries.len() && j != k ==> #[trigger] entries[j].name@
            != #[trigger] entries[k].name@
}

proof fn lemma_apart_extend(x: Seq<Seq<char>>, c: Seq<Seq<char>>, n: Seq<char>)
    requires
        apart(x, c),
    ensures
        apart(x, c.push(n)),
{
    let d = c.push(n);
    if at_or_above(x, d) {
        if x.len() <= c.len() {
            assert(c.take(x.len() as int) =~= d.take(x.len() as int));
        } else {
            assert(x.take(c.len() as int) =~= d.take(c.len() as int));
            assert(d.take(c.len() as int) =~= c);
        }
    }
    if at_or_above(d, x) {
        assert(x.take(c.len() as int) =~= x.take(d.len() as int).take(c.len() as int));
        assert(d.take(c.len() as int) =~= c);
    }
}

proof fn lemma_apart_siblings(c: Seq<Seq<char>>, a: Seq<char>, b: Seq<char>)
    requires
        a != b,
    ensures
        apart(c.push(a), c.push(b)),
{
    if at_or_above(c.push(a), c.push(b)) {
        assert(c.push(b).take(c.len() + 1int) =~= c.push(b));
        assert(c.push(a).last() == a);
    }
    if at_or_above(c.push(b), c.push(a)) {
        assert(c.push(a).take(c.len() + 1int) =~= c.push(a));
        assert(c.push(b).last() == b);
    }
}

/// After a visit: the old directories without the one visited, and its
/// subdirectories (descended into and found), each the visited one plus the
/// name of a distinct entry, are still apart.
proof fn lemma_visit_apart(
    pn0: Seq<Seq<Seq<char>>>,
    fn0: Seq<Seq<Seq<char>>>,
    c: Seq<Seq<char>>,
    snew: Seq<Seq<Seq<char>>>,
    ssrc: Seq<int>,
    fnew: Seq<Seq<Seq<char>>>,
    fsrc: Seq<int>,
    names: Seq<Seq<char>>,
)
    requires
        all_apart(pn0 + fn0 + seq![c]),
        snew.len() == ssrc.len(),
        fnew.len() == fsrc.len(),
        forall|k: int|
            0 <= k < snew.len() ==> 0 <= #[trigger] ssrc[k] < names.len() && snew[k] == c.push(
                names[ssrc[k]],
            ),
        forall|k: int|
            0 <= k < fnew.len() ==> 0 <= #[trigger] fsrc[k] < names.len() && fnew[k] == c.push(
                names[fsrc[k]],
            ),
        ssrc.no_duplicates(),
        fsrc.no_duplicates(),
        forall|a: int, b: int| 0 <= a < ssrc.len() && 0 <= b < fsrc.len() ==> #[trigger] ssrc[a] != #[trigger] fsrc[b],
        forall|k: int| 0 <= k < names.len() ==> wf_name(#[trigger] names[k]),
        forall|j: int, k: int|
            0 <= j < names.len() && 0 <= k < names.len() && j != k ==> #[trigger] names[j] != #[trigger] names[k],
    ensures
        all_apart(pn0 + snew.reverse() + fn0 + fnew),
{
    let old_all = pn0 + fn0 + seq![c];
    let all = pn0 + snew.reverse() + fn0 + fnew;
    let pa = pn0.len() as int;
    let sl = snew.len() as int;
    let f0 = fn0.len() as int;
    let ci = pa + f0;
    assert(old_all[ci] == c);
    assert(wf_names(c));
    assert forall|i: int| 0 <= i < all.len() implies wf_names(#[trigger] all[i]) by {
        if i < pa {
            assert(all[i] == old_all[i]);
        } else if i < pa + sl {
            let k = sl - 1 - (i - pa);
            assert(all[i] == snew[k]);
            let n = names[ssrc[k]];
            assert(wf_name(n));
            assert forall|m: int| 0 <= m < all[i].len() implies wf_name(#[trigger] all[i][m]) by {
                if m < c.len() {
                    assert(all[i][m] == c[m]);
                }
            }
        } else if i < pa + sl + f0 {
            assert(all[i] == old_all[i - sl]);
        } else {
            let k = i - (pa + sl + f0);
            assert(all[i] == fnew[k]);
            let n = names[fsrc[k]];
            assert(wf_name(n));
            assert forall|m: int| 0 <= m < all[i].len() implies wf_name(#[trigger] all[i][m]) by {
                if m < c.len() {
                    assert(all[i][m] == c[m]);
                }
            }
        }
    }
    assert forall|i: int, j: int|
        0 <= i < all.len() && 0 <= j < all.len() && i != j implies apart(
        #[trigger] all[i],
        #[trigger] all[j],
    ) by {
        let i_old = i < pa || (pa + sl <= i < pa + sl + f0);
        let j_old = j < pa || (pa + sl <= j < pa + sl + f0);
        let oi = if i < pa { i } else { i - sl };
        let oj = if j < pa { j } else { j - sl };
        let si = if i < pa + sl { ssrc[sl - 1 - (i - pa)] } else { fsrc[i - (pa + sl + f0)] };
        let sj = if j < pa + sl { ssrc[sl - 1 - (j - pa)] } else { fsrc[j - (pa + sl + f0)] };
        if i_old {
            assert(all[i] == old_all[oi]);
        } else {
            if i < pa + sl {
                assert(all[i] == snew[sl - 1 - (i - pa)]);
            } else {
                assert(all[i] == fnew[i - (pa + sl + f0)]);
            }
            assert(all[i] == c.push(names[si]));
        }
        if j_old {
            assert(all[j] == old_all[oj]);
        } else {
            if j < pa + sl {
                assert(all[j] == snew[sl - 1 - (j - pa)]);
            } else {
                assert(all[j] == fnew[j - (pa + sl + f0)]);
            }
            assert(all[j] == c.push(names[sj]));
        }
        if i_old && j_old {
            assert(apart(old_all[oi], old_all[oj]));
        } else if i_old {
            assert(apart(old_all[oi], old_all[ci]));
            lemma_apart_extend(old_all[oi], c, names[sj]);
        } else if j_old {
            assert(apart(old_all[oj], old_all[ci]));
            lemma_apart_extend(old_all[oj], c, names[si]);
        } else {
            assert(si != sj);
            assert(names[si] != names[sj]);
            lemma_apart_siblings(c, names[si], names[sj]);
        }
    }
}

impl DotdirScan {
    /// A scan that starts at the project root itself.
    pub fn new() -> (res: Self)
        ensures
            views(res.pending@) == seq![Seq::<char>::empty()],
            res.found@.len() == 0,
            res.wf(),
    {
        let mut pending = Vec::new();
        pending.push(String::new());
        assert(views(pending@) =~= seq![Seq::<char>::empty()]);
        let ghost start: Seq<Seq<char>> = Seq::empty();
        let pending_names: Ghost<Seq<Seq<Seq<char>>>> = Ghost(Seq::empty().push(start));
        let found_names: Ghost<Seq<Seq<Seq<char>>>> = Ghost(Seq::empty());
        let current: Ghost<Option<Seq<Seq<char>>>> = Ghost(None);
        let res = DotdirScan { pending, found: Vec::new(), pending_names, found_names, current };
        proof {
            assert(names_path(start) =~= Seq::<char>::empty());
            assert(views(res.pending@) =~= res.pending_names@.map_values(|n: Seq<Seq<char>>| names_path(n)));
            assert(views(res.found@) =~= res.found_names@.map_values(|n: Seq<Seq<char>>| names_path(n)));
            assert(res.dirs() =~= seq![start]);
        }
        res
    }

    /// Every directory the scan holds: pending, found, and the one handed out.
    pub open spec fn dirs(&self) -> Seq<Seq<Seq<char>>> {
        self.pending_names@ + self.found_names@ + opt_seq(self.current@)
    }

    /// The scan is one that started at `new` and was driven as meant: its
    /// directories are the paths of their names, and no two of them are the
    /// same or one above the other.
    pub open spec fn wf(&self) -> bool {
        &&& views(self.pending@) == self.pending_names@.map_values(|n: Seq<Seq<char>>| names_path(n))
        &&& views(self.found@) == self.found_names@.map_values(|n: Seq<Seq<char>>| names_path(n))
        &&& all_apart(self.dirs())
    }

    /// The next directory to read, relative to the start, if any is left.
    pub fn next_dir(&mut self) -> (res: Option<String>)
        ensures
            old(self).pending@.len() == 0 ==> res is None && final(self).pending@ == old(self).pending@ && final(self).found == old(self).found,
            old(self).pending@.len() > 0 ==> (res matches Some(d) && d == old(self).pending@.last()
                && final(self).pending@ == old(self).pending@.drop_last() && final(self).found
                == old(self).found),
            old(self).wf() ==> final(self).wf(),
            old(self).wf() ==> match res {
                Some(d) => final(self).current@ matches Some(c) && d@ == names_path(c),
                None => final(self).current@ is None,
            },
            res is Some ==> final(self).current@ == Some(old(self).pending_names@.last())
                && final(self).pending_names@ == old(self).pending_names@.drop_last(),
            final(self).found_names == old(self).found_names,
    {
        let ghost s0 = *self;
        let r = self.pending.pop();
        if r.is_some() {
            let cur: Ghost<Option<Seq<Seq<char>>>> = Ghost(Some(s0.pending_names@.last()));
            let rest: Ghost<Seq<Seq<Seq<char>>>> = Ghost(s0.pending_names@.drop_last());
            self.current = cur;
            self.pending_names = rest;
        } else {
            let cur: Ghost<Option<Seq<Seq<char>>>> = Ghost(None);
            self.current = cur;
        }
        proof {
            if s0.wf() {
                let pn = s0.pending_names@;
                let old_all = s0.dirs();
                let all = self.dirs();
                let pl = pn.len() as int;
                let pf = |n: Seq<Seq<char>>| names_path(n);
                assert(views(s0.pending@) == pn.map_values(pf));
                assert(views(s0.pending@).len() == s0.pending@.len());
                assert(pn.map_values(pf).len() == pn.len());
                if r is Some {
                    assert(views(self.pending@) =~= views(s0.pending@).drop_last());
                    assert(pn.map_values(pf).drop_last() =~= pn.drop_last().map_values(pf));
                    assert(views(self.pending@) =~= pn.drop_last().map_values(
                        |n: Seq<Seq<char>>| names_path(n),
                    ));
                    assert(views(s0.pending@)[pl - 1] == names_path(pn[pl - 1]));
                    assert forall|i: int| 0 <= i < all.len() implies wf_names(#[trigger] all[i]) by {
                        if i < pl - 1 {
                            assert(all[i] == old_all[i]);
                        } else if i < all.len() - 1 {
                            assert(all[i] == old_all[i + 1]);
                        } else {
                            assert(all[i] == old_all[pl - 1]);
                        }
                    }
                    assert forall|i: int, j: int|
                        0 <= i < all.len() && 0 <= j < all.len() && i != j implies apart(
                        #[trigger] all[i],
                        #[trigger] all[j],
                    ) by {
                        let oi = if i < pl - 1 { i } else if i < all.len() - 1 { i + 1 } else { pl - 1 };
                        let oj = if j < pl - 1 { j } else if j < all.len() - 1 { j + 1 } else { pl - 1 };
                        assert(all[i] == old_all[oi]);
                        assert(all[j] == old_all[oj]);
                    }
                } else {
                    assert(pn.len() == 0);
                    assert forall|i: int| 0 <= i < all.len() implies wf_names(#[trigger] all[i]) by {
                        assert(all[i] == old_all[i]);
                    }
                    assert forall|i: int, j: int|
                        0 <= i < all.len() && 0 <= j < all.len() && i != j implies apart(
                        #[trigger] all[i],
                        #[trigger] all[j],
                    ) by {
                        assert(all[i] == old_all[i]);
                        assert(all[j] == old_all[j]);
                    }
                }
            }
        }
        r
    }

    /// Takes the listing of the directory `dir` (relative to the start): its
    /// managed subdirectories are found, and the other real subdirectories are
    /// read next, first entry first. When `dir` is the directory that
    /// `next_dir` handed out and the listing is one the file system gives, the
    /// scan stays well formed.
    pub fn visit(&mut self, dir: &str, entries: &Vec<DirEntryInfo>)
        ensures
            views(final(self).found@) == views(old(self).found@) + managed_in(dir@, entries@),
            views(final(self).pending@) == views(old(self).pending@) + descended_in(
                dir@,
                entries@,
            ).reverse(),
            final(self).current@ is None,
            visit_ready(*old(self), dir@, entries@) ==> final(self).wf(),
            old(self).current@ matches Some(c) ==> final(self).found_names@ == old(
                self,
            ).found_names@ + managed_names(c, entries@) && final(self).pending_names@ == old(
                self,
            ).pending_names@ + descended_names(c, entries@).reverse(),
    {
        let ghost s0 = *self;
        let ghost ok = visit_ready(s0, dir@, entries@);
        let ghost c: Seq<Seq<char>> = match s0.current@ {
            Some(x) => x,
            None => Seq::empty(),
        };
        let ghost pf = |n: Seq<Seq<char>>| names_path(n);
        let ghost f0 = views(self.found@);
        let ghost p0 = views(self.pending@);
        let ghost pm = |e: DirEntryInfo| scanned(e) && e.has_config;
        let ghost pd = |e: DirEntryInfo| scanned(e) && !e.has_config;
        let ghost to_path = |e: DirEntryInfo| join_spec(dir@, e.name@);
        let ghost mkc = |e: DirEntryInfo| c.push(e.name@);
        let ghost mut fnew: Seq<Seq<Seq<char>>> = Seq::empty();
        let ghost mut fsrc: Seq<int> = Seq::empty();
        let ghost mut snew: Seq<Seq<Seq<char>>> = Seq::empty();
        let ghost mut ssrc: Seq<int> = Seq::empty();
        proof {
            if ok {
                assert(s0.dirs()[s0.dirs().len() - 1] == c);
            }
        }
        let n = entries.len();
        let mut sub: Vec<String> = Vec::new();
        for i in 0..n
            invariant
                n == entries@.len(),
                pm == (|e: DirEntryInfo| scanned(e) && e.has_config),
                pd == (|e: DirEntryInfo| scanned(e) && !e.has_config),
                to_path == (|e: DirEntryInfo| join_spec(dir@, e.name@)),
                pf == (|n: Seq<Seq<char>>| names_path(n)),
                mkc == (|e: DirEntryInfo| c.push(e.name@)),
                fnew == entries@.take(i as int).filter(pm).map_values(mkc),
                snew == entries@.take(i as int).filter(pd).map_values(mkc),
                views(self.found@) == f0 + entries@.take(i as int).filter(pm).map_values(to_path),
                views(sub@) == entries@.take(i as int).filter(pd).map_values(to_path),
                views(self.pending@) == p0,
                self.current == s0.current,
                self.pending_names == s0.pending_names,
                self.found_names == s0.found_names,
                ok ==> visit_ready(s0, dir@, entries@),
                ok ==> wf_names(c),
                ok ==> dir@ == names_path(c),
                ok ==> views(self.found@) == f0 + fnew.map_values(pf),
                ok ==> views(sub@) == snew.map_values(pf),
                fnew.len() == fsrc.len(),
                snew.len() == ssrc.len(),
                forall|k: int|
                    0 <= k < fnew.len() ==> 0 <= #[trigger] fsrc[k] < i && fnew[k] == c.push(
                        entries@[fsrc[k]].name@,
                    ),
                forall|k: int|
                    0 <= k < snew.len() ==> 0 <= #[trigger] ssrc[k] < i && snew[k] == c.push(
                        entries@[ssrc[k]].name@,
                    ),
                fsrc.no_duplicates(),
                ssrc.no_duplicates(),
                forall|a: int, b: int|
                    0 <= a < ssrc.len() && 0 <= b < fsrc.len() ==> #[trigger] ssrc[a]
                        != #[trigger] fsrc[b],
        {
            let e = &entries[i];
            proof {
                assert(entries@.take(i + 1) =~= entries@.take(i as int).push(entries@[i as int]));
                entries@.take(i as int).lemma_filter_push(entries@[i as int], pm);
                entries@.take(i as int).lemma_filter_push(entries@[i as int], pd);
                entries@.take(i as int).filter(pm).lemma_push_map_commute(to_path, entries@[i as int]);
                entries@.take(i as int).filter(pd).lemma_push_map_commute(to_path, entries@[i as int]);
                entries@.take(i as int).filter(pm).lemma_push_map_commute(mkc, entries@[i as int]);
                entries@.take(i as int).filter(pd).lemma_push_map_commute(mkc, entries@[i as int]);
            }
            if e.is_dir && !e.is_symlink {
                let p = join(dir, e.name.as_str());
                proof {
                    if ok {
                        assert(wf_name(entries@[i as int].name@));
                        lemma_join_name(c, e.name@);
                    }
                }
                if e.has_config {
                    let ghost before = views(self.found@);
                    self.found.push(p);
                    assert(views(self.found@) =~= before.push(p@));
                    proof {
                        let x = c.push(e.name@);
                        if ok {
                            assert(f0 + fnew.push(x).map_values(pf) =~= (f0 + fnew.map_values(pf)).push(
                                p@,
                            ));
                        }
                        fnew = fnew.push(x);
                        fsrc = fsrc.push(i as int);
                    }
                } else {
                    let ghost before = views(sub@);
                    sub.push(p);
                    assert(views(sub@) =~= before.push(p@));
                    proof {
                        let x = c.push(e.name@);
                        if ok {
                            assert(snew.push(x).map_values(pf) =~= snew.map_values(pf).push(p@));
                        }
                        snew = snew.push(x);
                        ssrc = ssrc.push(i as int);
                    }
                }
            }
        }
        assert(entries@.take(n as int) =~= entries@);
        let ghost sv = views(sub@);
        let m = sub.len();
        let mut k = m;
        while k > 0
            invariant
                k <= m,
                m == sub@.len(),
                sv == views(sub@),
                views(self.pending@) == p0 + sv.skip(k as int).reverse(),
                views(self.found@) == f0 + managed_in(dir@, entries@),
                self.current == s0.current,
                self.pending_names == s0.pending_names,
                self.found_names == s0.found_names,
            decreases k,
        {
            k = k - 1;
            let ghost before = views(self.pending@);
            self.pending.push(sub[k].clone());
            assert(sv.skip(k as int).reverse() =~= sv.skip(k + 1).reverse().push(sv[k as int]));
            assert(views(self.pending@) =~= before.push(sv[k as int]));
        }
        assert(sv.skip(0) =~= sv);
        let new_pending: Ghost<Seq<Seq<Seq<char>>>> = Ghost(s0.pending_names@ + snew.reverse());
        let new_found: Ghost<Seq<Seq<Seq<char>>>> = Ghost(s0.found_names@ + fnew);
        let no_current: Ghost<Option<Seq<Seq<char>>>> = Ghost(None);
        self.pending_names = new_pending;
        self.found_names = new_found;
        self.current = no_current;
        proof {
            if ok {
                let pn0 = s0.pending_names@;
                let fn0 = s0.found_names@;
                assert(s0.dirs() =~= pn0 + fn0 + seq![c]);
                assert(views(self.pending@) =~= (pn0 + snew.reverse()).map_values(pf));
                assert(views(self.found@) =~= (fn0 + fnew).map_values(pf));
                lemma_visit_apart(
                    pn0,
                    fn0,
                    c,
                    snew,
                    ssrc,
                    fnew,
                    fsrc,
                    entries@.map_values(|e: DirEntryInfo| e.name@),
                );
                assert(self.dirs() =~= pn0 + snew.reverse() + fn0 + fnew);
            }
        }
    }
}

/// The directories that the scan finds under `d` in the listing `es`: the
/// real subdirectories that hold a configuration, by names, in listing order.
pub open spec fn managed_names(d: Seq<Seq<char>>, es: Seq<DirEntryInfo>) -> Seq<Seq<Seq<char>>> {
    es.filter(|e: DirEntryInfo| scanned(e) && e.has_config).map_values(
        |e: DirEntryInfo| d.push(e.name@),
    )
}

/// The directories that the scan looks into next under `d` in the listing
/// `es`: the real subdirectories without a configuration, in listing order.
pub open spec fn descended_names(d: Seq<Seq<char>>, es: Seq<DirEntryInfo>) -> Seq<Seq<Seq<char>>> {
    es.filter(|e: DirEntryInfo| scanned(e) && !e.has_config).map_values(
        |e: DirEntryInfo| d.push(e.name@),
    )
}

/// In the directory tree `tree` (the listing of each directory, by the names
/// leading to it from the start), the directory `d` has an entry named `n`
/// that is a real directory, holding a configuration or not as `managed` says.
pub open spec fn has_child(
    tree: spec_fn(Seq<Seq<char>>) -> Seq<DirEntryInfo>,
    d: Seq<Seq<char>>,
    n: Seq<char>,
    managed: bool,
) -> bool {
    exists|j: int|
        0 <= j < tree(d).len() && (#[trigger] tree(d)[j]).name@ == n && scanned(tree(d)[j])
            && tree(d)[j].has_config == managed
}

/// The directory `p` is reached from the start through real directories none
/// of which holds a configuration (the start itself is one such).
pub open spec fn open_dir(tree: spec_fn(Seq<Seq<char>>) -> Seq<DirEntryInfo>, p: Seq<Seq<char>>) -> bool {
    forall|k: int| 0 <= k < p.len() ==> has_child(tree, p.take(k), #[trigger] p[k], false)
}

/// The directory `p` is a managed dotdir of the tree: a real directory that
/// holds a configuration, below the start, with no symbolic link and no
/// managed directory above it.
pub open spec fn managed_dir(tree: spec_fn(Seq<Seq<char>>) -> Seq<DirEntryInfo>, p: Seq<Seq<char>>) -> bool {
    p.len() > 0 && open_dir(tree, p.drop_last()) && has_child(tree, p.drop_last(), p.last(), true)
}

/// `q` is a directory strictly above `p`.
pub open spec fn strictly_above(q: Seq<Seq<char>>, p: Seq<Seq<char>>) -> bool {
    q.len() < p.len() && p.take(q.len() as int) == q
}

/// One round of the scan over `tree`: the last pending directory is read, its
/// managed subdirectories are found and the others are read next (as
/// `DotdirScan::next_dir` and `DotdirScan::visit` do).
pub open spec fn scan_step(
    tree: spec_fn(Seq<Seq<char>>) -> Seq<DirEntryInfo>,
    pending: Seq<Seq<Seq<char>>>,
    found: Seq<Seq<Seq<char>>>,
) -> (Seq<Seq<Seq<char>>>, Seq<Seq<Seq<char>>>) {
    let d = pending.last();
    (pending.drop_last() + descended_names(d, tree(d)).reverse(), found + managed_names(d, tree(d)))
}

/// What the scan has found once no directory is pending, if that happens
/// within `fuel` rounds.
pub open spec fn scan_run(
    tree: spec_fn(Seq<Seq<char>>) -> Seq<DirEntryInfo>,
    pending: Seq<Seq<Seq<char>>>,
    found: Seq<Seq<Seq<char>>>,
    fuel: nat,
) -> Option<Seq<Seq<Seq<char>>>>
    decreases fuel,
{
    if pending.len() == 0 {
        Some(found)
    } else if fuel == 0 {
        None
    } else {
        let (p, f) = scan_step(tree, pending, found);
        scan_run(tree, p, f, (fuel - 1) as nat)
    }
}

/// What holds at every round: pending directories are open ones, found
/// directories are managed ones, and every managed directory is found or
/// lies below a pending one.
pub open spec fn scan_inv(
    tree: spec_fn(Seq<Seq<char>>) -> Seq<DirEntryInfo>,
    pending: Seq<Seq<Seq<char>>>,
    found: Seq<Seq<Seq<char>>>,
) -> bool {
    &&& forall|i: int| 0 <= i < pending.len() ==> open_dir(tree, #[trigger] pending[i])
    &&& forall|i: int| 0 <= i < found.len() ==> managed_dir(tree, #[trigger] found[i])
    &&& forall|p: Seq<Seq<char>>|
        managed_dir(tree, p) ==> found.contains(p) || exists|i: int|
            0 <= i < pending.len() && strictly_above(#[trigger] pending[i], p)
}

proof fn lemma_open_push(tree: spec_fn(Seq<Seq<char>>) -> Seq<DirEntryInfo>, d: Seq<Seq<char>>, n: Seq<char>)
    requires
        open_dir(tree, d),
        has_child(tree, d, n, false),
    ensures
        open_dir(tree, d.push(n)),
{
    let p = d.push(n);
    assert forall|k: int| 0 <= k < p.len() implies has_child(tree, p.take(k), #[trigger] p[k], false) by {
        if k < d.len() {
            assert(p.take(k) =~= d.take(k));
            assert(p[k] == d[k]);
        } else {
            assert(p.take(k) =~= d);
        }
    }
}

/// The entry of `es` at filtered position `k` is a listing entry at some index.
proof fn lemma_filtered_entry(es: Seq<DirEntryInfo>, pred: spec_fn(DirEntryInfo) -> bool, k: int) -> (j: int)
    requires
        0 <= k < es.filter(pred).len(),
    ensures
        0 <= j < es.len(),
        es[j] == es.filter(pred)[k],
        pred(es[j]),
{
    es.lemma_filter_pred(pred, k);
    let e = es.filter(pred)[k];
    assert(es.filter(pred).contains(e));
    es.lemma_filter_contains_rev(pred, e);
    choose|j: int| 0 <= j < es.len() && es[j] == e
}

/// A listing entry that passes `pred` gives an element of the mapped filter.
proof fn lemma_entry_mapped(
    es: Seq<DirEntryInfo>,
    pred: spec_fn(DirEntryInfo) -> bool,
    d: Seq<Seq<char>>,
    j: int,
)
    requires
        0 <= j < es.len(),
        pred(es[j]),
    ensures
        es.filter(pred).map_values(|e: DirEntryInfo| d.push(e.name@)).contains(d.push(es[j].name@)),
{
    es.lemma_filter_contains(pred, j);
    let f = es.filter(pred);
    let k = choose|k: int| 0 <= k < f.len() && f[k] == es[j];
    let m = f.map_values(|e: DirEntryInfo| d.push(e.name@));
    assert(m[k] == d.push(es[j].name@));
}

proof fn lemma_scan_step_inv(
    tree: spec_fn(Seq<Seq<char>>) -> Seq<DirEntryInfo>,
    pending: Seq<Seq<Seq<char>>>,
    found: Seq<Seq<Seq<char>>>,
)
    requires
        scan_inv(tree, pending, found),
        pending.len() > 0,
    ensures
        scan_inv(tree, scan_step(tree, pending, found).0, scan_step(tree, pending, found).1),
{
    let d = pending.last();
    let es = tree(d);
    let pm = |e: DirEntryInfo| scanned(e) && e.has_config;
    let pd = |e: DirEntryInfo| scanned(e) && !e.has_config;
    let mk = |e: DirEntryInfo| d.push(e.name@);
    let mm = es.filter(pm).map_values(mk);
    let dd = es.filter(pd).map_values(mk);
    assert(mm == managed_names(d, es));
    assert(dd == descended_names(d, es));
    let np = pending.drop_last() + dd.reverse();
    let nf = found + mm;
    assert(scan_step(tree, pending, found) == (np, nf));
    let pl = pending.len() - 1;
    assert(open_dir(tree, pending[pl]));
    assert(pending[pl] == d);
    assert forall|i: int| 0 <= i < np.len() implies open_dir(tree, #[trigger] np[i]) by {
        if i < pl {
            assert(np[i] == pending[i]);
        } else {
            let k = dd.len() - 1 - (i - pl);
            assert(np[i] == dd[k]);
            let j = lemma_filtered_entry(es, pd, k);
            assert(dd[k] == d.push(es[j].name@));
            lemma_open_push(tree, d, es[j].name@);
        }
    }
    assert forall|i: int| 0 <= i < nf.len() implies managed_dir(tree, #[trigger] nf[i]) by {
        if i < found.len() {
            assert(nf[i] == found[i]);
        } else {
            let k = i - found.len();
            assert(nf[i] == mm[k]);
            let j = lemma_filtered_entry(es, pm, k);
            assert(mm[k] == d.push(es[j].name@));
            assert(d.push(es[j].name@).drop_last() =~= d);
        }
    }
    assert forall|p: Seq<Seq<char>>| managed_dir(tree, p) implies nf.contains(p) || exists|i: int|
        0 <= i < np.len() && strictly_above(#[trigger] np[i], p) by {
        if found.contains(p) {
            let i = choose|i: int| 0 <= i < found.len() && found[i] == p;
            assert(nf[i] == p);
        } else {
            let i = choose|i: int| 0 <= i < pending.len() && strictly_above(#[trigger] pending[i], p);
            if i < pl {
                assert(np[i] == pending[i]);
            } else {
                assert(i == pl);
                let n = p[d.len() as int];
                let q = d.push(n);
                assert(p.take(d.len() + 1int) =~= q) by {
                    assert(p.take(d.len() as int) == d);
                }
                if p.len() == d.len() + 1 {
                    assert(p.drop_last() =~= d);
                    assert(p.last() == n);
                    let j = choose|j: int|
                        0 <= j < tree(d).len() && (#[trigger] tree(d)[j]).name@ == n && scanned(
                            tree(d)[j],
                        ) && tree(d)[j].has_config == true;
                    lemma_entry_mapped(es, pm, d, j);
                    assert(q =~= p);
                    let k = choose|k: int| 0 <= k < mm.len() && mm[k] == q;
                    assert(nf[found.len() + k] == p);
                } else {
                    let k0 = d.len() as int;
                    assert(open_dir(tree, p.drop_last()));
                    assert(p.drop_last()[k0] == n);
                    assert(p.drop_last().take(k0) =~= d);
                    assert(has_child(tree, p.drop_last().take(k0), p.drop_last()[k0], false));
                    let j = choose|j: int|
                        0 <= j < tree(d).len() && (#[trigger] tree(d)[j]).name@ == n && scanned(
                            tree(d)[j],
                        ) && tree(d)[j].has_config == false;
                    lemma_entry_mapped(es, pd, d, j);
                    let k = choose|k: int| 0 <= k < dd.len() && dd[k] == q;
                    let idx = pl + (dd.len() - 1 - k);
                    assert(np[idx] == dd[k]);
                    assert(strictly_above(np[idx], p));
                }
            }
        }
    }
}

proof fn lemma_scan_run_inv(
    tree: spec_fn(Seq<Seq<char>>) -> Seq<DirEntryInfo>,
    pending: Seq<Seq<Seq<char>>>,
    found: Seq<Seq<Seq<char>>>,
    fuel: nat,
)
    requires
        scan_inv(tree, pending, found),
    ensures
        scan_run(tree, pending, found, fuel) matches Some(f) ==> forall|p: Seq<Seq<char>>|
            #[trigger] f.contains(p) <==> managed_dir(tree, p),
    decreases fuel,
{
    if pending.len() == 0 {
        assert forall|p: Seq<Seq<char>>| #[trigger] found.contains(p) <==> managed_dir(tree, p) by {
            if found.contains(p) {
                let i = choose|i: int| 0 <= i < found.len() && found[i] == p;
            }
        }
    } else if fuel > 0 {
        lemma_scan_step_inv(tree, pending, found);
        let (p, f) = scan_step(tree, pending, found);
        lemma_scan_run_inv(tree, p, f, (fuel - 1) as nat);
    }
}

/// A scan run to its end over a directory tree finds exactly its managed
/// dotdirs: the real directories below the start that hold a configuration
/// and have no symbolic link and no managed directory above them.
pub proof fn lemma_scan_finds_managed_dirs(
    tree: spec_fn(Seq<Seq<char>>) -> Seq<DirEntryInfo>,
    fuel: nat,
)
    ensures
        scan_run(tree, seq![Seq::<Seq<char>>::empty()], Seq::empty(), fuel) matches Some(f)
            ==> forall|p: Seq<Seq<char>>| #[trigger] f.contains(p) <==> managed_dir(tree, p),
{
    let start = seq![Seq::<Seq<char>>::empty()];
    assert(open_dir(tree, start[0]));
    assert forall|p: Seq<Seq<char>>| managed_dir(tree, p) implies Seq::<Seq<Seq<char>>>::empty().contains(p)
        || exists|i: int| 0 <= i < start.len() && strictly_above(#[trigger] start[i], p) by {
        assert(p.take(0) =~= start[0]);
        assert(strictly_above(start[0], p));
    }
    lemma_scan_run_inv(tree, start, Seq::empty(), fuel);
}

/// Discover managed dotdirs: the directories that a finished scan found,
/// in ascending order; each once when the scan found each once.
pub fn discover_dotdirs(scan: &DotdirScan) -> (res: Vec<String>)
    ensures
        sorted(views(res@)),
        views(res@).to_multiset() == views(scan.found@).to_multiset(),
        views(scan.found@).no_duplicates() ==> strictly_sorted(views(res@)),
        scan.wf() ==> strictly_sorted(views(res@)),
{
    let res = sort_strings(scan.found.clone());
    proof {
        if scan.wf() {
            let fv = views(scan.found@);
            let fnames = scan.found_names@;
            let all = scan.dirs();
            let pl = scan.pending_names@.len() as int;
            assert forall|i: int, j: int|
                0 <= i < fv.len() && 0 <= j < fv.len() && i != j implies fv[i] != fv[j] by {
                assert(all[pl + i] == fnames[i]);
                assert(all[pl + j] == fnames[j]);
                assert(apart(fnames[i], fnames[j]));
                assert(fnames[i].take(fnames[i].len() as int) =~= fnames[i]);
                if fv[i] == fv[j] {
                    lemma_names_path_injective(fnames[i], fnames[j]);
                }
            }
        }
        if views(scan.found@).no_duplicates() {
            views(scan.found@).lemma_multiset_has_no_duplicates();
            views(res@).lemma_multiset_has_no_duplicates_conv();
        }
    }
    res
}

/// What a listing of the repo side says of one entry.
#[derive(Debug, Clone)]
pub struct RepoEntry {
    pub name: String,
    pub is_dir: bool,
}

/// A repo entry that is a dotdir: a directory other than `.git`.
pub open spec fn repo_dotdir_entry(e: RepoEntry) -> bool {
    e.is_dir && e.name@ != ".git"@
}

/// Discover dotdirs from the repo side (for init without a dotdir named):
/// the names of the directories other than `.git`, in ascending order.
pub fn discover_repo_dotdirs(entries: &Vec<RepoEntry>) -> (res: Vec<String>)
    ensures
        sorted(views(res@)),
        views(res@).to_multiset() == entries@.filter(|e: RepoEntry| repo_dotdir_entry(e)).map_values(
            |e: RepoEntry| e.name@,
        ).to_multiset(),
{
    let ghost keep = |e: RepoEntry| repo_dotdir_entry(e);
    let ghost name_of = |e: RepoEntry| e.name@;
    let mut names: Vec<String> = Vec::new();
    let n = entries.len();
    for i in 0..n
        invariant
            n == entries@.len(),
            keep == (|e: RepoEntry| repo_dotdir_entry(e)),
            name_of == (|e: RepoEntry| e.name@),
            views(names@) == entries@.take(i as int).filter(keep).map_values(name_of),
    {
        let e = &entries[i];
        proof {
            assert(entries@.take(i + 1) =~= entries@.take(i as int).push(entries@[i as int]));
            entries@.take(i as int).lemma_filter_push(entries@[i as int], keep);
            entries@.take(i as int).filter(keep).lemma_push_map_commute(name_of, entries@[i as int]);
        }
        if e.is_dir && !str_eq(e.name.as_str(), ".git") {
            let ghost before = views(names@);
            names.push(e.name.clone());
            assert(views(names@) =~= before.push(e.name@));
        }
    }
    assert(entries@.take(n as int) =~= entries@);
    sort_strings(names)
}

/// The two configuration files that loading a dotdir looks at.
#[derive(Debug, Clone)]
pub struct ConfigFiles {
    pub dotdir_file: FileState<RawDotdirConfig>,
    pub root_file: FileState<RootConfig>,
}

/// Every dotdir loads.
pub open spec fn all_load(root: Seq<char>, dotdirs: Seq<String>, files: Seq<ConfigFiles>, k: int) -> bool {
    forall|j: int|
        0 <= j < k ==> #[trigger] load_spec(
            root,
            dotdirs[j]@,
            files[j].dotdir_file,
            files[j].root_file,
        ) is Ok
}

/// Load configs for all managed dotdirs, return (dotdir_name, config) pairs.
/// `files[i]` is what became of the configuration files of `dotdirs[i]`. The
/// first dotdir that does not load decides the error.
pub fn load_all_dotdir_configs(
    scan_root: &str,
    dotdirs: &Vec<String>,
    files: &Vec<ConfigFiles>,
) -> (res: Result<Vec<(String, DotdirConfig)>, LoadError>)
    requires
        dotdirs@.len() == files@.len(),
    ensures
        res is Ok <==> all_load(scan_root@, dotdirs@, files@, dotdirs@.len() as int),
        res matches Ok(cs) ==> cs@.len() == dotdirs@.len() && forall|i: int|
            0 <= i < cs@.len() ==> (#[trigger] cs@[i]).0@ == dotdirs@[i]@ && load_spec(
                scan_root@,
                dotdirs@[i]@,
                files@[i].dotdir_file,
                files@[i].root_file,
            ) == Ok::<(Seq<char>, Seq<char>), LoadFailure>((cs@[i].1.repo_spec(), cs@[i].1.dir())),
        res matches Err(e) ==> exists|i: int|
            0 <= i < dotdirs@.len() && all_load(scan_root@, dotdirs@, files@, i) && load_spec(
                scan_root@,
                dotdirs@[i]@,
                files@[i].dotdir_file,
                files@[i].root_file,
            ) == Err::<(Seq<char>, Seq<char>), LoadFailure>(e@),
{
    let mut configs: Vec<(String, DotdirConfig)> = Vec::new();
    let n = dotdirs.len();
    for i in 0..n
        invariant
            n == dotdirs@.len(),
            n == files@.len(),
            all_load(scan_root@, dotdirs@, files@, i as int),
            configs@.len() == i,
            forall|j: int|
                0 <= j < i ==> (#[trigger] configs@[j]).0@ == dotdirs@[j]@ && load_spec(
                    scan_root@,
                    dotdirs@[j]@,
                    files@[j].dotdir_file,
                    files@[j].root_file,
                ) == Ok::<(Seq<char>, Seq<char>), LoadFailure>(
                    (configs@[j].1.repo_spec(), configs@[j].1.dir()),
                ),
    {
        let dd = &dotdirs[i];
        match load(scan_root, dd.as_str(), &files[i].dotdir_file, &files[i].root_file) {
            Ok(cfg) => {
                configs.push((dd.clone(), cfg));
            },
            Err(e) => {
                return Err(e);
            },
        }
    }
    Ok(configs)
}

} // verus!

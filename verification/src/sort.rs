//! Sorting strings in the order of `String`'s `Ord`.
//!
//! `String` compares its UTF-8 bytes lexicographically; since UTF-8 keeps the
//! order of code points, that is the lexicographic order of the characters
//! compared by code point, which `lex_le` states.
use vstd::prelude::*;
use crate::text::{chars_of, views};

verus! {

broadcast use vstd::seq_lib::group_seq_properties;

/// `a` comes no later than `b` in lexicographic order of code points.
pub open spec fn lex_le(a: Seq<char>, b: Seq<char>) -> bool
    decreases a.len(),
{
    if a.len() == 0 {
        true
    } else if b.len() == 0 {
        false
    } else if a[0] != b[0] {
        (a[0] as int) < (b[0] as int)
    } else {
        lex_le(a.skip(1), b.skip(1))
    }
}

/// The strings are in ascending order.
pub open spec fn sorted(s: Seq<Seq<char>>) -> bool {
    forall|i: int, j: int| 0 <= i < j < s.len() ==> lex_le(#[trigger] s[i], #[trigger] s[j])
}

/// The strings are in ascending order, each once.
pub open spec fn strictly_sorted(s: Seq<Seq<char>>) -> bool {
    forall|i: int, j: int|
        0 <= i < j < s.len() ==> lex_le(#[trigger] s[i], #[trigger] s[j]) && s[i] != s[j]
}

/// Any two strings are ordered one way or the other.
pub proof fn lemma_lex_total(a: Seq<char>, b: Seq<char>)
    ensures
        lex_le(a, b) || lex_le(b, a),
    decreases a.len(),
{
    if a.len() > 0 && b.len() > 0 && a[0] == b[0] {
        lemma_lex_total(a.skip(1), b.skip(1));
    }
}

/// The order is transitive.
pub proof fn lemma_lex_trans(a: Seq<char>, b: Seq<char>, c: Seq<char>)
    requires
        lex_le(a, b),
        lex_le(b, c),
    ensures
        lex_le(a, c),
    decreases a.len(),
{
    if a.len() > 0 && b.len() > 0 && c.len() > 0 && a[0] == b[0] && b[0] == c[0] {
        lemma_lex_trans(a.skip(1), b.skip(1), c.skip(1));
    }
}

/// Two strings each no later than the other are equal.
pub proof fn lemma_lex_antisym(a: Seq<char>, b: Seq<char>)
    requires
        lex_le(a, b),
        lex_le(b, a),
    ensures
        a == b,
    decreases a.len(),
{
    if a.len() > 0 && b.len() > 0 {
        if a[0] == b[0] {
            lemma_lex_antisym(a.skip(1), b.skip(1));
            assert(a =~= seq![a[0]] + a.skip(1));
            assert(b =~= seq![b[0]] + b.skip(1));
        }
    } else {
        assert(a =~= b);
    }
}

/// Whether `a` comes no later than `b`.
pub fn str_le(a: &str, b: &str) -> (res: bool)
    ensures
        res == lex_le(a@, b@),
{
    let va = chars_of(a);
    let vb = chars_of(b);
    let mut i: usize = 0;
    while i < va.len() && i < vb.len()
        invariant
            va@ == a@,
            vb@ == b@,
            i <= va@.len(),
            i <= vb@.len(),
            forall|k: int| 0 <= k < i ==> va@[k] == vb@[k],
            lex_le(a@, b@) == lex_le(a@.skip(i as int), b@.skip(i as int)),
        decreases va@.len() - i,
    {
        let ca = va[i];
        let cb = vb[i];
        assert(a@.skip(i as int)[0] == ca);
        assert(b@.skip(i as int)[0] == cb);
        if ca != cb {
            return ca < cb;
        }
        assert(a@.skip(i as int).skip(1) =~= a@.skip(i + 1));
        assert(b@.skip(i as int).skip(1) =~= b@.skip(i + 1));
        i = i + 1;
    }
    if i == va.len() {
        true
    } else {
        assert(b@.skip(i as int).len() == 0);
        assert(a@.skip(i as int).len() > 0);
        false
    }
}

proof fn lemma_insert_multiset<A>(s: Seq<A>, k: int, x: A)
    requires
        0 <= k <= s.len(),
    ensures
        s.insert(k, x).to_multiset() == s.to_multiset().insert(x),
{
    broadcast use vstd::seq_lib::group_to_multiset_ensures;

    let t = s.insert(k, x);
    assert(t.remove(k) =~= s);
    assert(t[k] == x);
    assert(t.to_multiset().remove(x) == s.to_multiset());
    assert(t.to_multiset().contains(x)) by {
        assert(t.contains(x));
    }
    assert(t.to_multiset() =~= s.to_multiset().insert(x));
}

/// Sorts the strings into ascending order, as `Vec<String>::sort`.
pub fn sort_strings(v: Vec<String>) -> (res: Vec<String>)
    ensures
        sorted(views(res@)),
        views(res@).to_multiset() == views(v@).to_multiset(),
{
    broadcast use vstd::seq_lib::group_to_multiset_ensures;

    let mut out: Vec<String> = Vec::new();
    let n = v.len();
    for i in 0..n
        invariant
            n == v@.len(),
            sorted(views(out@)),
            views(out@).to_multiset() == views(v@).take(i as int).to_multiset(),
    {
        let x = v[i].clone();
        let ghost ov = views(out@);
        let mut k: usize = 0;
        while k < out.len() && str_le(out[k].as_str(), x.as_str())
            invariant
                k <= out@.len(),
                ov == views(out@),
                forall|j: int| 0 <= j < k ==> lex_le(ov[j], x@),
            decreases out@.len() - k,
        {
            k = k + 1;
        }
        proof {
            if k < out@.len() {
                assert(!lex_le(ov[k as int], x@));
                lemma_lex_total(ov[k as int], x@);
            }
        }
        out.insert(k, x);
        proof {
            let nv = views(out@);
            assert(nv =~= ov.insert(k as int, x@));
            assert forall|a: int, b: int| 0 <= a < b < nv.len() implies lex_le(
                #[trigger] nv[a],
                #[trigger] nv[b],
            ) by {
                if b < k {
                } else if b == k {
                } else if a < k {
                    // ov[a] <= x < ov[k] <= ov[b-1]
                    lemma_lex_total(ov[k as int], x@);
                    if (k as int) < b - 1 {
                        assert(lex_le(ov[k as int], ov[b - 1]));
                    }
                    lemma_lex_trans(ov[a], x@, ov[k as int]);
                    if (k as int) < b - 1 {
                        lemma_lex_trans(ov[a], ov[k as int], ov[b - 1]);
                    }
                } else if a == k {
                    lemma_lex_total(ov[k as int], x@);
                    if (k as int) < b - 1 {
                        assert(lex_le(ov[k as int], ov[b - 1]));
                        lemma_lex_trans(x@, ov[k as int], ov[b - 1]);
                    }
                } else {
                    assert(lex_le(ov[a - 1], ov[b - 1]));
                }
            }
            lemma_insert_multiset(ov, k as int, x@);
            assert(views(v@).take(i + 1) =~= views(v@).take(i as int).push(x@));
        }
    }
    assert(views(v@).take(n as int) =~= views(v@));
    out
}

} // verus!

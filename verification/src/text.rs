//! Small verified string helpers shared by the other modules.
use vstd::prelude::*;

verus! {

/// The characters of `parts`, in order, with `sep` between each two neighbours.
pub open spec fn joined(parts: Seq<Seq<char>>, sep: Seq<char>) -> Seq<char>
    decreases parts.len(),
{
    if parts.len() == 0 {
        Seq::empty()
    } else if parts.len() == 1 {
        parts[0]
    } else {
        joined(parts.drop_last(), sep) + sep + parts.last()
    }
}

/// The views of a vector of strings.
pub open spec fn views(v: Seq<String>) -> Seq<Seq<char>> {
    v.map_values(|s: String| s@)
}

/// Appends one character to a string.
///
/// Trusted: calls `String::push`, which std documents as appending the given
/// `char` to the end of the string.
#[verifier::external_body]
pub(crate) fn push_char(s: &mut String, c: char)
    ensures
        final(s)@ == old(s)@.push(c),
{
    s.push(c);
}

/// A fresh string holding the characters of `s`.
pub fn owned(s: &str) -> (res: String)
    ensures
        res@ == s@,
{
    s.to_owned()
}

/// The characters of `s` as a vector.
pub fn chars_of(s: &str) -> (v: Vec<char>)
    ensures
        v@ == s@,
{
    let mut v: Vec<char> = Vec::new();
    for c in it: s.chars()
        invariant
            v@ == it.seq().take(it.index() as int),
            it.seq() == s@,
    {
        v.push(c);
    }
    v
}

/// Joins `parts` with `sep` between neighbours (as `[String]::join` does).
pub fn join_strings(parts: &Vec<String>, sep: &str) -> (res: String)
    ensures
        res@ == joined(views(parts@), sep@),
{
    let mut res = String::new();
    let n = parts.len();
    for i in 0..n
        invariant
            n == parts@.len(),
            res@ == joined(views(parts@).take(i as int), sep@),
    {
        let ghost pv = views(parts@);
        assert(pv.take(i + 1).drop_last() =~= pv.take(i as int));
        if i > 0 {
            res.append(sep);
        }
        res.append(parts[i].as_str());
        assert(pv.take(i + 1).last() == parts@[i as int]@);
        if i == 0 {
            assert(pv.take(1).len() == 1);
        }
    }
    assert(views(parts@).take(n as int) =~= views(parts@));
    res
}

/// `a` followed by `b`.
pub fn concat2(a: &str, b: &str) -> (res: String)
    ensures
        res@ == a@ + b@,
{
    let mut res = owned(a);
    res.append(b);
    res
}

/// `a`, `b` and `c` one after the other.
pub fn concat3(a: &str, b: &str, c: &str) -> (res: String)
    ensures
        res@ == a@ + b@ + c@,
{
    let mut res = owned(a);
    res.append(b);
    res.append(c);
    res
}

/// Whether `s` starts with the character `c`.
pub fn starts_with_char(s: &str, c: char) -> (res: bool)
    ensures
        res == (s@.len() > 0 && s@[0] == c),
{
    let n = s.unicode_len();
    n > 0 && s.get_char(0) == c
}

/// Whether `s` ends with the character `c`.
pub fn ends_with_char(s: &str, c: char) -> (res: bool)
    ensures
        res == (s@.len() > 0 && s@.last() == c),
{
    let n = s.unicode_len();
    n > 0 && s.get_char(n - 1) == c
}

/// Whether two strings hold the same characters.
pub fn str_eq(a: &str, b: &str) -> (res: bool)
    ensures
        res == (a@ == b@),
{
    let va = chars_of(a);
    let vb = chars_of(b);
    if va.len() != vb.len() {
        return false;
    }
    let n = va.len();
    for i in 0..n
        invariant
            n == va@.len(),
            va@ == a@,
            vb@ == b@,
            va@.len() == vb@.len(),
            forall|j: int| 0 <= j < i ==> va@[j] == vb@[j],
    {
        if va[i] != vb[i] {
            assert(va@[i as int] != vb@[i as int]);
            return false;
        }
    }
    assert(va@ =~= vb@);
    true
}

/// How many bytes UTF-8 takes for `c`.
pub open spec fn utf8_width(c: char) -> nat {
    if (c as u32) < 0x80 {
        1
    } else if (c as u32) < 0x800 {
        2
    } else if (c as u32) < 0x10000 {
        3
    } else {
        4
    }
}

/// How many bytes UTF-8 takes for `s`: the length of a `str` holding it.
pub open spec fn utf8_len(s: Seq<char>) -> nat
    decreases s.len(),
{
    if s.len() == 0 {
        0
    } else {
        utf8_width(s[0]) + utf8_len(s.skip(1))
    }
}

/// The number of leading characters of `s` that take exactly `b` bytes, when
/// byte `b` is a character boundary of `s` (as slicing a `str` at `b` needs).
pub open spec fn char_boundary(s: Seq<char>, b: nat) -> Option<nat>
    decreases s.len(),
{
    if b == 0 {
        Some(0)
    } else if s.len() == 0 || b < utf8_width(s[0]) {
        None
    } else {
        match char_boundary(s.skip(1), (b - utf8_width(s[0])) as nat) {
            Some(k) => Some(k + 1),
            None => None,
        }
    }
}

fn utf8_width_of(c: char) -> (w: u8)
    ensures
        w == utf8_width(c),
{
    let v = c as u32;
    if v < 0x80 {
        1
    } else if v < 0x800 {
        2
    } else if v < 0x10000 {
        3
    } else {
        4
    }
}

/// The length in bytes of `s`.
pub fn utf8_len_of(s: &str) -> (n: u128)
    ensures
        n == utf8_len(s@),
{
    let v = chars_of(s);
    let len = v.len();
    let mut acc: u128 = 0;
    let mut i: usize = 0;
    assert(v@.skip(0) =~= v@);
    while i < len
        invariant
            len == v@.len(),
            v@ == s@,
            i <= len,
            acc <= 4 * i,
            acc + utf8_len(v@.skip(i as int)) == utf8_len(v@),
        decreases len - i,
    {
        assert(v@.skip(i as int).skip(1) =~= v@.skip(i + 1));
        assert(v@.skip(i as int)[0] == v@[i as int]);
        let w = utf8_width_of(v[i]);
        acc = acc + w as u128;
        i = i + 1;
    }
    assert(v@.skip(len as int).len() == 0);
    acc
}

/// Where slicing `s` at byte `b` starts, in characters: `None` when `b` is
/// not a character boundary of `s` (or lies past its end).
pub fn char_boundary_of(s: &str, b: u128) -> (res: Option<usize>)
    ensures
        match res {
            Some(k) => char_boundary(s@, b as nat) == Some(k as nat),
            None => char_boundary(s@, b as nat) is None,
        },
{
    let v = chars_of(s);
    let len = v.len();
    let mut rem: u128 = b;
    let mut i: usize = 0;
    assert(v@.skip(0) =~= v@);
    while i < len && rem > 0
        invariant
            len == v@.len(),
            v@ == s@,
            i <= len,
            rem <= b,
            match char_boundary(v@.skip(i as int), rem as nat) {
                Some(k) => char_boundary(v@, b as nat) == Some((k + i) as nat),
                None => char_boundary(v@, b as nat) is None,
            },
        decreases len - i,
    {
        assert(v@.skip(i as int).skip(1) =~= v@.skip(i + 1));
        assert(v@.skip(i as int)[0] == v@[i as int]);
        let w = utf8_width_of(v[i]) as u128;
        if rem < w {
            return None;
        }
        rem = rem - w;
        i = i + 1;
    }
    if rem == 0 {
        Some(i)
    } else {
        assert(v@.skip(i as int).len() == 0);
        None
    }
}

} // verus!

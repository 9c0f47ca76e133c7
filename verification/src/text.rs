//! Character-level string helpers used by the template and command logic.

use vstd::prelude::*;

verus! {

/// Whether `p` occurs in `s` starting at index `i`.
pub open spec fn occurs_at(s: Seq<char>, p: Seq<char>, i: int) -> bool {
    &&& 0 <= i
    &&& i + p.len() <= s.len()
    &&& s.subrange(i, i + p.len()) == p
}

/// Left-to-right replacement of every non-overlapping occurrence of `p`
/// in `s` by `t` (the leftmost occurrence wins, scanning resumes after it).
pub open spec fn replace_all_spec(s: Seq<char>, p: Seq<char>, t: Seq<char>) -> Seq<char>
    decreases s.len(),
{
    if s.len() == 0 || p.len() == 0 {
        s
    } else if occurs_at(s, p, 0) {
        t + replace_all_spec(s.skip(p.len() as int), p, t)
    } else {
        seq![s[0]] + replace_all_spec(s.skip(1), p, t)
    }
}

/// The characters of `s`, as a vector.
pub fn to_chars(s: &str) -> (v: Vec<char>)
    ensures
        v@ == s@,
{
    let n = s.unicode_len();
    let mut v: Vec<char> = Vec::new();
    let mut i: usize = 0;
    while i < n
        invariant
            n == s@.len(),
            i <= n,
            v@ == s@.take(i as int),
        decreases n - i,
    {
        let c = s.get_char(i);
        v.push(c);
        i = i + 1;
        assert(v@ =~= s@.take(i as int));
    }
    assert(s@.take(n as int) =~= s@);
    v
}

/// Character-wise equality of two strings.
pub fn str_eq(a: &str, b: &str) -> (r: bool)
    ensures
        r == (a@ == b@),
{
    let x = String::from_str(a);
    let y = String::from_str(b);
    x == y
}

/// Whether the characters `p` occur in `s` at index `i`.
fn chars_occur_at(s: &Vec<char>, p: &Vec<char>, i: usize) -> (r: bool)
    requires
        i <= s.len(),
    ensures
        r == occurs_at(s@, p@, i as int),
{
    let n = s.len();
    let m = p.len();
    if m > n - i {
        return false;
    }
    let mut j: usize = 0;
    while j < m
        invariant
            n == s.len(),
            m == p.len(),
            i + m <= n,
            j <= m,
            forall|k: int| 0 <= k < j ==> s@[i + k] == p@[k],
        decreases m - j,
    {
        if s[i + j] != p[j] {
            assert(s@.subrange(i as int, i + m)[j as int] != p@[j as int]);
            return false;
        }
        j = j + 1;
    }
    assert(s@.subrange(i as int, i + m) =~= p@);
    true
}

proof fn lemma_replace_step_match(s: Seq<char>, p: Seq<char>, t: Seq<char>, i: int)
    requires
        p.len() > 0,
        occurs_at(s, p, i),
    ensures
        replace_all_spec(s.skip(i), p, t) == t + replace_all_spec(s.skip(i + p.len()), p, t),
{
    let r = s.skip(i);
    assert(r.subrange(0, p.len() as int) =~= s.subrange(i, i + p.len()));
    assert(r.skip(p.len() as int) =~= s.skip(i + p.len()));
}

proof fn lemma_replace_step_skip(s: Seq<char>, p: Seq<char>, t: Seq<char>, i: int)
    requires
        p.len() > 0,
        0 <= i < s.len(),
        !occurs_at(s, p, i),
    ensures
        replace_all_spec(s.skip(i), p, t) == seq![s[i]] + replace_all_spec(s.skip(i + 1), p, t),
{
    let r = s.skip(i);
    if occurs_at(r, p, 0) {
        assert(r.subrange(0, p.len() as int) =~= s.subrange(i, i + p.len()));
    }
    assert(r.skip(1) =~= s.skip(i + 1));
}

/// Replaces, from left to right, every non-overlapping occurrence of the
/// non-empty pattern `pat` in `s` by `to`.
pub fn replace_all(s: &str, pat: &str, to: &str) -> (res: String)
    requires
        pat@.len() > 0,
    ensures
        res@ == replace_all_spec(s@, pat@, to@),
{
    let sc = to_chars(s);
    let pc = to_chars(pat);
    let n = sc.len();
    let m = pc.len();
    let mut res = String::new();
    let mut start: usize = 0;
    let mut i: usize = 0;
    assert(s@.skip(0) =~= s@);
    assert(res@ + s@.subrange(0, 0) =~= Seq::<char>::empty());
    while i < n
        invariant
            n == s@.len(),
            m == pat@.len(),
            m > 0,
            sc@ == s@,
            pc@ == pat@,
            start <= i <= n,
            replace_all_spec(s@, pat@, to@) == res@ + s@.subrange(start as int, i as int)
                + replace_all_spec(s@.skip(i as int), pat@, to@),
        decreases n - i,
    {
        if chars_occur_at(&sc, &pc, i) {
            proof {
                lemma_replace_step_match(s@, pat@, to@, i as int);
            }
            let chunk = s.substring_char(start, i);
            let ghost before = res@;
            res.append(chunk);
            res.append(to);
            assert(res@ == before + s@.subrange(start as int, i as int) + to@);
            i = i + m;
            start = i;
            assert(s@.subrange(start as int, i as int) =~= Seq::<char>::empty());
            assert(replace_all_spec(s@, pat@, to@) == res@ + s@.subrange(start as int, i as int)
                + replace_all_spec(s@.skip(i as int), pat@, to@));
        } else {
            proof {
                lemma_replace_step_skip(s@, pat@, to@, i as int);
                assert(s@.subrange(start as int, i as int) + seq![s@[i as int]] =~= s@.subrange(
                    start as int,
                    i + 1,
                ));
            }
            i = i + 1;
        }
    }
    proof {
        assert(s@.skip(n as int) =~= Seq::<char>::empty());
    }
    let chunk = s.substring_char(start, n);
    res.append(chunk);
    res
}

/// The characters of each string of a list.
pub open spec fn str_views(v: Seq<String>) -> Seq<Seq<char>> {
    v.map_values(|s: String| s@)
}

/// A copy of a list of strings.
pub fn copy_strings(v: &Vec<String>) -> (r: Vec<String>)
    ensures
        r@ == v@,
{
    let mut r: Vec<String> = Vec::new();
    let mut i: usize = 0;
    while i < v.len()
        invariant
            i <= v@.len(),
            r@ == v@.take(i as int),
        decreases v@.len() - i,
    {
        r.push(v[i].clone());
        i = i + 1;
        assert(r@ =~= v@.take(i as int));
    }
    assert(v@.take(v@.len() as int) =~= v@);
    r
}

} // verus!

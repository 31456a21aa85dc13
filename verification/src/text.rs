//! Searching over character sequences: token occurrence, first and last
//! occurrence, and the executable scans that compute them.

use vstd::prelude::*;
use vstd::string::StrSliceExecFns;

verus! {

/// Token `t` occurs in `s` at position `i`.
pub open spec fn tok_at(s: Seq<char>, t: Seq<char>, i: int) -> bool {
    0 <= i && i + t.len() <= s.len() && s.subrange(i, i + t.len() as int) == t
}

/// Position of the first occurrence of `t` in `s` at or after `i`, or -1.
pub open spec fn find_from(s: Seq<char>, t: Seq<char>, i: int) -> int
    decreases s.len() - i,
{
    if t.len() == 0 || i + t.len() > s.len() {
        -1
    } else if tok_at(s, t, i) {
        i
    } else {
        find_from(s, t, i + 1)
    }
}

/// Position of the last occurrence of `t` in `s` at or before `i`, or -1.
pub open spec fn rfind_from(s: Seq<char>, t: Seq<char>, i: int) -> int
    decreases i + 1,
{
    if i < 0 {
        -1
    } else if tok_at(s, t, i) {
        i
    } else {
        rfind_from(s, t, i - 1)
    }
}

/// `find_from` returns the first occurrence: nothing matches before it, and
/// -1 means nothing matches at all.
pub proof fn lemma_find_from_props(s: Seq<char>, t: Seq<char>, i: int)
    requires
        t.len() >= 1,
    ensures
        find_from(s, t, i) >= -1,
        find_from(s, t, i) == -1 ==> forall|j: int| i <= j ==> !tok_at(s, t, j),
        find_from(s, t, i) >= 0 ==> i <= find_from(s, t, i) && tok_at(s, t, find_from(s, t, i))
            && forall|j: int| i <= j < find_from(s, t, i) ==> !tok_at(s, t, j),
    decreases s.len() - i,
{
    if i + t.len() > s.len() {
        assert forall|j: int| i <= j implies !tok_at(s, t, j) by {}
    } else if tok_at(s, t, i) {
    } else {
        lemma_find_from_props(s, t, i + 1);
    }
}

/// `rfind_from` returns the last occurrence at or before `i`: nothing
/// matches after it up to `i`, and -1 means nothing matches up to `i`.
pub proof fn lemma_rfind_from_props(s: Seq<char>, t: Seq<char>, i: int)
    ensures
        rfind_from(s, t, i) >= -1,
        rfind_from(s, t, i) == -1 ==> forall|j: int| j <= i ==> !tok_at(s, t, j),
        rfind_from(s, t, i) >= 0 ==> rfind_from(s, t, i) <= i && tok_at(s, t, rfind_from(s, t, i))
            && forall|j: int| rfind_from(s, t, i) < j <= i ==> !tok_at(s, t, j),
    decreases i + 1,
{
    if i < 0 {
    } else if tok_at(s, t, i) {
    } else {
        lemma_rfind_from_props(s, t, i - 1);
    }
}

/// When no occurrence lies in `(b, a]`, searching down from `a` and from `b`
/// find the same occurrence.
pub proof fn lemma_rfind_skip(s: Seq<char>, t: Seq<char>, a: int, b: int)
    requires
        b <= a,
        forall|j: int| b < j <= a ==> !tok_at(s, t, j),
    ensures
        rfind_from(s, t, a) == rfind_from(s, t, b),
    decreases a - b,
{
    if a > b {
        lemma_rfind_skip(s, t, a - 1, b);
    }
}

/// The integer position a search result stands for: the index, or -1 for
/// no occurrence.
pub open spec fn opt_pos(r: Option<usize>) -> int {
    match r {
        Option::Some(i) => i as int,
        Option::None => -1,
    }
}

/// Whether token `t` occurs in `v` at position `i`.
pub fn is_tok_at(v: &Vec<char>, t: &Vec<char>, i: usize) -> (r: bool)
    ensures
        r == tok_at(v@, t@, i as int),
{
    let n = v.len();
    let m = t.len();
    if m > n || i > n - m {
        return false;
    }
    let mut k: usize = 0;
    while k < m && v[i + k] == t[k]
        invariant
            m <= n,
            i + m <= n,
            n == v@.len(),
            m == t@.len(),
            k <= m,
            forall|x: int| 0 <= x < k ==> v@[i + x] == t@[x],
        decreases m - k,
    {
        k += 1;
    }
    if k == m {
        proof {
            assert(v@.subrange(i as int, i + m) =~= t@);
        }
        true
    } else {
        proof {
            assert(v@.subrange(i as int, i + m)[k as int] == v@[i + k]);
        }
        false
    }
}

/// First occurrence of `t` in `v`, scanning forward.
pub fn find_sub(v: &Vec<char>, t: &Vec<char>) -> (r: Option<usize>)
    requires
        t@.len() >= 1,
    ensures
        opt_pos(r) == find_from(v@, t@, 0),
{
    let n = v.len();
    let m = t.len();
    if m > n {
        proof {
            lemma_find_from_props(v@, t@, 0);
            assert(find_from(v@, t@, 0) == -1) by {
                if find_from(v@, t@, 0) >= 0 {
                    assert(tok_at(v@, t@, find_from(v@, t@, 0)));
                }
            }
        }
        return None;
    }
    let mut i: usize = 0;
    while i <= n - m
        invariant
            1 <= m <= n,
            n == v@.len(),
            m == t@.len(),
            i <= n - m + 1,
            find_from(v@, t@, 0) == find_from(v@, t@, i as int),
        decreases n - i,
    {
        if is_tok_at(v, t, i) {
            return Some(i);
        }
        i += 1;
    }
    proof {
        assert(find_from(v@, t@, i as int) == -1);
    }
    None
}

/// Last occurrence of `t` in `v`, scanning backward.
pub fn rfind_sub(v: &Vec<char>, t: &Vec<char>) -> (r: Option<usize>)
    requires
        t@.len() >= 1,
    ensures
        opt_pos(r) == rfind_from(v@, t@, v@.len() as int),
{
    let n = v.len();
    let mut i: usize = n;
    while i > 0
        invariant
            i <= n,
            n == v@.len(),
            t@.len() >= 1,
            forall|j: int| i <= j ==> !tok_at(v@, t@, j),
        decreases i,
    {
        let p = i - 1;
        if is_tok_at(v, t, p) {
            proof {
                lemma_rfind_skip(v@, t@, n as int, p as int);
            }
            return Some(p);
        }
        i = p;
    }
    proof {
        lemma_rfind_skip(v@, t@, n as int, -1);
    }
    None
}

/// Appends the characters of `v` in positions `[a, b)` to `out`.
pub fn push_range(out: &mut Vec<char>, v: &Vec<char>, a: usize, b: usize)
    requires
        a <= b,
        b <= v@.len(),
    ensures
        final(out)@ == old(out)@ + v@.subrange(a as int, b as int),
{
    let mut k: usize = a;
    while k < b
        invariant
            a <= k <= b,
            b <= v@.len(),
            out@ == old(out)@ + v@.subrange(a as int, k as int),
        decreases b - k,
    {
        out.push(v[k]);
        proof {
            assert(old(out)@ + v@.subrange(a as int, k + 1) =~= (old(out)@ + v@.subrange(
                a as int,
                k as int,
            )).push(v@[k as int]));
        }
        k += 1;
    }
}

/// Appends the characters of `s` to `out`.
pub fn push_str_chars(out: &mut Vec<char>, s: &str)
    ensures
        final(out)@ == old(out)@ + s@,
{
    let n = s.unicode_len();
    let mut k: usize = 0;
    while k < n
        invariant
            n == s@.len(),
            k <= n,
            out@ == old(out)@ + s@.subrange(0, k as int),
        decreases n - k,
    {
        out.push(s.get_char(k));
        proof {
            assert(old(out)@ + s@.subrange(0, k + 1) =~= (old(out)@ + s@.subrange(
                0,
                k as int,
            )).push(s@[k as int]));
        }
        k += 1;
    }
    proof {
        assert(s@.subrange(0, n as int) =~= s@);
    }
}

/// The characters of `s`, in order, as a vector.
pub fn str_to_chars(s: &str) -> (v: Vec<char>)
    ensures
        v@ == s@,
{
    let mut v: Vec<char> = Vec::new();
    push_str_chars(&mut v, s);
    v
}

/// Relies on `String: FromIterator<&char>`: collecting the characters of
/// `v` in order yields a string whose characters are exactly those of `v`.
#[verifier::external_body]
pub(crate) fn chars_to_string(v: &Vec<char>) -> (s: String)
    ensures
        s@ == v@,
{
    v.iter().collect()
}

} // verus!

//! Site assembly helpers: the index-page link list built from post file
//! names, the file-name rules behind it, and the site configuration.

use vstd::prelude::*;
use crate::text::{
    chars_to_string, find_from, push_range, push_str_chars, rfind_from, str_to_chars, tok_at,
};
use vstd::string::StringExecFns;

verus! {

/// The stem of a file name: everything before the first dot, or the whole
/// name when it has none.
pub open spec fn name_stem(s: Seq<char>) -> Seq<char> {
    let d = find_from(s, seq!['.'], 0);
    if d >= 0 {
        s.subrange(0, d)
    } else {
        s
    }
}

/// The extension of a file name: everything after the last dot, or the
/// whole name when it has none.
pub open spec fn name_extension(s: Seq<char>) -> Seq<char> {
    let d = rfind_from(s, seq!['.'], s.len() - 1);
    if d >= 0 {
        s.skip(d + 1)
    } else {
        s
    }
}

/// One link of the index page: a list item whose anchor points at the
/// post's stem and shows it.
pub open spec fn link_line(s: Seq<char>) -> Seq<char> {
    "<li><a href='"@ + name_stem(s) + "'>"@ + name_stem(s) + "</a></li>\n"@
}

/// The index page's link list from post `k` on, one link per post, in
/// input order.
pub open spec fn links_html(ps: Seq<Seq<char>>, k: int) -> Seq<char>
    decreases ps.len() - k,
{
    if k < 0 || k >= ps.len() {
        Seq::empty()
    } else {
        link_line(ps[k]) + links_html(ps, k + 1)
    }
}

/// The characters of `s` before the first occurrence of `c`, appended to
/// `out`; all of `s` when `c` does not occur.
fn push_until_char(out: &mut Vec<char>, s: &Vec<char>, c: char)
    ensures
        final(out)@ == old(out)@ + (if find_from(s@, seq![c], 0) >= 0 {
            s@.subrange(0, find_from(s@, seq![c], 0))
        } else {
            s@
        }),
{
    let n = s.len();
    let mut k: usize = 0;
    while k < n && s[k] != c
        invariant
            k <= n,
            n == s@.len(),
            find_from(s@, seq![c], 0) == find_from(s@, seq![c], k as int),
            forall|j: int| 0 <= j < k ==> s@[j] != c,
        decreases n - k,
    {
        proof {
            assert(!tok_at(s@, seq![c], k as int)) by {
                if tok_at(s@, seq![c], k as int) {
                    assert(s@.subrange(k as int, k + 1)[0] == s@[k as int]);
                }
            }
        }
        k += 1;
    }
    if k < n {
        proof {
            assert(s@.subrange(k as int, k + 1) =~= seq![c]);
            assert(find_from(s@, seq![c], k as int) == k);
        }
        push_range(out, s, 0, k);
    } else {
        proof {
            assert(find_from(s@, seq![c], k as int) == -1);
            assert(s@.subrange(0, n as int) =~= s@);
        }
        push_range(out, s, 0, n);
    }
}

/// The renderer of the site's pages around the conversion engine.
pub struct Renderer {}

impl Renderer {
    /// The home page's link list: one list item per post name, in input
    /// order, each linking to the post's stem.
    pub fn home_links(posts: Vec<String>) -> (res: String)
        ensures
            res@ == links_html(posts.deep_view(), 0),
    {
        let ghost ps = posts.deep_view();
        let mut out: Vec<char> = Vec::new();
        let mut k: usize = 0;
        while k < posts.len()
            invariant
                k <= posts.len(),
                ps == posts.deep_view(),
                ps.len() == posts@.len(),
                forall|x: int| 0 <= x < ps.len() ==> ps[x] == #[trigger] posts@[x]@,
                links_html(ps, 0) == out@ + links_html(ps, k as int),
            decreases posts.len() - k,
        {
            let name = str_to_chars(posts[k].as_str());
            proof {
                assert(name@ == ps[k as int]);
            }
            let ghost before = out@;
            push_str_chars(&mut out, "<li><a href='");
            push_until_char(&mut out, &name, '.');
            push_str_chars(&mut out, "'>");
            push_until_char(&mut out, &name, '.');
            push_str_chars(&mut out, "</a></li>\n");
            proof {
                assert(out@ =~= before + link_line(ps[k as int]));
                assert(before + link_line(ps[k as int]) + links_html(ps, k + 1) =~= before + (
                link_line(ps[k as int]) + links_html(ps, k + 1)));
            }
            k += 1;
        }
        proof {
            assert(links_html(ps, 0) == out@);
        }
        chars_to_string(&out)
    }

    /// Whether a directory entry's name names a Markdown source: its
    /// extension is `md`.  A name without a dot is its own extension, so
    /// the bare name `md` passes too, as it always has.
    pub fn is_markdown_name(name: &str) -> (r: bool)
        ensures
            r == (name_extension(name@) == "md"@),
    {
        let v = str_to_chars(name);
        let n = v.len();
        let mut k: usize = n;
        while k > 0
            invariant
                k <= n,
                n == v@.len(),
                v@ == name@,
                forall|j: int| k <= j < n ==> v@[j] != '.',
            decreases k,
        {
            let p = k - 1;
            if v[p] == '.' {
                proof {
                    assert(v@.subrange(p as int, p + 1) =~= seq!['.']);
                    lemma_rfind_tail(v@, p as int);
                }
                let mut suffix: Vec<char> = Vec::new();
                push_range(&mut suffix, &v, p + 1, n);
                proof {
                    assert(suffix@ =~= v@.skip(p + 1));
                }
                return eq_md(&suffix);
            }
            proof {
                assert(!tok_at(v@, seq!['.'], p as int)) by {
                    if tok_at(v@, seq!['.'], p as int) {
                        assert(v@.subrange(p as int, p + 1)[0] == v@[p as int]);
                    }
                }
            }
            k = p;
        }
        proof {
            lemma_rfind_none(v@);
        }
        eq_md(&v)
    }
}

/// A dot at `p` with none after it is the last dot of the name.
proof fn lemma_rfind_tail(s: Seq<char>, p: int)
    requires
        tok_at(s, seq!['.'], p),
        forall|j: int| p < j < s.len() ==> s[j] != '.',
    ensures
        rfind_from(s, seq!['.'], s.len() - 1) == p,
{
    assert forall|j: int| p < j <= s.len() - 1 implies !tok_at(s, seq!['.'], j) by {
        if tok_at(s, seq!['.'], j) {
            assert(s.subrange(j, j + 1)[0] == s[j]);
        }
    }
    crate::text::lemma_rfind_skip(s, seq!['.'], s.len() - 1, p);
}

/// A name without a dot has no last dot.
proof fn lemma_rfind_none(s: Seq<char>)
    requires
        forall|j: int| 0 <= j < s.len() ==> s[j] != '.',
    ensures
        rfind_from(s, seq!['.'], s.len() - 1) == -1,
{
    assert forall|j: int| -1 < j <= s.len() - 1 implies !tok_at(s, seq!['.'], j) by {
        if tok_at(s, seq!['.'], j) {
            assert(s.subrange(j, j + 1)[0] == s[j]);
        }
    }
    crate::text::lemma_rfind_skip(s, seq!['.'], s.len() - 1, -1);
}

/// Whether `v` holds exactly the characters `m`, `d`.
fn eq_md(v: &Vec<char>) -> (r: bool)
    ensures
        r == (v@ == "md"@),
{
    proof {
        reveal_strlit("md");
    }
    if v.len() == 2 {
        let r = v[0] == 'm' && v[1] == 'd';
        proof {
            if r {
                assert(v@ =~= "md"@);
            } else {
                assert(v@ != "md"@);
            }
        }
        r
    } else {
        false
    }
}

/// The site's configuration.
pub struct Config {
    /// The site's display name.
    pub name: String,
}

impl Config {
    /// The configuration used when no configuration file is present.
    pub fn default() -> (c: Config)
        ensures
            c.name@ == "Example blog"@,
    {
        Config { name: String::from_str("Example blog") }
    }
}

} // verus!

//! The ordered inline style rules: bold, italic (asterisk and underscore
//! forms), inline code, images, and links.
//!
//! Matching is greedy and unanchored, as the rule list of this engine has
//! always behaved: a delimiter-pair rule captures from the first opening
//! delimiter through the last closing delimiter of the whole fragment, so
//! two independent spans on one line merge into one element.  That
//! behaviour is kept deliberately, for compatibility with documents written
//! against it.

use vstd::prelude::*;
use crate::text::{
    find_from, find_sub, lemma_find_from_props, lemma_rfind_from_props, lemma_rfind_skip, opt_pos,
    push_range, push_str_chars, rfind_from, rfind_sub, tok_at,
};

verus! {

/// A delimiter-pair rewrite: the span from the first occurrence of `t` to
/// the last occurrence of `t` (with at least one character between them) is
/// wrapped in `otag`/`ctag`; without such a span the fragment is unchanged.
pub open spec fn delim_rewrite(s: Seq<char>, t: Seq<char>, otag: Seq<char>, ctag: Seq<char>) -> Seq<
    char,
> {
    let i = find_from(s, t, 0);
    let j = rfind_from(s, t, s.len() as int);
    if 0 <= i && i + t.len() + 1 <= j {
        s.subrange(0, i) + otag + s.subrange(i + t.len(), j) + ctag + s.subrange(
            j + t.len(),
            s.len() as int,
        )
    } else {
        s
    }
}

/// `**span**` becomes a bold element.
pub open spec fn bold_rewrite(s: Seq<char>) -> Seq<char> {
    delim_rewrite(s, seq!['*', '*'], "<b>"@, "</b>"@)
}

/// `*span*` becomes an italic element.
pub open spec fn italic_rewrite(s: Seq<char>) -> Seq<char> {
    delim_rewrite(s, seq!['*'], "<i>"@, "</i>"@)
}

/// `_span_` becomes an italic element.
pub open spec fn underscore_rewrite(s: Seq<char>) -> Seq<char> {
    delim_rewrite(s, seq!['_'], "<i>"@, "</i>"@)
}

/// Copies `v`.
fn copy_chars(v: &Vec<char>) -> (r: Vec<char>)
    ensures
        r@ == v@,
{
    let mut out: Vec<char> = Vec::new();
    push_range(&mut out, v, 0, v.len());
    proof {
        assert(v@.subrange(0, v@.len() as int) =~= v@);
    }
    out
}

/// Applies a delimiter-pair rule with token `t` and tags `otag`/`ctag`.
fn delim_apply(v: &Vec<char>, t: &Vec<char>, otag: &str, ctag: &str) -> (r: Vec<char>)
    requires
        t@.len() >= 1,
    ensures
        r@ == delim_rewrite(v@, t@, otag@, ctag@),
{
    let n = v.len();
    let fo = find_sub(v, t);
    let lo = rfind_sub(v, t);
    proof {
        lemma_find_from_props(v@, t@, 0);
        lemma_rfind_from_props(v@, t@, v@.len() as int);
    }
    if let (Some(i), Some(j)) = (fo, lo) {
        proof {
            assert(tok_at(v@, t@, i as int));
            assert(tok_at(v@, t@, j as int));
            assert(i + t@.len() <= v@.len());
            assert(j + t@.len() <= v@.len());
        }
        if j > i + t.len() {
            let mut out: Vec<char> = Vec::new();
            push_range(&mut out, v, 0, i);
            push_str_chars(&mut out, otag);
            push_range(&mut out, v, i + t.len(), j);
            push_str_chars(&mut out, ctag);
            push_range(&mut out, v, j + t.len(), n);
            proof {
                assert(out@ =~= delim_rewrite(v@, t@, otag@, ctag@));
            }
            return out;
        }
    }
    copy_chars(v)
}

/// Applies the bold rule.
pub fn bold_apply(v: &Vec<char>) -> (r: Vec<char>)
    ensures
        r@ == bold_rewrite(v@),
{
    let t: Vec<char> = vec!['*', '*'];
    proof {
        assert(t@ =~= seq!['*', '*']);
    }
    delim_apply(v, &t, "<b>", "</b>")
}

/// Applies the italic (asterisk) rule.
pub fn italic_apply(v: &Vec<char>) -> (r: Vec<char>)
    ensures
        r@ == italic_rewrite(v@),
{
    let t: Vec<char> = vec!['*'];
    proof {
        assert(t@ =~= seq!['*']);
    }
    delim_apply(v, &t, "<i>", "</i>")
}

/// The characters an inline code span may hold: whitespace, the ASCII
/// range from 'A' to 'z' (which takes in the letters and the six symbols
/// between 'Z' and 'a', among them the backtick itself), digits, and the
/// path- and tag-like symbols `<`, `>`, `/`, `~`, `-`.
pub open spec fn code_char(c: char) -> bool {
    let u = c as u32;
    (65 <= u && u <= 122) || (48 <= u && u <= 57) || u == 60 || u == 62 || u == 47 || u == 126
        || u == 45 || u == 32 || (9 <= u && u <= 13)
}

/// Whether `c` may stand inside an inline code span.
fn is_code_char(c: char) -> (r: bool)
    ensures
        r == code_char(c),
{
    let u = c as u32;
    (65 <= u && u <= 122) || (48 <= u && u <= 57) || u == 60 || u == 62 || u == 47 || u == 126
        || u == 45 || u == 32 || (9 <= u && u <= 13)
}

/// First position at or after `i` holding a character outside the code
/// class, or the length of `s`.
pub open spec fn code_run_end(s: Seq<char>, i: int) -> int
    decreases s.len() - i,
{
    if i < 0 || i >= s.len() {
        s.len() as int
    } else if !code_char(s[i]) {
        i
    } else {
        code_run_end(s, i + 1)
    }
}

/// The next inline code span at or after `i`: the position of its opening
/// backtick and of its closing backtick.  The closing backtick is the last
/// one inside the unbroken run of code-class characters that follows the
/// opener, and at least one character stands between the two.
pub open spec fn code_pick(s: Seq<char>, i: int) -> Option<(int, int)>
    decreases s.len() - i,
{
    if i < 0 || i >= s.len() {
        Option::None
    } else if s[i] == '`' {
        let e = code_run_end(s, i + 1);
        let j = rfind_from(s, seq!['`'], e - 1);
        if j >= i + 2 {
            Option::Some((i, j))
        } else {
            code_pick(s, i + 1)
        }
    } else {
        code_pick(s, i + 1)
    }
}

/// A picked code span is ordered and lies inside `s`.
pub proof fn lemma_code_pick_wf(s: Seq<char>, i: int)
    ensures
        code_pick(s, i) matches Option::Some(p) ==> i <= p.0 && p.0 + 2 <= p.1 && p.1 < s.len(),
    decreases s.len() - i,
{
    if i < 0 || i >= s.len() {
    } else if s[i] == '`' {
        let e = code_run_end(s, i + 1);
        let j = rfind_from(s, seq!['`'], e - 1);
        if j >= i + 2 {
            lemma_rfind_from_props(s, seq!['`'], e - 1);
            assert(tok_at(s, seq!['`'], j));
        } else {
            lemma_code_pick_wf(s, i + 1);
        }
    } else {
        lemma_code_pick_wf(s, i + 1);
    }
}

/// The fragment from `i` on, with every code span in turn rewritten to a
/// code element.
pub open spec fn code_rewrite_from(s: Seq<char>, i: int) -> Seq<char>
    decreases s.len() - i,
        via code_rewrite_decreases
{
    if i < 0 || i > s.len() {
        Seq::empty()
    } else {
        match code_pick(s, i) {
            Option::None => s.subrange(i, s.len() as int),
            Option::Some(p) => s.subrange(i, p.0) + "<code>"@ + s.subrange(p.0 + 1, p.1)
                + "</code>"@ + code_rewrite_from(s, p.1 + 1),
        }
    }
}

#[via_fn]
proof fn code_rewrite_decreases(s: Seq<char>, i: int) {
    lemma_code_pick_wf(s, i);
}

/// A backtick-delimited span of code-class characters becomes a code
/// element; every such span on the line is rewritten.
pub open spec fn code_rewrite(s: Seq<char>) -> Seq<char> {
    code_rewrite_from(s, 0)
}

/// First position at or after `start` holding a character outside the code
/// class.
fn code_run_at(v: &Vec<char>, start: usize) -> (e: usize)
    requires
        start <= v@.len(),
    ensures
        e as int == code_run_end(v@, start as int),
        start <= e <= v@.len(),
{
    let n = v.len();
    let mut k: usize = start;
    while k < n && is_code_char(v[k])
        invariant
            start <= k <= n,
            n == v@.len(),
            code_run_end(v@, start as int) == code_run_end(v@, k as int),
        decreases n - k,
    {
        k += 1;
    }
    k
}

/// Last occurrence of `c` in `v` strictly before `hi`.
fn rfind_char_below(v: &Vec<char>, c: char, hi: usize) -> (r: Option<usize>)
    requires
        hi <= v@.len(),
    ensures
        opt_pos(r) == rfind_from(v@, seq![c], hi as int - 1),
{
    let mut k: usize = hi;
    while k > 0
        invariant
            k <= hi <= v@.len(),
            forall|j: int| k <= j < hi ==> !tok_at(v@, seq![c], j),
        decreases k,
    {
        let p = k - 1;
        if v[p] == c {
            proof {
                assert(v@.subrange(p as int, p + 1) =~= seq![c]);
                lemma_rfind_skip(v@, seq![c], hi as int - 1, p as int);
            }
            return Some(p);
        }
        proof {
            assert(!tok_at(v@, seq![c], p as int)) by {
                if tok_at(v@, seq![c], p as int) {
                    assert(v@.subrange(p as int, p + 1)[0] == v@[p as int]);
                }
            }
        }
        k = p;
    }
    proof {
        lemma_rfind_skip(v@, seq![c], hi as int - 1, -1);
    }
    None
}

/// Applies the inline code rule to the whole fragment.
pub fn code_apply(v: &Vec<char>) -> (r: Vec<char>)
    ensures
        r@ == code_rewrite(v@),
{
    let n = v.len();
    let mut out: Vec<char> = Vec::new();
    let mut pos: usize = 0;
    let mut i: usize = 0;
    while i < n
        invariant
            pos <= i <= n,
            n == v@.len(),
            code_rewrite(v@) == out@ + code_rewrite_from(v@, pos as int),
            code_pick(v@, pos as int) == code_pick(v@, i as int),
        decreases n - i,
    {
        if v[i] == '`' {
            let e = code_run_at(v, i + 1);
            let j = rfind_char_below(v, '`', e);
            let mut advanced = false;
            if let Some(jj) = j {
                if jj > i + 1 {
                    proof {
                        assert(code_pick(v@, i as int) == Option::Some((i as int, jj as int)));
                        lemma_rfind_from_props(v@, seq!['`'], e as int - 1);
                        assert(tok_at(v@, seq!['`'], jj as int));
                        assert(code_rewrite_from(v@, pos as int) == v@.subrange(
                            pos as int,
                            i as int,
                        ) + "<code>"@ + v@.subrange(i + 1, jj as int) + "</code>"@
                            + code_rewrite_from(v@, jj + 1));
                    }
                    let ghost before = out@;
                    push_range(&mut out, v, pos, i);
                    push_str_chars(&mut out, "<code>");
                    push_range(&mut out, v, i + 1, jj);
                    push_str_chars(&mut out, "</code>");
                    proof {
                        assert(out@ + code_rewrite_from(v@, jj + 1) =~= before
                            + code_rewrite_from(v@, pos as int));
                    }
                    pos = jj + 1;
                    i = jj + 1;
                    advanced = true;
                }
            }
            if !advanced {
                i += 1;
            }
        } else {
            i += 1;
        }
    }
    proof {
        assert(code_rewrite_from(v@, pos as int) == v@.subrange(pos as int, n as int));
    }
    push_range(&mut out, v, pos, n);
    out
}

/// The characters a link or image URL may hold: ASCII letters, digits,
/// space, and `~`, `-`, `:`, `/`, `.`.
pub open spec fn url_char(c: char) -> bool {
    let u = c as u32;
    (65 <= u && u <= 90) || (97 <= u && u <= 122) || (48 <= u && u <= 57) || u == 32 || u == 126
        || u == 45 || u == 58 || u == 47 || u == 46
}

/// Whether `c` may stand inside a URL.
fn is_url_char(c: char) -> (r: bool)
    ensures
        r == url_char(c),
{
    let u = c as u32;
    (65 <= u && u <= 90) || (97 <= u && u <= 122) || (48 <= u && u <= 57) || u == 32 || u == 126
        || u == 45 || u == 58 || u == 47 || u == 46
}

/// First position at or after `i` holding a character outside the URL
/// class, or the length of `s`.
pub open spec fn url_run_end(s: Seq<char>, i: int) -> int
    decreases s.len() - i,
{
    if i < 0 || i >= s.len() {
        s.len() as int
    } else if !url_char(s[i]) {
        i
    } else {
        url_run_end(s, i + 1)
    }
}

/// A link tail `](url)` stands at `p`: a closing bracket, an opening
/// parenthesis, at least one URL character, and a closing parenthesis.
pub open spec fn link_close_at(s: Seq<char>, p: int) -> bool {
    &&& 0 <= p
    &&& p + 1 < s.len()
    &&& s[p] == ']'
    &&& s[p + 1] == '('
    &&& url_run_end(s, p + 2) > p + 2
    &&& url_run_end(s, p + 2) < s.len()
    &&& s[url_run_end(s, p + 2)] == ')'
}

/// Position of the last link tail at or before `p`, or -1.
pub open spec fn rclose_from(s: Seq<char>, p: int) -> int
    decreases p + 1,
{
    if p < 0 {
        -1
    } else if link_close_at(s, p) {
        p
    } else {
        rclose_from(s, p - 1)
    }
}

/// `rclose_from` returns the last link tail at or before `p`.
pub proof fn lemma_rclose_from_props(s: Seq<char>, p: int)
    ensures
        rclose_from(s, p) == -1 ==> forall|j: int| j <= p ==> !link_close_at(s, j),
        rclose_from(s, p) >= 0 ==> rclose_from(s, p) <= p && link_close_at(s, rclose_from(s, p))
            && forall|j: int| rclose_from(s, p) < j <= p ==> !link_close_at(s, j),
    decreases p + 1,
{
    if p < 0 {
    } else if link_close_at(s, p) {
    } else {
        lemma_rclose_from_props(s, p - 1);
    }
}

/// When no link tail lies in `(b, a]`, searching down from `a` and from
/// `b` find the same tail.
pub proof fn lemma_rclose_skip(s: Seq<char>, a: int, b: int)
    requires
        b <= a,
        forall|j: int| b < j <= a ==> !link_close_at(s, j),
    ensures
        rclose_from(s, a) == rclose_from(s, b),
    decreases a - b,
{
    if a > b {
        lemma_rclose_skip(s, a - 1, b);
    }
}

/// A link-shaped rewrite: the span from the first occurrence of the opener
/// `t` to the last link tail is turned into an element that holds first
/// the URL, then the bracketed text, laid out by the three tag pieces.
pub open spec fn link_rewrite(
    s: Seq<char>,
    t: Seq<char>,
    pre: Seq<char>,
    mid: Seq<char>,
    post: Seq<char>,
) -> Seq<char> {
    let i = find_from(s, t, 0);
    let p = rclose_from(s, s.len() - 1);
    if 0 <= i && i + t.len() + 1 <= p {
        let q = url_run_end(s, p + 2);
        s.subrange(0, i) + pre + s.subrange(p + 2, q) + mid + s.subrange(i + t.len(), p) + post
            + s.subrange(q + 1, s.len() as int)
    } else {
        s
    }
}

/// `![alt](url)` becomes an image element with `src` and `alt`.
pub open spec fn image_rewrite(s: Seq<char>) -> Seq<char> {
    link_rewrite(s, seq!['!', '['], "<img src=\""@, "\" alt=\""@, "\">"@)
}

/// `[text](url)` becomes an anchor element with `href`.
pub open spec fn anchor_rewrite(s: Seq<char>) -> Seq<char> {
    link_rewrite(s, seq!['['], "<a href=\""@, "\">"@, "</a>"@)
}

/// First position at or after `start` holding a character outside the URL
/// class.
fn url_run_at(v: &Vec<char>, start: usize) -> (e: usize)
    requires
        start <= v@.len(),
    ensures
        e as int == url_run_end(v@, start as int),
        start <= e <= v@.len(),
{
    let n = v.len();
    let mut k: usize = start;
    while k < n && is_url_char(v[k])
        invariant
            start <= k <= n,
            n == v@.len(),
            url_run_end(v@, start as int) == url_run_end(v@, k as int),
        decreases n - k,
    {
        k += 1;
    }
    k
}

/// Position of the last link tail in `v`, scanning backward.
fn rclose_last(v: &Vec<char>) -> (r: Option<usize>)
    ensures
        opt_pos(r) == rclose_from(v@, v@.len() - 1),
{
    let n = v.len();
    let mut k: usize = n;
    while k > 0
        invariant
            k <= n,
            n == v@.len(),
            forall|j: int| k <= j < n ==> !link_close_at(v@, j),
        decreases k,
    {
        let p = k - 1;
        let mut hit = false;
        if v[p] == ']' && p + 1 < n {
            if v[p + 1] == '(' {
                let e = url_run_at(v, p + 2);
                if e > p + 2 && e < n {
                    if v[e] == ')' {
                        hit = true;
                    }
                }
            }
        }
        if hit {
            proof {
                assert(link_close_at(v@, p as int));
                lemma_rclose_skip(v@, n as int - 1, p as int);
            }
            return Some(p);
        }
        proof {
            assert(!link_close_at(v@, p as int));
        }
        k = p;
    }
    proof {
        lemma_rclose_skip(v@, n as int - 1, -1);
    }
    None
}

/// Applies a link-shaped rule with opener `t` and tag pieces `pre`, `mid`,
/// `post`.
fn link_apply(v: &Vec<char>, t: &Vec<char>, pre: &str, mid: &str, post: &str) -> (r: Vec<char>)
    requires
        t@.len() >= 1,
    ensures
        r@ == link_rewrite(v@, t@, pre@, mid@, post@),
{
    let n = v.len();
    let fo = find_sub(v, t);
    let co = rclose_last(v);
    proof {
        lemma_find_from_props(v@, t@, 0);
        lemma_rclose_from_props(v@, v@.len() - 1);
    }
    if let (Some(i), Some(p)) = (fo, co) {
        proof {
            assert(tok_at(v@, t@, i as int));
            assert(link_close_at(v@, p as int));
        }
        if p > i + t.len() {
            let e = url_run_at(v, p + 2);
            let mut out: Vec<char> = Vec::new();
            push_range(&mut out, v, 0, i);
            push_str_chars(&mut out, pre);
            push_range(&mut out, v, p + 2, e);
            push_str_chars(&mut out, mid);
            push_range(&mut out, v, i + t.len(), p);
            push_str_chars(&mut out, post);
            push_range(&mut out, v, e + 1, n);
            proof {
                assert(out@ =~= link_rewrite(v@, t@, pre@, mid@, post@));
            }
            return out;
        }
    }
    copy_chars(v)
}

/// Applies the image rule.
pub fn image_apply(v: &Vec<char>) -> (r: Vec<char>)
    ensures
        r@ == image_rewrite(v@),
{
    let t: Vec<char> = vec!['!', '['];
    proof {
        assert(t@ =~= seq!['!', '[']);
    }
    link_apply(v, &t, "<img src=\"", "\" alt=\"", "\">")
}

/// Applies the anchor rule.
pub fn anchor_apply(v: &Vec<char>) -> (r: Vec<char>)
    ensures
        r@ == anchor_rewrite(v@),
{
    let t: Vec<char> = vec!['['];
    proof {
        assert(t@ =~= seq!['[']);
    }
    link_apply(v, &t, "<a href=\"", "\">", "</a>")
}

/// Applies the italic (underscore) rule.
pub fn underscore_apply(v: &Vec<char>) -> (r: Vec<char>)
    ensures
        r@ == underscore_rewrite(v@),
{
    let t: Vec<char> = vec!['_'];
    proof {
        assert(t@ =~= seq!['_']);
    }
    delim_apply(v, &t, "<i>", "</i>")
}

/// One inline style rule.  The rules form a fixed ordered list; their
/// order is part of the engine's contract, since each rule is applied to
/// the output of the one before it.
#[derive(Clone, Copy, Debug, PartialEq, Eq, Structural)]
pub enum StyleRule {
    Bold,
    Italic,
    ItalicUnderscore,
    Code,
    Image,
    Anchor,
}

/// What one rule does to a fragment.
pub open spec fn rule_rewrite(rule: StyleRule, s: Seq<char>) -> Seq<char> {
    match rule {
        StyleRule::Bold => bold_rewrite(s),
        StyleRule::Italic => italic_rewrite(s),
        StyleRule::ItalicUnderscore => underscore_rewrite(s),
        StyleRule::Code => code_rewrite(s),
        StyleRule::Image => image_rewrite(s),
        StyleRule::Anchor => anchor_rewrite(s),
    }
}

/// The fixed order of the rules.  Bold comes before the single-delimiter
/// italic rules so that a double delimiter is not half-consumed first; a
/// triple-delimiter span therefore yields bold wrapping italic.  The image
/// rule comes before the anchor rule, which would otherwise consume the
/// bracketed part of an image.
pub open spec fn rule_order() -> Seq<StyleRule> {
    seq![
        StyleRule::Bold,
        StyleRule::Italic,
        StyleRule::ItalicUnderscore,
        StyleRule::Code,
        StyleRule::Image,
        StyleRule::Anchor,
    ]
}

/// The whole ordered pipeline applied to one fragment.
pub open spec fn style_rewrite(s: Seq<char>) -> Seq<char> {
    anchor_rewrite(image_rewrite(code_rewrite(underscore_rewrite(italic_rewrite(bold_rewrite(s))))))
}

/// Applies one rule to a fragment.
pub fn rule_apply(rule: StyleRule, v: &Vec<char>) -> (r: Vec<char>)
    ensures
        r@ == rule_rewrite(rule, v@),
{
    match rule {
        StyleRule::Bold => bold_apply(v),
        StyleRule::Italic => italic_apply(v),
        StyleRule::ItalicUnderscore => underscore_apply(v),
        StyleRule::Code => code_apply(v),
        StyleRule::Image => image_apply(v),
        StyleRule::Anchor => anchor_apply(v),
    }
}

/// Applies the whole ordered pipeline to a fragment.
pub fn style_apply(v: &Vec<char>) -> (r: Vec<char>)
    ensures
        r@ == style_rewrite(v@),
{
    let a = bold_apply(v);
    let b = italic_apply(&a);
    let c = underscore_apply(&b);
    let d = code_apply(&c);
    let e = image_apply(&d);
    anchor_apply(&e)
}

} // verus!

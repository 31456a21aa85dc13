//! Document-level laws of the conversion engine, stated and proved over
//! its specification.

use vstd::prelude::*;
use crate::classify::line_fragment;
use crate::parser::{block_line_html, convert_from, is_fence, line_html, md_html};
use crate::style::{
    anchor_rewrite, bold_rewrite, code_char, code_pick, code_rewrite, code_rewrite_from,
    delim_rewrite, image_rewrite, italic_rewrite, link_rewrite, rclose_from, style_rewrite,
    underscore_rewrite, url_char,
};
use crate::text::{find_from, lemma_find_from_props, rfind_from, tok_at};

verus! {

/// No character of `s` can open an inline style: no asterisk, underscore,
/// backtick, or opening bracket.
pub open spec fn delim_free(s: Seq<char>) -> bool {
    forall|i: int| 0 <= i < s.len() ==> s[i] != '*' && s[i] != '_' && s[i] != '`' && s[i] != '['
}

/// A token that starts with a character absent from `s` never occurs in
/// `s`.
proof fn lemma_absent_head_no_find(s: Seq<char>, t: Seq<char>, x: int)
    requires
        t.len() >= 1,
        0 <= x < t.len(),
        forall|i: int| 0 <= i < s.len() ==> s[i] != t[x],
    ensures
        find_from(s, t, 0) == -1,
{
    lemma_find_from_props(s, t, 0);
    if find_from(s, t, 0) >= 0 {
        let i = find_from(s, t, 0);
        assert(tok_at(s, t, i));
        assert(0 <= i + x < s.len());
        assert(s.subrange(i, i + t.len() as int)[x] == s[i + x]);
        assert(s[i + x] == t[x]);
    }
}

/// A fragment with no delimiter characters passes every delimiter-pair
/// rule unchanged.
proof fn lemma_delim_noop(s: Seq<char>, t: Seq<char>, o: Seq<char>, c: Seq<char>)
    requires
        t.len() >= 1,
        forall|i: int| 0 <= i < s.len() ==> s[i] != t[0],
    ensures
        delim_rewrite(s, t, o, c) == s,
{
    lemma_absent_head_no_find(s, t, 0);
}

/// Without a backtick no code span is picked anywhere.
proof fn lemma_code_pick_none(s: Seq<char>, i: int)
    requires
        forall|x: int| 0 <= x < s.len() ==> s[x] != '`',
    ensures
        code_pick(s, i) is None,
    decreases s.len() - i,
{
    if i < 0 || i >= s.len() {
    } else {
        lemma_code_pick_none(s, i + 1);
    }
}

/// A fragment with no backtick passes the code rule unchanged.
proof fn lemma_code_noop(s: Seq<char>)
    requires
        forall|x: int| 0 <= x < s.len() ==> s[x] != '`',
    ensures
        code_rewrite(s) == s,
{
    lemma_code_pick_none(s, 0);
    assert(s.subrange(0, s.len() as int) =~= s);
}

/// A fragment with no delimiter characters passes the whole style
/// pipeline unchanged.
pub proof fn lemma_style_noop(s: Seq<char>)
    requires
        delim_free(s),
    ensures
        style_rewrite(s) == s,
{
    lemma_delim_noop(s, seq!['*', '*'], "<b>"@, "</b>"@);
    lemma_delim_noop(s, seq!['*'], "<i>"@, "</i>"@);
    lemma_delim_noop(s, seq!['_'], "<i>"@, "</i>"@);
    lemma_code_noop(s);
    assert(image_rewrite(s) == s) by {
        lemma_absent_head_no_find(s, seq!['!', '['], 1);
    }
    assert(anchor_rewrite(s) == s) by {
        lemma_absent_head_no_find(s, seq!['['], 0);
    }
}

/// Delimiter-freedom carries over concatenation.
proof fn lemma_delim_free_concat(a: Seq<char>, b: Seq<char>)
    requires
        delim_free(a),
        delim_free(b),
    ensures
        delim_free(a + b),
{
    assert forall|i: int| 0 <= i < (a + b).len() implies (a + b)[i] != '*' && (a + b)[i] != '_'
        && (a + b)[i] != '`' && (a + b)[i] != '[' by {
        if i < a.len() {
            assert((a + b)[i] == a[i]);
        } else {
            assert((a + b)[i] == b[i - a.len()]);
        }
    }
}

/// The tags the classifier wraps lines in hold no delimiter characters,
/// so the fragment of a delimiter-free line is itself delimiter-free.
proof fn lemma_fragment_delim_free(l: Seq<char>)
    requires
        delim_free(l),
    ensures
        delim_free(line_fragment(l)),
{
    reveal_strlit("<div>");
    reveal_strlit("</div>");
    reveal_strlit("<br>");
    reveal_strlit("<h1>");
    reveal_strlit("</h1>");
    reveal_strlit("<h2>");
    reveal_strlit("</h2>");
    reveal_strlit("<h3>");
    reveal_strlit("</h3>");
    reveal_strlit("<h4>");
    reveal_strlit("</h4>");
    reveal_strlit("<h5>");
    reveal_strlit("</h5>");
    reveal_strlit("<h6>");
    reveal_strlit("</h6>");
    reveal_strlit("<li>");
    reveal_strlit("</li>");
    reveal_strlit("<blockquote>");
    reveal_strlit("</blockquote>");
    let k = crate::classify::classify(l);
    if crate::classify::is_marker_kind(k) {
        let m = crate::classify::marker_of(k).len() as int;
        assert(delim_free(l.skip(m))) by {
            assert forall|i: int| 0 <= i < l.skip(m).len() implies l.skip(m)[i] != '*' && l.skip(
                m,
            )[i] != '_' && l.skip(m)[i] != '`' && l.skip(m)[i] != '[' by {
                assert(l.skip(m)[i] == l[m + i]);
            }
        }
        lemma_delim_free_concat(crate::classify::open_tag(k), l.skip(m));
        lemma_delim_free_concat(crate::classify::open_tag(k) + l.skip(m), crate::classify::close_tag(k));
        lemma_delim_free_concat("<div>"@, crate::classify::parse_line_rewrite(l));
        lemma_delim_free_concat("<div>"@ + crate::classify::parse_line_rewrite(l), "</div>"@);
    } else if k is Blank {
    } else {
        lemma_delim_free_concat("<div>"@, l);
        lemma_delim_free_concat("<div>"@ + l, "</div>"@);
    }
}

/// The output of a document that uses no fences and no inline styles:
/// each line's wrapped fragment, in input order.
pub open spec fn plain_html(ls: Seq<Seq<char>>, k: int) -> Seq<char>
    decreases ls.len() - k,
{
    if k < 0 || k >= ls.len() {
        Seq::empty()
    } else {
        "<div>"@ + line_fragment(ls[k]) + "</div>"@ + plain_html(ls, k + 1)
    }
}

proof fn lemma_plain_from(ls: Seq<Seq<char>>, k: int)
    requires
        forall|x: int| 0 <= x < ls.len() ==> !is_fence(#[trigger] ls[x]) && style_rewrite(
            line_fragment(ls[x]),
        ) == line_fragment(ls[x]),
        k >= 0,
    ensures
        convert_from(ls, k, false, Seq::empty()) == plain_html(ls, k),
    decreases ls.len() - k,
{
    if k >= ls.len() {
    } else {
        lemma_plain_from(ls, k + 1);
        assert(line_html(ls[k]) == "<div>"@ + line_fragment(ls[k]) + "</div>"@);
        assert(line_html(ls[k]) + plain_html(ls, k + 1) =~= "<div>"@ + line_fragment(ls[k])
            + "</div>"@ + plain_html(ls, k + 1));
    }
}

/// For a document with no fence markers and no recognized inline styles
/// (no rule changes any line's fragment), the output is each line
/// individually wrapped per its classified kind, concatenated in input
/// order.
pub proof fn lemma_plain_document(ls: Seq<Seq<char>>)
    requires
        forall|x: int| 0 <= x < ls.len() ==> !is_fence(#[trigger] ls[x]) && style_rewrite(
            line_fragment(ls[x]),
        ) == line_fragment(ls[x]),
    ensures
        md_html(ls) == plain_html(ls, 0),
{
    lemma_plain_from(ls, 0);
}

/// A line without delimiter characters has no recognized inline styles:
/// its fragment passes the style pipeline unchanged.
pub proof fn lemma_delim_free_line_unstyled(l: Seq<char>)
    requires
        delim_free(l),
    ensures
        style_rewrite(line_fragment(l)) == line_fragment(l),
{
    lemma_fragment_delim_free(l);
    lemma_style_noop(line_fragment(l));
}

/// For a document whose lines hold no fence markers and no delimiter
/// characters at all, the output is each line individually wrapped,
/// concatenated in input order.
pub proof fn lemma_plain_document_delim_free(ls: Seq<Seq<char>>)
    requires
        forall|x: int| 0 <= x < ls.len() ==> !is_fence(#[trigger] ls[x]) && delim_free(ls[x]),
    ensures
        md_html(ls) == plain_html(ls, 0),
{
    assert forall|x: int| 0 <= x < ls.len() implies !is_fence(#[trigger] ls[x]) && style_rewrite(
        line_fragment(ls[x]),
    ) == line_fragment(ls[x]) by {
        lemma_delim_free_line_unstyled(ls[x]);
    }
    lemma_plain_document(ls);
}

/// The body of a fenced region, each line wrapped verbatim, in input
/// order.
pub open spec fn verbatim_html(ls: Seq<Seq<char>>, k: int) -> Seq<char>
    decreases ls.len() - k,
{
    if k < 0 || k >= ls.len() {
        Seq::empty()
    } else {
        block_line_html(ls[k]) + verbatim_html(ls, k + 1)
    }
}

proof fn lemma_block_run(doc: Seq<Seq<char>>, body: Seq<Seq<char>>, k: int, acc: Seq<char>)
    requires
        doc.len() == body.len() + 2,
        forall|x: int| 0 <= x < body.len() ==> doc[x + 1] == #[trigger] body[x] && !is_fence(
            body[x],
        ),
        is_fence(doc[body.len() as int + 1]),
        1 <= k <= body.len() + 1,
    ensures
        convert_from(doc, k, true, acc) == acc + verbatim_html(body, k - 1) + "</code></div>\n"@,
    decreases body.len() + 1 - k,
{
    if k == body.len() + 1 {
        assert(convert_from(doc, k, true, acc) == acc + "</code></div>\n"@ + convert_from(
            doc,
            k + 1,
            false,
            Seq::empty(),
        ));
        assert(acc + "</code></div>\n"@ + Seq::<char>::empty() =~= acc + verbatim_html(
            body,
            k - 1,
        ) + "</code></div>\n"@);
    } else {
        assert(doc[k] == body[k - 1]);
        lemma_block_run(doc, body, k + 1, acc + block_line_html(doc[k]));
        assert(acc + block_line_html(body[k - 1]) + verbatim_html(body, k) + "</code></div>\n"@
            =~= acc + verbatim_html(body, k - 1) + "</code></div>\n"@);
    }
}

/// A document made of a fence-open line, interior lines, and a
/// fence-close line emits the interior lines verbatim, each in a generic
/// container, with no classification and no style substitution applied.
pub proof fn lemma_fenced_document(opener: Seq<char>, body: Seq<Seq<char>>, closer: Seq<char>)
    requires
        is_fence(opener),
        is_fence(closer),
        forall|x: int| 0 <= x < body.len() ==> !is_fence(#[trigger] body[x]),
    ensures
        md_html(seq![opener] + body + seq![closer]) == "<div><code>"@ + verbatim_html(body, 0)
            + "</code></div>\n"@,
{
    let doc = seq![opener] + body + seq![closer];
    assert(doc.len() == body.len() + 2);
    assert(doc[0] == opener);
    assert(is_fence(doc[body.len() as int + 1]));
    assert forall|x: int| 0 <= x < body.len() implies doc[x + 1] == #[trigger] body[x] && !is_fence(
        body[x],
    ) by {
        assert(doc[x + 1] == body[x]);
    }
    assert(convert_from(doc, 0, false, Seq::empty()) == convert_from(
        doc,
        1,
        true,
        "<div><code>"@,
    ));
    lemma_block_run(doc, body, 1, "<div><code>"@);
}

/// Conversion is deterministic: the output is a function of the input
/// lines alone, so converting the same untouched document twice yields
/// identical output.
pub proof fn lemma_deterministic(a: Seq<Seq<char>>, b: Seq<Seq<char>>)
    requires
        a == b,
    ensures
        md_html(a) == md_html(b),
{
}

/// A line made of a marker and any content renders to the element for
/// that marker's kind, holding exactly the content.
pub proof fn lemma_marked_line(k: crate::classify::LineKind, c: Seq<char>)
    requires
        crate::classify::is_marker_kind(k),
    ensures
        crate::classify::classify(crate::classify::marker_of(k) + c) == k,
        crate::classify::parse_line_rewrite(crate::classify::marker_of(k) + c)
            == crate::classify::open_tag(k) + c + crate::classify::close_tag(k),
{
    let s = crate::classify::marker_of(k) + c;
    let m = crate::classify::marker_of(k).len() as int;
    assert(tok_at(s, crate::classify::marker_of(k), 0)) by {
        assert(s.subrange(0, m) =~= crate::classify::marker_of(k));
    }
    let k2 = crate::classify::classify(s);
    if crate::classify::is_marker_kind(k2) {
        crate::classify::lemma_markers_exclusive(s, k, k2);
    }
    assert(s.skip(m) =~= c);
}

/// Wrapping any non-empty content in a delimiter-pair rule's token yields
/// the rule's element holding exactly that content.
pub proof fn lemma_delim_wraps(t: Seq<char>, c: Seq<char>, o: Seq<char>, cl: Seq<char>)
    requires
        t.len() >= 1,
        c.len() >= 1,
    ensures
        delim_rewrite(t + c + t, t, o, cl) == o + c + cl,
{
    let s = t + c + t;
    let m = t.len() as int;
    let n = s.len() as int;
    assert(tok_at(s, t, 0)) by {
        assert(s.subrange(0, m) =~= t);
    }
    assert(find_from(s, t, 0) == 0);
    assert(tok_at(s, t, n - m)) by {
        assert(s.subrange(n - m, n) =~= t);
    }
    crate::text::lemma_rfind_from_props(s, t, n);
    let r = rfind_from(s, t, n);
    assert(r == n - m) by {
        if r < n - m {
            assert(!tok_at(s, t, n - m));
        }
        if r > n - m {
            assert(tok_at(s, t, r));
        }
    }
    assert(s.subrange(m, n - m) =~= c);
    assert(s.subrange(0, 0) + o + s.subrange(m, n - m) + cl + s.subrange(n, n) =~= o + c + cl);
}

/// `**content**` becomes a bold element holding exactly the content.
pub proof fn lemma_bold_wraps(c: Seq<char>)
    requires
        c.len() >= 1,
    ensures
        bold_rewrite(seq!['*', '*'] + c + seq!['*', '*']) == "<b>"@ + c + "</b>"@,
{
    lemma_delim_wraps(seq!['*', '*'], c, "<b>"@, "</b>"@);
}

/// `*content*` and `_content_` both become an italic element holding
/// exactly the content.
pub proof fn lemma_italic_wraps(c: Seq<char>)
    requires
        c.len() >= 1,
    ensures
        italic_rewrite(seq!['*'] + c + seq!['*']) == "<i>"@ + c + "</i>"@,
        underscore_rewrite(seq!['_'] + c + seq!['_']) == "<i>"@ + c + "</i>"@,
{
    lemma_delim_wraps(seq!['*'], c, "<i>"@, "</i>"@);
    lemma_delim_wraps(seq!['_'], c, "<i>"@, "</i>"@);
}

/// A run of code-class characters has its end at the sequence's end.
proof fn lemma_code_run_full(s: Seq<char>, i: int)
    requires
        0 <= i <= s.len(),
        forall|x: int| i <= x < s.len() ==> code_char(#[trigger] s[x]),
    ensures
        crate::style::code_run_end(s, i) == s.len(),
    decreases s.len() - i,
{
    if i < s.len() {
        lemma_code_run_full(s, i + 1);
    }
}

/// `` `content` `` becomes a code element holding exactly the content,
/// for any non-empty content inside the code character class.
pub proof fn lemma_code_wraps(c: Seq<char>)
    requires
        c.len() >= 1,
        forall|x: int| 0 <= x < c.len() ==> code_char(#[trigger] c[x]),
    ensures
        code_rewrite(seq!['`'] + c + seq!['`']) == "<code>"@ + c + "</code>"@,
{
    let s = seq!['`'] + c + seq!['`'];
    let n = s.len() as int;
    assert(s[0] == '`');
    assert(s[n - 1] == '`');
    assert(code_char('`'));
    assert forall|x: int| 1 <= x < n implies code_char(#[trigger] s[x]) by {
        if x < n - 1 {
            assert(s[x] == c[x - 1]);
        }
    }
    lemma_code_run_full(s, 1);
    assert(tok_at(s, seq!['`'], n - 1)) by {
        assert(s.subrange(n - 1, n) =~= seq!['`']);
    }
    crate::text::lemma_rfind_from_props(s, seq!['`'], n - 1);
    let r = rfind_from(s, seq!['`'], n - 1);
    assert(r == n - 1) by {
        if r < n - 1 {
            assert(!tok_at(s, seq!['`'], n - 1));
        }
    }
    assert(code_pick(s, 0) == Option::Some((0int, n - 1)));
    assert(code_pick(s, n) is None);
    assert(code_rewrite_from(s, 0) == s.subrange(0, 0) + "<code>"@ + s.subrange(1, n - 1)
        + "</code>"@ + code_rewrite_from(s, n));
    assert(s.subrange(1, n - 1) =~= c);
    assert(code_rewrite_from(s, n) =~= s.subrange(n, n));
    assert(s.subrange(0, 0) + "<code>"@ + c + "</code>"@ + s.subrange(n, n) =~= "<code>"@ + c
        + "</code>"@);
}

/// A run of URL-class characters before a non-URL character has its end
/// exactly there.
proof fn lemma_url_run_stops(s: Seq<char>, i: int, q: int)
    requires
        0 <= i <= q < s.len(),
        forall|x: int| i <= x < q ==> url_char(#[trigger] s[x]),
        !url_char(s[q]),
    ensures
        crate::style::url_run_end(s, i) == q,
    decreases q - i,
{
    if i < q {
        lemma_url_run_stops(s, i + 1, q);
    }
}

/// A link-shaped source made of an opener, bracketed text, and a
/// parenthesized URL becomes the rule's element holding the URL and then
/// the text, for any non-empty text and any non-empty URL inside the URL
/// character class.
pub proof fn lemma_link_wraps(
    t: Seq<char>,
    txt: Seq<char>,
    url: Seq<char>,
    pre: Seq<char>,
    mid: Seq<char>,
    post: Seq<char>,
)
    requires
        t.len() >= 1,
        txt.len() >= 1,
        url.len() >= 1,
        forall|x: int| 0 <= x < url.len() ==> url_char(#[trigger] url[x]),
    ensures
        link_rewrite(t + txt + seq![']', '('] + url + seq![')'], t, pre, mid, post) == pre + url
            + mid + txt + post,
{
    let s = t + txt + seq![']', '('] + url + seq![')'];
    let m = t.len() as int;
    let p = m + txt.len() as int;
    let q = p + 2 + url.len() as int;
    let n = s.len() as int;
    assert(n == q + 1);
    assert(tok_at(s, t, 0)) by {
        assert(s.subrange(0, m) =~= t);
    }
    assert(find_from(s, t, 0) == 0);
    assert(s[p] == ']');
    assert(s[p + 1] == '(');
    assert(s[q] == ')');
    assert(!url_char(')'));
    assert(!url_char('('));
    assert forall|x: int| p + 2 <= x < q implies url_char(#[trigger] s[x]) by {
        assert(s[x] == url[x - (p + 2)]);
    }
    lemma_url_run_stops(s, p + 2, q);
    assert(crate::style::link_close_at(s, p));
    assert forall|j: int| p < j <= n - 1 implies !crate::style::link_close_at(s, j) by {
        if j == p + 1 {
            assert(s[j] == '(');
        } else if j < q {
            assert(url_char(s[j]));
            if s[j] == ']' {
                assert(']' as u32 == 93);
            }
        } else {
            assert(s[j] == ')');
        }
    }
    crate::style::lemma_rclose_skip(s, n - 1, p);
    assert(rclose_from(s, n - 1) == p);
    assert(s.subrange(p + 2, q) =~= url);
    assert(s.subrange(m, p) =~= txt);
    assert(s.subrange(0, 0) + pre + url + mid + txt + post + s.subrange(q + 1, n) =~= pre + url
        + mid + txt + post);
}

/// `[text](url)` becomes an anchor whose `href` is the URL, holding the
/// text.
pub proof fn lemma_anchor_wraps(txt: Seq<char>, url: Seq<char>)
    requires
        txt.len() >= 1,
        url.len() >= 1,
        forall|x: int| 0 <= x < url.len() ==> url_char(#[trigger] url[x]),
    ensures
        anchor_rewrite(seq!['['] + txt + seq![']', '('] + url + seq![')']) == "<a href=\""@ + url
            + "\">"@ + txt + "</a>"@,
{
    lemma_link_wraps(seq!['['], txt, url, "<a href=\""@, "\">"@, "</a>"@);
}

/// `![alt](url)` becomes an image whose `src` is the URL and whose `alt`
/// is the text.
pub proof fn lemma_image_wraps(txt: Seq<char>, url: Seq<char>)
    requires
        txt.len() >= 1,
        url.len() >= 1,
        forall|x: int| 0 <= x < url.len() ==> url_char(#[trigger] url[x]),
    ensures
        image_rewrite(seq!['!', '['] + txt + seq![']', '('] + url + seq![')']) == "<img src=\""@
            + url + "\" alt=\""@ + txt + "\">"@,
{
    lemma_link_wraps(seq!['!', '['], txt, url, "<img src=\""@, "\" alt=\""@, "\">"@);
}

} // verus!

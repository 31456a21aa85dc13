//! Per-line semantic classification: an ordered table of line markers
//! (headings, list item, blockquote) decides the kind of each line outside
//! a fenced region, and the marker's content is wrapped in the element for
//! that kind.

use vstd::prelude::*;
use crate::text::{is_tok_at, push_range, push_str_chars, tok_at};

verus! {

/// The semantic kind of one input line.
#[derive(Clone, Copy, PartialEq, Eq, Structural)]
pub enum LineKind {
    Heading1,
    Heading2,
    Heading3,
    Heading4,
    Heading5,
    Heading6,
    ListItem,
    Blockquote,
    Blank,
    Plain,
}

/// The marker prefix that selects a kind; empty for the kinds no marker
/// selects.
pub open spec fn marker_of(k: LineKind) -> Seq<char> {
    match k {
        LineKind::Heading1 => seq!['#', ' '],
        LineKind::Heading2 => seq!['#', '#', ' '],
        LineKind::Heading3 => seq!['#', '#', '#', ' '],
        LineKind::Heading4 => seq!['#', '#', '#', '#', ' '],
        LineKind::Heading5 => seq!['#', '#', '#', '#', '#', ' '],
        LineKind::Heading6 => seq!['#', '#', '#', '#', '#', '#', ' '],
        LineKind::ListItem => seq!['*', ' '],
        LineKind::Blockquote => seq!['>', ' '],
        LineKind::Blank => Seq::empty(),
        LineKind::Plain => Seq::empty(),
    }
}

/// Whether a marker selects this kind.
pub open spec fn is_marker_kind(k: LineKind) -> bool {
    !(k is Blank) && !(k is Plain)
}

/// The kind of a line: the first marker of the table that matches its
/// prefix; a line empty after trimming is blank; anything else is plain.
pub open spec fn classify(s: Seq<char>) -> LineKind {
    if tok_at(s, marker_of(LineKind::Heading1), 0) {
        LineKind::Heading1
    } else if tok_at(s, marker_of(LineKind::Heading2), 0) {
        LineKind::Heading2
    } else if tok_at(s, marker_of(LineKind::Heading3), 0) {
        LineKind::Heading3
    } else if tok_at(s, marker_of(LineKind::Heading4), 0) {
        LineKind::Heading4
    } else if tok_at(s, marker_of(LineKind::Heading5), 0) {
        LineKind::Heading5
    } else if tok_at(s, marker_of(LineKind::Heading6), 0) {
        LineKind::Heading6
    } else if tok_at(s, marker_of(LineKind::ListItem), 0) {
        LineKind::ListItem
    } else if tok_at(s, marker_of(LineKind::Blockquote), 0) {
        LineKind::Blockquote
    } else if s.len() == 0 {
        LineKind::Blank
    } else {
        LineKind::Plain
    }
}

/// The opening tag of the element for a marked kind.
pub open spec fn open_tag(k: LineKind) -> Seq<char> {
    match k {
        LineKind::Heading1 => "<h1>"@,
        LineKind::Heading2 => "<h2>"@,
        LineKind::Heading3 => "<h3>"@,
        LineKind::Heading4 => "<h4>"@,
        LineKind::Heading5 => "<h5>"@,
        LineKind::Heading6 => "<h6>"@,
        LineKind::ListItem => "<li>"@,
        LineKind::Blockquote => "<blockquote>"@,
        LineKind::Blank => Seq::empty(),
        LineKind::Plain => Seq::empty(),
    }
}

/// The closing tag of the element for a marked kind.
pub open spec fn close_tag(k: LineKind) -> Seq<char> {
    match k {
        LineKind::Heading1 => "</h1>"@,
        LineKind::Heading2 => "</h2>"@,
        LineKind::Heading3 => "</h3>"@,
        LineKind::Heading4 => "</h4>"@,
        LineKind::Heading5 => "</h5>"@,
        LineKind::Heading6 => "</h6>"@,
        LineKind::ListItem => "</li>"@,
        LineKind::Blockquote => "</blockquote>"@,
        LineKind::Blank => Seq::empty(),
        LineKind::Plain => Seq::empty(),
    }
}

/// What a marked line renders to: everything after the marker, unmodified,
/// inside the element for the line's kind.  A line no marker selects
/// renders to the empty string here; blank and plain lines are handled by
/// the caller.
pub open spec fn parse_line_rewrite(s: Seq<char>) -> Seq<char> {
    let k = classify(s);
    if is_marker_kind(k) {
        open_tag(k) + s.skip(marker_of(k).len() as int) + close_tag(k)
    } else {
        Seq::empty()
    }
}

/// The HTML fragment of one line outside a fenced region, before inline
/// styles: a marked line is its element in a generic container, a blank
/// line is a line break, and any other line is the raw text in a generic
/// container.
pub open spec fn line_fragment(s: Seq<char>) -> Seq<char> {
    let k = classify(s);
    if is_marker_kind(k) {
        "<div>"@ + parse_line_rewrite(s) + "</div>"@
    } else if k is Blank {
        "<br>"@
    } else {
        "<div>"@ + s + "</div>"@
    }
}

/// Token `t` occurring at `i` fixes the characters of `s` there.
pub proof fn lemma_tok_at_index(s: Seq<char>, t: Seq<char>, i: int, x: int)
    requires
        tok_at(s, t, i),
        0 <= x < t.len(),
    ensures
        s[i + x] == t[x],
{
    assert(s.subrange(i, i + t.len() as int)[x] == s[i + x]);
}

/// Every line resolves to exactly one kind: two marked kinds whose markers
/// both match the same line are the same kind.  Each marker differs from
/// every shorter one at the position right after the shared prefix, so the
/// table's order cannot change what a line classifies as.
pub proof fn lemma_markers_exclusive(s: Seq<char>, k1: LineKind, k2: LineKind)
    requires
        is_marker_kind(k1),
        is_marker_kind(k2),
        tok_at(s, marker_of(k1), 0),
        tok_at(s, marker_of(k2), 0),
    ensures
        k1 == k2,
{
    let t1 = marker_of(k1);
    let t2 = marker_of(k2);
    assert forall|x: int| 0 <= x < t1.len() implies s[x] == t1[x] by {
        lemma_tok_at_index(s, t1, 0, x);
    }
    assert forall|x: int| 0 <= x < t2.len() implies s[x] == t2[x] by {
        lemma_tok_at_index(s, t2, 0, x);
    }
}

/// The kind of a line, decided by the marker table.
pub fn classify_chars(v: &Vec<char>) -> (k: LineKind)
    ensures
        k == classify(v@),
{
    let h1: Vec<char> = vec!['#', ' '];
    let h2: Vec<char> = vec!['#', '#', ' '];
    let h3: Vec<char> = vec!['#', '#', '#', ' '];
    let h4: Vec<char> = vec!['#', '#', '#', '#', ' '];
    let h5: Vec<char> = vec!['#', '#', '#', '#', '#', ' '];
    let h6: Vec<char> = vec!['#', '#', '#', '#', '#', '#', ' '];
    let li: Vec<char> = vec!['*', ' '];
    let bq: Vec<char> = vec!['>', ' '];
    proof {
        assert(h1@ =~= marker_of(LineKind::Heading1));
        assert(h2@ =~= marker_of(LineKind::Heading2));
        assert(h3@ =~= marker_of(LineKind::Heading3));
        assert(h4@ =~= marker_of(LineKind::Heading4));
        assert(h5@ =~= marker_of(LineKind::Heading5));
        assert(h6@ =~= marker_of(LineKind::Heading6));
        assert(li@ =~= marker_of(LineKind::ListItem));
        assert(bq@ =~= marker_of(LineKind::Blockquote));
    }
    if is_tok_at(v, &h1, 0) {
        LineKind::Heading1
    } else if is_tok_at(v, &h2, 0) {
        LineKind::Heading2
    } else if is_tok_at(v, &h3, 0) {
        LineKind::Heading3
    } else if is_tok_at(v, &h4, 0) {
        LineKind::Heading4
    } else if is_tok_at(v, &h5, 0) {
        LineKind::Heading5
    } else if is_tok_at(v, &h6, 0) {
        LineKind::Heading6
    } else if is_tok_at(v, &li, 0) {
        LineKind::ListItem
    } else if is_tok_at(v, &bq, 0) {
        LineKind::Blockquote
    } else if v.len() == 0 {
        LineKind::Blank
    } else {
        LineKind::Plain
    }
}

/// Renders a marked line to its element; a line no marker selects renders
/// to the empty string.
pub fn parse_line_chars(v: &Vec<char>) -> (r: Vec<char>)
    ensures
        r@ == parse_line_rewrite(v@),
{
    let k = classify_chars(v);
    let mut out: Vec<char> = Vec::new();
    let skip: usize = match k {
        LineKind::Heading1 => 2,
        LineKind::Heading2 => 3,
        LineKind::Heading3 => 4,
        LineKind::Heading4 => 5,
        LineKind::Heading5 => 6,
        LineKind::Heading6 => 7,
        LineKind::ListItem => 2,
        LineKind::Blockquote => 2,
        LineKind::Blank => 0,
        LineKind::Plain => 0,
    };
    match k {
        LineKind::Heading1 => push_str_chars(&mut out, "<h1>"),
        LineKind::Heading2 => push_str_chars(&mut out, "<h2>"),
        LineKind::Heading3 => push_str_chars(&mut out, "<h3>"),
        LineKind::Heading4 => push_str_chars(&mut out, "<h4>"),
        LineKind::Heading5 => push_str_chars(&mut out, "<h5>"),
        LineKind::Heading6 => push_str_chars(&mut out, "<h6>"),
        LineKind::ListItem => push_str_chars(&mut out, "<li>"),
        LineKind::Blockquote => push_str_chars(&mut out, "<blockquote>"),
        LineKind::Blank => (),
        LineKind::Plain => (),
    }
    if is_marker_kind_exec(k) {
        proof {
            assert(skip == marker_of(k).len());
            assert(v@.len() >= skip);
        }
        push_range(&mut out, v, skip, v.len());
        match k {
            LineKind::Heading1 => push_str_chars(&mut out, "</h1>"),
            LineKind::Heading2 => push_str_chars(&mut out, "</h2>"),
            LineKind::Heading3 => push_str_chars(&mut out, "</h3>"),
            LineKind::Heading4 => push_str_chars(&mut out, "</h4>"),
            LineKind::Heading5 => push_str_chars(&mut out, "</h5>"),
            LineKind::Heading6 => push_str_chars(&mut out, "</h6>"),
            LineKind::ListItem => push_str_chars(&mut out, "</li>"),
            LineKind::Blockquote => push_str_chars(&mut out, "</blockquote>"),
            LineKind::Blank => (),
            LineKind::Plain => (),
        }
        proof {
            assert(v@.subrange(skip as int, v@.len() as int) =~= v@.skip(skip as int));
        }
    }
    out
}

/// Whether a marker selects this kind.
pub fn is_marker_kind_exec(k: LineKind) -> (r: bool)
    ensures
        r == is_marker_kind(k),
{
    match k {
        LineKind::Blank => false,
        LineKind::Plain => false,
        _ => true,
    }
}

/// The HTML fragment of one line outside a fenced region, before inline
/// styles.
pub fn fragment_chars(v: &Vec<char>) -> (r: Vec<char>)
    ensures
        r@ == line_fragment(v@),
{
    let k = classify_chars(v);
    if is_marker_kind_exec(k) {
        let mut out: Vec<char> = Vec::new();
        push_str_chars(&mut out, "<div>");
        let inner = parse_line_chars(v);
        push_range(&mut out, &inner, 0, inner.len());
        push_str_chars(&mut out, "</div>");
        proof {
            assert(inner@.subrange(0, inner@.len() as int) =~= inner@);
        }
        out
    } else if v.len() == 0 {
        let mut out: Vec<char> = Vec::new();
        push_str_chars(&mut out, "<br>");
        out
    } else {
        let mut out: Vec<char> = Vec::new();
        push_str_chars(&mut out, "<div>");
        push_range(&mut out, v, 0, v.len());
        push_str_chars(&mut out, "</div>");
        proof {
            assert(v@.subrange(0, v@.len() as int) =~= v@);
        }
        out
    }
}

} // verus!

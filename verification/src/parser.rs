//! The conversion engine: one forward pass over the document's lines,
//! tracking whether the position is inside a fenced region, and routing
//! every other line through classification and the inline style pipeline.

use vstd::prelude::*;
use crate::classify::{
    classify, fragment_chars, is_marker_kind, line_fragment, parse_line_rewrite, parse_line_chars,
    classify_chars, is_marker_kind_exec,
};
use crate::style::{rule_apply, rule_rewrite, rule_order, style_apply, style_rewrite, StyleRule};
use crate::text::{chars_to_string, is_tok_at, push_range, push_str_chars, str_to_chars, tok_at};

verus! {

/// A fence marker: a line that opens or closes a fenced region.
pub open spec fn is_fence(s: Seq<char>) -> bool {
    tok_at(s, seq!['`', '`', '`'], 0)
}

/// What one non-fence line outside a fenced region contributes to the
/// output: its fragment, run through the style pipeline, in one more
/// generic container.
pub open spec fn line_html(s: Seq<char>) -> Seq<char> {
    "<div>"@ + style_rewrite(line_fragment(s)) + "</div>"@
}

/// What one line inside a fenced region contributes to the region's body.
pub open spec fn block_line_html(s: Seq<char>) -> Seq<char> {
    "<div>"@ + s + "</div>"@
}

/// The output of the conversion pass from line `k` on, given whether the
/// pass stands inside a fenced region and the content accumulated for that
/// region so far.  A region still open when the lines run out is dropped:
/// its accumulated content is never emitted, matching the engine's
/// long-standing behaviour on an odd number of fence markers.
pub open spec fn convert_from(ls: Seq<Seq<char>>, k: int, inside: bool, acc: Seq<char>) -> Seq<char>
    decreases ls.len() - k,
{
    if k < 0 || k >= ls.len() {
        Seq::empty()
    } else {
        let l = ls[k];
        if is_fence(l) {
            if inside {
                acc + "</code></div>\n"@ + convert_from(ls, k + 1, false, Seq::empty())
            } else {
                convert_from(ls, k + 1, true, "<div><code>"@)
            }
        } else if inside {
            convert_from(ls, k + 1, true, acc + block_line_html(l))
        } else {
            line_html(l) + convert_from(ls, k + 1, false, acc)
        }
    }
}

/// The whole document's HTML.
pub open spec fn md_html(ls: Seq<Seq<char>>) -> Seq<char> {
    convert_from(ls, 0, false, Seq::empty())
}

/// Concatenation of character sequences is associative.
proof fn lemma_concat_assoc(a: Seq<char>, b: Seq<char>, c: Seq<char>)
    ensures
        (a + b) + c == a + (b + c),
{
    assert((a + b) + c =~= a + (b + c));
}

/// Appends the rendered form of one non-fence line outside a fenced
/// region.
fn emit_line(out: &mut Vec<char>, lv: &Vec<char>)
    ensures
        final(out)@ == old(out)@ + line_html(lv@),
{
    let frag = fragment_chars(lv);
    let styled = style_apply(&frag);
    push_str_chars(out, "<div>");
    push_range(out, &styled, 0, styled.len());
    push_str_chars(out, "</div>");
    proof {
        assert(styled@.subrange(0, styled@.len() as int) =~= styled@);
        assert(out@ =~= old(out)@ + line_html(lv@));
    }
}

/// Appends one verbatim line to a fenced region's accumulated content.
fn emit_block_line(acc: &mut Vec<char>, lv: &Vec<char>)
    ensures
        final(acc)@ == old(acc)@ + block_line_html(lv@),
{
    push_str_chars(acc, "<div>");
    push_range(acc, lv, 0, lv.len());
    push_str_chars(acc, "</div>");
    proof {
        assert(lv@.subrange(0, lv@.len() as int) =~= lv@);
        assert(acc@ =~= old(acc)@ + block_line_html(lv@));
    }
}

/// Flushes a closed fenced region: the accumulated content, the closing
/// marker, and a line break.
fn emit_block_close(out: &mut Vec<char>, acc: &Vec<char>)
    ensures
        final(out)@ == old(out)@ + acc@ + "</code></div>\n"@,
{
    push_range(out, acc, 0, acc.len());
    push_str_chars(out, "</code></div>\n");
    proof {
        assert(acc@.subrange(0, acc@.len() as int) =~= acc@);
    }
}

/// The opening marker of a fenced region's accumulated content.
fn block_open() -> (r: Vec<char>)
    ensures
        r@ == "<div><code>"@,
{
    let mut opened: Vec<char> = Vec::new();
    push_str_chars(&mut opened, "<div><code>");
    opened
}

/// The Markdown-to-HTML conversion engine.
pub struct Parser {}

impl Parser {
    /// Converts a document, given as its ordered sequence of trimmed
    /// lines, into one string of HTML fragments.  The conversion never
    /// fails: unrecognized syntax degrades to plain-text wrapping.
    pub fn parse_md(lines: Vec<&str>) -> (res: String)
        ensures
            res@ == md_html(lines.deep_view()),
    {
        let ghost ls = lines.deep_view();
        let mut out: Vec<char> = Vec::new();
        let mut acc: Vec<char> = Vec::new();
        let mut inside: bool = false;
        let mut k: usize = 0;
        while k < lines.len()
            invariant
                k <= lines.len(),
                ls == lines.deep_view(),
                ls.len() == lines@.len(),
                forall|x: int| 0 <= x < ls.len() ==> ls[x] == #[trigger] lines@[x]@,
                md_html(ls) == out@ + convert_from(ls, k as int, inside, acc@),
            decreases lines.len() - k,
        {
            let line = lines[k];
            let lv = str_to_chars(line);
            proof {
                assert(lv@ == ls[k as int]);
            }
            if Parser::is_block_element(line) {
                if inside {
                    proof {
                        assert(convert_from(ls, k as int, true, acc@) == acc@ + "</code></div>\n"@
                            + convert_from(ls, k + 1, false, Seq::empty()));
                        lemma_concat_assoc(
                            out@,
                            acc@ + "</code></div>\n"@,
                            convert_from(ls, k + 1, false, Seq::empty()),
                        );
                        lemma_concat_assoc(out@, acc@, "</code></div>\n"@);
                        lemma_concat_assoc(
                            out@ + acc@ + "</code></div>\n"@,
                            Seq::empty(),
                            convert_from(ls, k + 1, false, Seq::empty()),
                        );
                    }
                    emit_block_close(&mut out, &acc);
                    acc = Vec::new();
                    inside = false;
                } else {
                    proof {
                        assert(convert_from(ls, k as int, inside, acc@) == convert_from(
                            ls,
                            k + 1,
                            true,
                            "<div><code>"@,
                        ));
                    }
                    acc = block_open();
                    inside = true;
                }
            } else if inside {
                proof {
                    assert(convert_from(ls, k as int, true, acc@) == convert_from(
                        ls,
                        k + 1,
                        true,
                        acc@ + block_line_html(ls[k as int]),
                    ));
                }
                emit_block_line(&mut acc, &lv);
            } else {
                proof {
                    assert(convert_from(ls, k as int, false, acc@) == line_html(ls[k as int])
                        + convert_from(ls, k + 1, false, acc@));
                    lemma_concat_assoc(
                        out@,
                        line_html(ls[k as int]),
                        convert_from(ls, k + 1, false, acc@),
                    );
                }
                emit_line(&mut out, &lv);
            }
            k += 1;
        }
        proof {
            assert(out@ + Seq::<char>::empty() =~= out@);
            assert(md_html(ls) == out@);
        }
        chars_to_string(&out)
    }

    /// Whether a marker of the line table matches the line's prefix.
    pub fn is_line_element(line: &str) -> (r: bool)
        ensures
            r == is_marker_kind(classify(line@)),
    {
        let lv = str_to_chars(line);
        let k = classify_chars(&lv);
        is_marker_kind_exec(k)
    }

    /// Whether the line is a fence marker.
    pub fn is_block_element(line: &str) -> (r: bool)
        ensures
            r == is_fence(line@),
    {
        let lv = str_to_chars(line);
        let t: Vec<char> = vec!['`', '`', '`'];
        proof {
            assert(t@ =~= seq!['`', '`', '`']);
        }
        is_tok_at(&lv, &t, 0)
    }

    /// Renders a marked line to its element: the content after the marker,
    /// unmodified, inside the element for the line's kind.  A line no
    /// marker selects renders to the empty string.
    pub fn parse_line(line: &str) -> (res: String)
        ensures
            res@ == parse_line_rewrite(line@),
    {
        let lv = str_to_chars(line);
        let out = parse_line_chars(&lv);
        chars_to_string(&out)
    }

    /// Applies one inline style rule to a fragment.
    pub fn format_line(line: &str, rule: StyleRule) -> (res: String)
        ensures
            res@ == rule_rewrite(rule, line@),
    {
        let lv = str_to_chars(line);
        let out = rule_apply(rule, &lv);
        chars_to_string(&out)
    }

    /// The fixed ordered list of inline style rules, as `format_line`
    /// applies them during conversion.
    pub fn style_rules() -> (rules: Vec<StyleRule>)
        ensures
            rules@ == rule_order(),
    {
        let rules: Vec<StyleRule> = vec![
            StyleRule::Bold,
            StyleRule::Italic,
            StyleRule::ItalicUnderscore,
            StyleRule::Code,
            StyleRule::Image,
            StyleRule::Anchor,
        ];
        proof {
            assert(rules@ =~= rule_order());
        }
        rules
    }
}

} // verus!

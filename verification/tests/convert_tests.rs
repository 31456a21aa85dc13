use md::Parser;

#[test]
fn plain_lines_wrap_in_order() {
    let html = Parser::parse_md(vec!["# Title", "hello", "", "* item"]);
    assert_eq!(
        "<div><div><h1>Title</h1></div></div>\
         <div><div>hello</div></div>\
         <div><br></div>\
         <div><div><li>item</li></div></div>",
        html
    );
}

#[test]
fn heading_levels_in_document() {
    assert_eq!(
        "<div><div><h1>Title</h1></div></div>",
        Parser::parse_md(vec!["# Title"])
    );
    assert_eq!(
        "<div><div><h6>x</h6></div></div>",
        Parser::parse_md(vec!["###### x"])
    );
}

#[test]
fn list_item_and_blockquote_in_document() {
    assert_eq!(
        "<div><div><li>item</li></div></div>",
        Parser::parse_md(vec!["* item"])
    );
    assert_eq!(
        "<div><div><blockquote>quote</blockquote></div></div>",
        Parser::parse_md(vec!["> quote"])
    );
}

#[test]
fn bold_and_italic_in_document() {
    assert_eq!(
        "<div><div><b>bold</b></div></div>",
        Parser::parse_md(vec!["**bold**"])
    );
    assert_eq!(
        "<div><div><i>em</i></div></div>",
        Parser::parse_md(vec!["*em*"])
    );
    assert_eq!(
        "<div><div><i>em</i></div></div>",
        Parser::parse_md(vec!["_em_"])
    );
}

#[test]
fn inline_code_in_document() {
    assert_eq!(
        "<div><div><code>code</code></div></div>",
        Parser::parse_md(vec!["`code`"])
    );
}

#[test]
fn anchor_and_image_in_document() {
    assert_eq!(
        "<div><div><a href=\"http://x\">text</a></div></div>",
        Parser::parse_md(vec!["[text](http://x)"])
    );
    assert_eq!(
        "<div><div><img src=\"http://x\" alt=\"alt\"></div></div>",
        Parser::parse_md(vec!["![alt](http://x)"])
    );
}

#[test]
fn fenced_block_is_verbatim() {
    let html = Parser::parse_md(vec!["```", "# Title", "code line", "```"]);
    assert_eq!(
        "<div><code><div># Title</div><div>code line</div></code></div>\n",
        html
    );
}

#[test]
fn unterminated_fence_is_dropped() {
    let html = Parser::parse_md(vec!["```", "hidden", "also hidden"]);
    assert_eq!("", html);
}

#[test]
fn text_after_closed_fence_is_converted() {
    let html = Parser::parse_md(vec!["```", "raw", "```", "# after"]);
    assert_eq!(
        "<div><code><div>raw</div></code></div>\n<div><div><h1>after</h1></div></div>",
        html
    );
}

#[test]
fn conversion_is_deterministic() {
    let lines = vec!["# Title", "", "some **bold** text", "```", "raw", "```"];
    let first = Parser::parse_md(lines.clone());
    let second = Parser::parse_md(lines);
    assert_eq!(first, second);
}

#[test]
fn two_bold_spans_merge_greedily() {
    let html = Parser::parse_md(vec!["**a** and **b**"]);
    assert_eq!("<div><div><b>a<i>* and *</i>b</b></div></div>", html);
}

#[test]
fn separated_code_spans_stay_apart() {
    let html = Parser::parse_md(vec!["`a` (x) `b`"]);
    assert_eq!(
        "<div><div><code>a</code> (x) <code>b</code></div></div>",
        html
    );
}

#[test]
fn styles_apply_inside_headings() {
    let html = Parser::parse_md(vec!["# **T**"]);
    assert_eq!("<div><div><h1><b>T</b></h1></div></div>", html);
}

#[test]
fn triple_delimiters_nest_bold_then_italic() {
    let html = Parser::parse_md(vec!["***text***"]);
    assert_eq!("<div><div><b><i>text</i></b></div></div>", html);
}

#[test]
fn unmatched_delimiters_pass_through() {
    assert_eq!(
        "<div><div>** hello</div></div>",
        Parser::parse_md(vec!["** hello"])
    );
    assert_eq!(
        "<div><div>a * b</div></div>",
        Parser::parse_md(vec!["a * b"])
    );
}

#[test]
fn empty_document_gives_empty_output() {
    assert_eq!("", Parser::parse_md(vec![]));
}

#[test]
fn classification_helpers_match_markers() {
    assert!(Parser::is_line_element("# h"));
    assert!(Parser::is_line_element("###### h"));
    assert!(Parser::is_line_element("* li"));
    assert!(Parser::is_line_element("> q"));
    assert!(!Parser::is_line_element("#nospace"));
    assert!(!Parser::is_line_element("plain"));
    assert!(!Parser::is_line_element(""));
    assert!(Parser::is_block_element("```"));
    assert!(Parser::is_block_element("```rust"));
    assert!(!Parser::is_block_element("``"));
    assert!(!Parser::is_block_element("x```"));
}

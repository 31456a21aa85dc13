use md::Parser;
use md::StyleRule;

#[test]
fn parse_line_h1() {
    let html = Parser::parse_line("# this is an h1");
    assert_eq!("<h1>this is an h1</h1>", html);
}

#[test]
fn parse_line_h2() {
    let html = Parser::parse_line("## this is an h2");
    assert_eq!("<h2>this is an h2</h2>", html);
}

#[test]
fn parse_line_h3() {
    let html = Parser::parse_line("### this is an h3");
    assert_eq!("<h3>this is an h3</h3>", html);
}

#[test]
fn parse_line_h4() {
    let html = Parser::parse_line("#### this is an h4");
    assert_eq!("<h4>this is an h4</h4>", html);
}

#[test]
fn parse_line_h5() {
    let html = Parser::parse_line("##### this is an h5");
    assert_eq!("<h5>this is an h5</h5>", html);
}

#[test]
fn parse_line_h6() {
    let html = Parser::parse_line("###### this is an h6");
    assert_eq!("<h6>this is an h6</h6>", html);
}

#[test]
fn parse_line_bullet_point() {
    let html = Parser::parse_line("* this is an li");
    assert_eq!("<li>this is an li</li>", html);
}

#[test]
fn parse_line_blockquote() {
    let html = Parser::parse_line("> this is a blockquote");
    assert_eq!("<blockquote>this is a blockquote</blockquote>", html);
}

#[test]
fn format_anchor_tag() {
    let html = Parser::format_line("[hello world!](https://google.com)", StyleRule::Anchor);
    assert_eq!("<a href=\"https://google.com\">hello world!</a>", html);
}

#[test]
fn format_italic_text() {
    let html = Parser::format_line("*hello*", StyleRule::Italic);
    assert_eq!("<i>hello</i>", html);
}

#[test]
fn format_italic_text2() {
    let html = Parser::format_line("_hello_", StyleRule::ItalicUnderscore);
    assert_eq!("<i>hello</i>", html);
}

#[test]
fn format_inline_code() {
    let html = Parser::format_line("`hello`", StyleRule::Code);
    assert_eq!("<code>hello</code>", html);
}

#[test]
fn format_bold_text() {
    let html = Parser::format_line("**hello**", StyleRule::Bold);
    assert_eq!("<b>hello</b>", html);
}

#[test]
fn format_bold_italic_anchor_text() {
    let mut html_line: String = "***[hello](https://google.com)***".to_string();
    for rule in Parser::style_rules() {
        html_line = Parser::format_line(&html_line, rule);
    }
    assert_eq!(
        "<b><i><a href=\"https://google.com\">hello</a></i></b>",
        html_line
    );
}

#[test]
fn format_img() {
    let html = Parser::format_line("![alt](image-url)", StyleRule::Image);
    assert_eq!("<img src=\"image-url\" alt=\"alt\">", html);
}

#[test]
fn style_rules_keep_their_order() {
    let rules = Parser::style_rules();
    assert_eq!(
        vec![
            StyleRule::Bold,
            StyleRule::Italic,
            StyleRule::ItalicUnderscore,
            StyleRule::Code,
            StyleRule::Image,
            StyleRule::Anchor,
        ],
        rules
    );
}

#[test]
fn format_line_without_a_match_changes_nothing() {
    let line = "no styles here";
    for rule in Parser::style_rules() {
        assert_eq!(line, Parser::format_line(line, rule));
    }
}

use md::{Config, Renderer};

#[test]
fn home_links_list_posts_by_stem() {
    let html = Renderer::home_links(vec![
        "first-post.md".to_string(),
        "another.md".to_string(),
    ]);
    assert_eq!(
        "<li><a href='first-post'>first-post</a></li>\n<li><a href='another'>another</a></li>\n",
        html
    );
}

#[test]
fn home_links_use_prefix_before_first_dot() {
    let html = Renderer::home_links(vec!["a.tar.md".to_string(), "nodot".to_string()]);
    assert_eq!(
        "<li><a href='a'>a</a></li>\n<li><a href='nodot'>nodot</a></li>\n",
        html
    );
}

#[test]
fn home_links_empty_when_no_posts() {
    assert_eq!("", Renderer::home_links(vec![]));
}

#[test]
fn markdown_names_go_by_last_extension() {
    assert!(Renderer::is_markdown_name("post.md"));
    assert!(Renderer::is_markdown_name("a.txt.md"));
    assert!(!Renderer::is_markdown_name("post.txt"));
    assert!(!Renderer::is_markdown_name("post.md.txt"));
    assert!(!Renderer::is_markdown_name("post"));
    assert!(Renderer::is_markdown_name("md"));
    assert!(!Renderer::is_markdown_name(""));
}

#[test]
fn default_config_names_the_example_blog() {
    let config = Config::default();
    assert_eq!("Example blog", config.name);
}

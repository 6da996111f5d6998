use portfolio::markdown::{code_block, html_escape, MarkdownRenderer};

#[test]
fn test_reading_time() {
    let short = "Hello world";
    assert_eq!(MarkdownRenderer::reading_time(short), 1);

    let medium = "word ".repeat(400);
    assert_eq!(MarkdownRenderer::reading_time(&medium), 2);
}

#[test]
fn test_extract_excerpt() {
    let content = "# Title\n\nThis is the first paragraph.\n\nSecond paragraph.";
    let excerpt = MarkdownRenderer::extract_excerpt(content, 100);
    assert!(excerpt.contains("first paragraph"));
}

#[test]
fn render_highlights_fenced_code() {
    let renderer = MarkdownRenderer::new();
    let html = renderer.render("# Hi\n\n```rust\nlet x = 1;\n```\n");
    assert!(html.contains("<h1>Hi</h1>"));
    assert!(html.contains("<div class=\"code-block\" data-lang=\"rust\"><pre><code class=\"language-rust\">"));
    assert!(html.ends_with("</code></pre></div>"));
}

#[test]
fn code_block_falls_back_to_escaped_code() {
    assert_eq!(
        code_block("a < b", "text", None),
        "<pre><code class=\"language-text\">a &lt; b</code></pre>"
    );
    assert_eq!(
        code_block("x", "py", Some("<b>x</b>")),
        "<div class=\"code-block\" data-lang=\"py\"><pre><code class=\"language-py\"><b>x</b></code></pre></div>"
    );
}

#[test]
fn html_escape_replaces_specials() {
    assert_eq!(html_escape("<a href=\"x\">Tom & 'Jerry'</a>"), "&lt;a href=&quot;x&quot;&gt;Tom &amp; &#x27;Jerry&#x27;&lt;/a&gt;");
}

#[test]
fn render_plain_paragraph() {
    let renderer = MarkdownRenderer::default();
    assert_eq!(renderer.render("Hello *world*"), "<p>Hello <em>world</em></p>\n");
}

#[test]
fn render_indented_code_uses_text_language() {
    let renderer = MarkdownRenderer::new();
    let html = renderer.render("    plain code\n");
    assert!(html.starts_with("<div class=\"code-block\" data-lang=\"text\"><pre><code class=\"language-text\">"));
}

#[test]
fn render_empty_fence_uses_text_language() {
    let renderer = MarkdownRenderer::new();
    let html = renderer.render("```\nx < y\n```\n");
    assert!(html.contains("data-lang=\"text\""));
    assert!(!html.contains("x < y"));
}

#[test]
fn reading_time_rounds_up() {
    assert_eq!(MarkdownRenderer::reading_time(""), 1);
    assert_eq!(MarkdownRenderer::reading_time(&"w ".repeat(200)), 1);
    assert_eq!(MarkdownRenderer::reading_time(&"w ".repeat(201)), 2);
    assert_eq!(MarkdownRenderer::reading_time("  a\tb\nc\u{3000}d  "), 1);
}

#[test]
fn reading_time_counts_unicode_whitespace() {
    let text = "one\u{2003}two\u{a0}three";
    let expected = text.split_whitespace().count();
    assert_eq!(expected, 3);
    assert_eq!(MarkdownRenderer::reading_time(&format!("{}", "x\u{2003}".repeat(401))), 3);
}

#[test]
fn excerpt_skips_headings_and_blank_paragraphs() {
    let content = "# Title\n\n   \n\n## Sub\n\nReal *text* here.";
    assert_eq!(MarkdownRenderer::extract_excerpt(content, 100), "Real text here.");
}

#[test]
fn excerpt_falls_back_to_whole_content() {
    let content = "# Only heading";
    assert_eq!(MarkdownRenderer::extract_excerpt(content, 100), "Only heading");
}

#[test]
fn excerpt_cuts_at_last_space() {
    let content = "alpha beta gamma delta";
    assert_eq!(MarkdownRenderer::extract_excerpt(content, 12), "alpha beta...");
    assert_eq!(MarkdownRenderer::extract_excerpt("abcdefghij", 4), "abcd...");
}

#[test]
fn excerpt_limit_counts_characters() {
    // three characters (six bytes) fit a limit of three characters
    assert_eq!(MarkdownRenderer::extract_excerpt("ééé", 3), "ééé");
    // five characters over a limit of four: cut to four characters
    assert_eq!(MarkdownRenderer::extract_excerpt("ééééé", 4), "éééé...");
}

#[test]
fn excerpt_has_no_markup() {
    let e = MarkdownRenderer::extract_excerpt("Some `code` and [link](url) and **bold** _it_", 20);
    for c in ['#', '*', '_', '`', '[', ']', '(', ')'] {
        assert!(!e.contains(c));
    }
    assert!(e.chars().count() <= 23);
}

#[test]
fn escaped_text_has_no_specials() {
    let e = html_escape("<script>alert('x' & \"y\")</script>");
    for c in ['<', '>', '"', '\''] {
        assert!(!e.contains(c));
    }
}

#[test]
fn each_code_block_becomes_one_fragment() {
    let renderer = MarkdownRenderer::new();
    let html = renderer.render("a\n\n```rust\nfn f() {}\n```\n\nb\n\n```python\nx = 1\n```\n\nc\n");
    assert_eq!(html.matches("<div class=\"code-block\"").count(), 2);
    let a = html.find("<p>a</p>").unwrap();
    let b = html.find("<p>b</p>").unwrap();
    let c = html.find("<p>c</p>").unwrap();
    let rust = html.find("data-lang=\"rust\"").unwrap();
    let python = html.find("data-lang=\"python\"").unwrap();
    assert!(a < rust && rust < b && b < python && python < c);
}

#[test]
fn escaped_text_reads_back() {
    let original = "<a href=\"x\">'Tom & Jerry'</a> &amp;";
    let escaped = html_escape(original);
    let back = escaped
        .replace("&lt;", "<")
        .replace("&gt;", ">")
        .replace("&quot;", "\"")
        .replace("&#x27;", "'")
        .replace("&amp;", "&");
    assert_eq!(back, original);
}

#[test]
fn highlighting_depends_on_code_and_language_only() {
    let a = MarkdownRenderer::new();
    let b = MarkdownRenderer::default();
    let doc = "```rust\nfn main() {}\n```\n\n```\nplain words\n```\n";
    let first = a.render(doc);
    assert_eq!(first, b.render(doc));
    // the code itself is highlighted, not the language name
    assert!(first.contains("main"));
    assert!(first.contains("plain"));
    assert!(first.contains("data-lang=\"text\""));
}

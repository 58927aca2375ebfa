//! The page template: metadata escaped, body kept as it is.
use md_conv::cli::Args;
use md_conv::config::{ConfigFile, ConversionConfig, FrontMatter};
use md_conv::parser::ParsedDocument;
use md_conv::template::{create_context, render_html, TemplateContext};


#[test]
fn test_render_basic() {
    let ctx = TemplateContext {
        title: Some("Test"),
        author: None,
        date: None,
        description: None,
        keywords: None,
        lang: None,
        custom_css: None,
        toc: None,
        content: "<p>Hello</p>",
    };
    let html = render_html(ctx).unwrap();
    assert!(html.contains("<title>Test</title>"));
    assert!(html.contains("<p>Hello</p>"));
    assert!(html.contains("<!DOCTYPE html>"));
}

#[test]
fn test_render_with_custom_css() {
    let ctx = TemplateContext {
        title: None,
        author: None,
        date: None,
        description: None,
        keywords: None,
        lang: None,
        custom_css: Some("body { color: red; }"),
        toc: None,
        content: "<p>Test</p>",
    };
    let html = render_html(ctx).unwrap();
    println!("HTML: {}", html);
    assert!(html.contains("color: red"));
}

#[test]
fn test_render_with_all_metadata() {
    let ctx = TemplateContext {
        title: Some("My Doc"),
        author: Some("Jane Doe"),
        date: Some("2025-01-01"),
        description: Some("A test document"),
        keywords: Some("test, markdown, pdf".to_string()),
        lang: Some("fr"),
        custom_css: None,
        toc: None,
        content: "<p>Bonjour</p>",
    };
    let html = render_html(ctx).unwrap();
    assert!(html.contains("<title>My Doc</title>"));
    assert!(html.contains("By Jane Doe"));
    assert!(html.contains("2025-01-01"));
    assert!(html.contains("lang=\"fr\""));
    assert!(html.contains("test, markdown, pdf"));
}

#[test]
fn test_content_unescaped() {
    // template::render_html expects PRE-SANITIZED content.
    let raw_content = "<script>alert('test')</script>";
    let sanitized = ammonia::clean(raw_content);

    let ctx = TemplateContext {
        title: None,
        author: None,
        date: None,
        description: None,
        keywords: None,
        lang: None,
        custom_css: None,
        toc: None,
        content: &sanitized,
    };
    let html = render_html(ctx).unwrap();
    // ammonia should have stripped the script tag
    assert!(!html.contains("<script>"));
}

#[test]
fn test_front_matter_xss_escaped() {
    let ctx = TemplateContext {
        title: Some("<script>alert('xss')</script>"),
        author: Some("\" onclick=\"alert('xss')"),
        date: Some("<img src=x onerror=alert('xss')>"),
        description: Some("</title><script>alert('xss')</script>"),
        keywords: Some("<script>".to_string()),
        lang: Some("en\" onload=\"alert('xss')"),
        custom_css: None,
        toc: None,
        content: "<p>Safe content</p>",
    };
    let html = render_html(ctx).unwrap();

    // Verify script tags are escaped in title
    assert!(html.contains("&lt;script&gt;"));
    assert!(!html.contains("<script>alert('xss')</script>"));

    // Verify onclick is escaped in author
    assert!(html.contains("&quot;"));
    assert!(!html.contains("onclick="));

    // Verify content remains unescaped (it's pre-sanitized markdown HTML)
    assert!(html.contains("<p>Safe content</p>"));
}

#[test]
fn test_content_remains_unescaped() {
    // Content uses triple braces and should NOT be escaped
    // because it contains pre-sanitized HTML from markdown rendering
    let ctx = TemplateContext {
        title: None,
        author: None,
        date: None,
        description: None,
        keywords: None,
        lang: None,
        custom_css: None,
        toc: None,
        content: "<h1>Heading</h1><p>Paragraph with <strong>bold</strong></p>",
    };
    let html = render_html(ctx).unwrap();
    assert!(html.contains("<h1>Heading</h1>"));
    assert!(html.contains("<strong>bold</strong>"));
}


#[test]
fn test_render_empty_content() {
    let ctx = TemplateContext {
        title: None,
        author: None,
        date: None,
        description: None,
        keywords: None,
        lang: None,
        custom_css: None,
        toc: None,
        content: "",
    };
    let html = render_html(ctx).unwrap();
    assert!(html.contains("<!DOCTYPE html>"));
    assert!(html.contains("<main class=\"content\">"));
}

#[test]
fn test_render_very_large_content() {
    let large_content = "<p>".to_string() + &"x".repeat(100000) + "</p>";
    let ctx = TemplateContext {
        title: None,
        author: None,
        date: None,
        description: None,
        keywords: None,
        lang: None,
        custom_css: None,
        toc: None,
        content: &large_content,
    };
    let html = render_html(ctx).unwrap();
    assert!(html.len() > 100000);
}

#[test]
fn test_render_all_fields_none() {
    let ctx = TemplateContext {
        title: None,
        author: None,
        date: None,
        description: None,
        keywords: None,
        lang: None,
        custom_css: None,
        toc: None,
        content: "<p>Test</p>",
    };
    let html = render_html(ctx).unwrap();
    // Should have default lang
    assert!(html.contains("lang=\"en\""));
}

#[test]
fn test_render_custom_lang() {
    let ctx = TemplateContext {
        title: None,
        author: None,
        date: None,
        description: None,
        keywords: None,
        lang: Some("de"),
        custom_css: None,
        toc: None,
        content: "<p>Guten Tag</p>",
    };
    let html = render_html(ctx).unwrap();
    assert!(html.contains("lang=\"de\""));
}

#[test]
fn test_render_keywords_formatting() {
    let ctx = TemplateContext {
        title: None,
        author: None,
        date: None,
        description: None,
        keywords: Some("rust, markdown, pdf, converter".to_string()),
        lang: None,
        custom_css: None,
        toc: None,
        content: "<p>Test</p>",
    };
    let html = render_html(ctx).unwrap();
    assert!(html.contains("rust, markdown, pdf, converter"));
}

#[test]
fn test_render_css_with_special_chars() {
    let ctx = TemplateContext {
        title: None,
        author: None,
        date: None,
        description: None,
        keywords: None,
        lang: None,
        custom_css: Some("body::before { content: 'Test'; }"),
        toc: None,
        content: "<p>Test</p>",
    };
    let html = render_html(ctx).unwrap();
    assert!(html.contains("body::before"));
}

#[test]
fn test_render_author_without_title() {
    let ctx = TemplateContext {
        title: None,
        author: Some("John Doe"),
        date: None,
        description: None,
        keywords: None,
        lang: None,
        custom_css: None,
        toc: None,
        content: "<p>Test</p>",
    };
    let html = render_html(ctx).unwrap();
    // Author meta tag should still be present
    assert!(html.contains("John Doe") || html.contains("author"));
}

#[test]
fn test_render_date_format_preserved() {
    let ctx = TemplateContext {
        title: Some("Test"),
        author: None,
        date: Some("2025-12-26"),
        description: None,
        keywords: None,
        lang: None,
        custom_css: None,
        toc: None,
        content: "<p>Test</p>",
    };
    let html = render_html(ctx).unwrap();
    assert!(html.contains("2025-12-26"));
}

#[test]
fn test_render_with_toc() {
    let ctx = TemplateContext {
        title: Some("Document"),
        author: None,
        date: None,
        description: None,
        keywords: None,
        lang: None,
        custom_css: None,
        toc: Some("<ul><li><a href=\"#heading\">Heading</a></li></ul>"),
        content: "<h1 id=\"heading\">Heading</h1>",
    };
    let html = render_html(ctx).unwrap();
    assert!(html.contains("<ul><li><a href=\"#heading\">Heading</a></li></ul>"));
}

#[test]
fn test_render_description_in_meta() {
    let ctx = TemplateContext {
        title: Some("Test"),
        author: None,
        date: None,
        description: Some("A test document description"),
        keywords: None,
        lang: None,
        custom_css: None,
        toc: None,
        content: "<p>Test</p>",
    };
    let html = render_html(ctx).unwrap();
    assert!(html.contains("A test document description"));
}

fn ctx_with_title(title: &str) -> TemplateContext<'_> {
    TemplateContext {
        title: Some(title),
        author: None,
        date: None,
        description: None,
        keywords: None,
        lang: None,
        custom_css: None,
        toc: None,
        content: "",
    }
}

#[test]
fn metadata_is_escaped_like_handlebars() {
    let html = render_html(ctx_with_title("a=b <c> & 'd' `e` \"f\"")).unwrap();
    assert!(html.contains(
        "<title>a&#x3D;b &lt;c&gt; &amp; &#x27;d&#x27; &#x60;e&#x60; &quot;f&quot;</title>"
    ));
}

#[test]
fn body_and_css_are_not_escaped() {
    let ctx = TemplateContext {
        title: None,
        author: None,
        date: None,
        description: None,
        keywords: None,
        lang: None,
        custom_css: Some("a > b { color: red; }"),
        toc: None,
        content: "<p class=\"x\">A & B</p>",
    };
    let html = render_html(ctx).unwrap();
    assert!(html.contains("a > b { color: red; }"));
    assert!(html.contains("<main class=\"content\"><p class=\"x\">A & B</p></main>"));
}

#[test]
fn context_from_document() {
    let fm = FrontMatter {
        title: Some("T".into()),
        keywords: Some(vec!["rust".into(), "pdf".into()]),
        ..FrontMatter::default()
    };
    let doc = ParsedDocument::from_front_matter(fm, "# Hi").unwrap();
    let args = Args { input: vec!["a.md".into()], ..Args::default() };
    let fm2 = FrontMatter::default();
    let config = ConversionConfig::assemble(&args, ConfigFile::default(), fm2, "a.md", Some("p{color:red}".into())).unwrap();
    let ctx = create_context(&doc, &config);
    assert_eq!(ctx.title, Some("T"));
    assert_eq!(ctx.keywords.as_deref(), Some("rust, pdf"));
    assert_eq!(ctx.custom_css, Some("p{color:red}"));
    assert!(ctx.content.contains("<h1>Hi</h1>"));
    assert!(ctx.toc.unwrap().contains("<a href=\"#hi\">Hi</a>"));
}

//! Markdown to HTML: highlighting, extensions, the table of contents and notebooks.
use md_conv::config::FrontMatter;
use md_conv::parser::{
    generate_html, generate_toc_html, get_markdown_options, notebook_markdown, split_front_matter, Heading, Notebook, NotebookCell,
    ParsedDocument,
};

/// A document whose text has no front matter.
fn parse_markdown(content: &str) -> ParsedDocument {
    ParsedDocument::from_front_matter(FrontMatter::default(), content).unwrap()
}

fn cell(cell_type: &str, source: &[&str]) -> NotebookCell {
    NotebookCell {
        cell_type: cell_type.to_string(),
        source: source.iter().map(|s| s.to_string()).collect(),
    }
}

fn parse_notebook(cells: Vec<NotebookCell>) -> ParsedDocument {
    let markdown = notebook_markdown(&Notebook { cells });
    parse_markdown(&markdown)
}

#[test]
fn test_highlighting() {
    let content = "```rust\nfn main() {}\n```";
    let (html, _) = generate_html(content, "base16-ocean.dark").unwrap();
    assert!(html.contains("<pre style=")); // Syntect adds styles
}

#[test]
fn test_parse_without_front_matter() {
    let content = "# Just Markdown\n\nNo front matter here.";
    let doc = parse_markdown(content);
    assert!(doc.front_matter.title.is_none());
    assert!(doc.html_content.contains("<h1>Just Markdown</h1>"));
}

#[test]
fn test_gfm_features() {
    let content = "- [x] Task done\n- [ ] Task pending\n\n~~strikethrough~~";
    let doc = parse_markdown(content);
    assert!(doc.html_content.contains("checked"));
    assert!(doc.html_content.contains("<del>"));
}

#[test]
fn test_tables() {
    let content = "| A | B |\n|---|---|\n| 1 | 2 |";
    let doc = parse_markdown(content);
    assert!(doc.html_content.contains("<table>"));
    assert!(doc.html_content.contains("<th>A</th>"));
}

#[test]
fn test_footnotes() {
    let content = "Text with footnote[^1].\n\n[^1]: Footnote content.";
    let doc = parse_markdown(content);
    assert!(doc.html_content.contains("footnote"));
}

#[test]
fn test_parse_empty_content() {
    let doc = parse_markdown("");
    assert!(doc.front_matter.title.is_none());
    assert!(doc.html_content.is_empty() || doc.html_content.trim().is_empty());
}

#[test]
fn test_parse_whitespace_only() {
    let doc = parse_markdown("   \n\n   \t   ");
    assert!(doc.front_matter.title.is_none());
}

#[test]
fn test_parse_very_large_content() {
    let large_content =
        "# Large Document\n\n".to_string() + &"This is a paragraph.\n\n".repeat(1000);
    let doc = parse_markdown(&large_content);
    assert!(doc.html_content.len() > 10000);
}

#[test]
fn test_parse_deeply_nested_headers() {
    let content = "# H1\n## H2\n### H3\n#### H4\n##### H5\n###### H6";
    let doc = parse_markdown(content);
    assert!(doc.html_content.contains("<h1>"));
    assert!(doc.html_content.contains("<h6>"));
}

#[test]
fn test_notebook_empty_source_lines() {
    let doc = parse_notebook(vec![cell("markdown", &[]), cell("code", &[])]);
    assert!(doc.html_content.is_empty() || doc.html_content.contains("<pre"));
}

#[test]
fn test_notebook_unknown_cell_type() {
    let doc = parse_notebook(vec![
        cell("unknown_type", &["ignored content"]),
        cell("markdown", &["# Real Content"]),
    ]);
    assert!(doc.html_content.contains("<h1>Real Content</h1>"));
    assert!(!doc.html_content.contains("ignored content"));
}

#[test]
fn test_toc_generation() {
    let content = "# Heading 1\n## Heading 2\n### Heading 3";
    let doc = parse_markdown(content);
    let toc = doc.toc_html.unwrap();
    assert!(toc.contains("class=\"toc\""));
    assert!(toc.contains("heading-1"));
    assert!(toc.contains("heading-2"));
    assert!(toc.contains("heading-3"));
}

#[test]
fn test_code_block_without_language() {
    let content = "```\nplain code\n```";
    let doc = parse_markdown(content);
    assert!(doc.html_content.contains("plain code"));
}

#[test]
fn notebook_markdown_layout() {
    let md = notebook_markdown(&Notebook {
        cells: vec![
            cell("markdown", &["# Title\n", "Text"]),
            cell("code", &["x = 1\n", "print(x)"]),
            cell("raw", &["skipped"]),
        ],
    });
    assert_eq!(md, "# Title\nText\n\n```python\nx = 1\nprint(x)\n```\n");
}

#[test]
fn toc_lists_are_balanced() {
    let headers = vec![
        Heading { level: 1, text: "A".into(), id: "a".into() },
        Heading { level: 3, text: "B".into(), id: "b".into() },
        Heading { level: 2, text: "C".into(), id: "c".into() },
    ];
    let toc = generate_toc_html(&headers);
    assert_eq!(toc.matches("<ul").count(), toc.matches("</ul>").count());
    assert!(toc.starts_with("<ul class=\"toc\">"));
    assert!(toc.contains("<a href=\"#b\">B</a>"));
}

#[test]
fn toc_escapes_heading_text() {
    let headers = vec![Heading { level: 1, text: "a < b & c".into(), id: "x".into() }];
    let toc = generate_toc_html(&headers);
    assert!(toc.contains("a &lt; b &amp; c"));
}

#[test]
fn unknown_theme_falls_back() {
    let content = "```rust\nlet x = 1;\n```";
    let (fallback, _) = generate_html(content, "no-such-theme").unwrap();
    let (default, _) = generate_html(content, "base16-ocean.dark").unwrap();
    assert_eq!(fallback, default);
}

#[test]
fn script_is_removed_from_html() {
    let doc = parse_markdown("Hello <script>alert(1)</script> world");
    assert!(!doc.html_content.contains("<script>"));
}

#[test]
fn front_matter_theme_is_used() {
    let fm = FrontMatter { highlight_theme: Some("InspiredGitHub".into()), ..FrontMatter::default() };
    let doc = ParsedDocument::from_front_matter(fm, "```rust\nlet x = 1;\n```").unwrap();
    let (themed, _) = generate_html("```rust\nlet x = 1;\n```", "InspiredGitHub").unwrap();
    assert_eq!(doc.html_content, themed);
}

#[test]
fn markdown_options_bits() {
    // GFM, tables, footnotes, strikethrough, task lists, smart punctuation, heading attributes.
    assert_eq!(get_markdown_options(), 2 | 4 | 8 | 16 | 32 | 64 | 2048);
}

#[test]
fn front_matter_is_split_off() {
    let (matter, body) = split_front_matter("---\ntitle: \"Test Doc\"\nauthor: Tester\n---\n# Hello World\n\nThis is a test.");
    assert_eq!(matter.as_deref(), Some("title: \"Test Doc\"\nauthor: Tester"));
    assert!(body.starts_with("# Hello World"));
}

#[test]
fn document_without_front_matter_keeps_its_body() {
    let (matter, body) = split_front_matter("# Just Markdown\n\nNo front matter here.");
    assert!(matter.is_none());
    assert!(body.contains("# Just Markdown"));
}

#[test]
fn empty_front_matter_gives_none() {
    let (matter, body) = split_front_matter("---\n---\n# Content");
    assert!(matter.is_none());
    assert_eq!(body, "# Content");
}

#[test]
fn toc_escapes_heading_ids_in_links() {
    let headers = vec![Heading {
        level: 1,
        text: "T".into(),
        id: r#"x"onmouseover="alert(1)"#.into(),
    }];
    let toc = generate_toc_html(&headers);
    assert!(!toc.contains(r#"x"onmouseover"#));
    assert!(toc.contains("href=\"#x&quot;onmouseover=&quot;alert(1)\""));
}

//! HTML output and the choice of renderer for each format.
use md_conv::cli::OutputFormat;
use md_conv::renderer::html::HtmlRenderer;
use md_conv::renderer::{create_renderer, FormatRenderer, Renderer};

#[test]
fn test_html_render() {
    let renderer = HtmlRenderer;
    let output = renderer.render("<p>Test</p>");
    assert_eq!(output.extension, "html");
    assert_eq!(output.bytes, b"<p>Test</p>");
}

#[test]
fn html_render_keeps_utf8_bytes() {
    let output = HtmlRenderer.render("<p>Grüße – 日本</p>");
    assert_eq!(output.bytes, "<p>Grüße – 日本</p>".as_bytes());
}

#[test]
fn renderer_matches_format() {
    let html = create_renderer(&OutputFormat::Html);
    assert!(matches!(html, FormatRenderer::Html(_)));
    assert_eq!(html.extension(), "html");
    assert_eq!(html.name(), "HTML");
    let pdf = create_renderer(&OutputFormat::Pdf);
    assert!(matches!(pdf, FormatRenderer::Pdf(_)));
    assert_eq!(pdf.extension(), "pdf");
    assert_eq!(pdf.name(), "PDF");
}

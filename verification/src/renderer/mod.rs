//! # Output renderers
//!
//! The common interface of the output formats, and the choice of renderer for a format.
//! HTML output is the page itself; PDF output is printed by a headless browser, driven by the
//! program, from the decisions made in `pdf` and `pool`.
use vstd::prelude::*;
use crate::cli::OutputFormat;

pub mod html;
pub mod pdf;
pub mod pool;

verus! {

/// The result of a successful rendering operation.
pub struct RenderOutput {
    /// Raw binary content of the generated file.
    pub bytes: Vec<u8>,
    /// Standard file extension for this format (e.g., "pdf").
    pub extension: &'static str,
}

/// A common interface for all document output formats.
pub trait Renderer {
    /// Returns the file extension (without the dot) associated with this format.
    fn extension(&self) -> &'static str;

    /// Returns a human-readable name used for logging and diagnostics.
    fn name(&self) -> &'static str;
}

/// The renderer of one output format.
pub enum FormatRenderer {
    /// Standard HTML5 document.
    Html(html::HtmlRenderer),
    /// PDF printed by a headless browser.
    Pdf(pdf::PdfRenderer),
}

impl FormatRenderer {
    /// The format this renderer writes.
    pub open spec fn format(&self) -> OutputFormat {
        match self {
            FormatRenderer::Html(_) => OutputFormat::Html,
            FormatRenderer::Pdf(_) => OutputFormat::Pdf,
        }
    }
}

impl Renderer for FormatRenderer {
    fn extension(&self) -> (r: &'static str)
        ensures
            self.format() == OutputFormat::Html ==> r@ == "html"@,
            self.format() == OutputFormat::Pdf ==> r@ == "pdf"@,
    {
        match self {
            FormatRenderer::Html(h) => h.extension(),
            FormatRenderer::Pdf(p) => p.extension(),
        }
    }

    fn name(&self) -> (r: &'static str)
        ensures
            self.format() == OutputFormat::Html ==> r@ == "HTML"@,
            self.format() == OutputFormat::Pdf ==> r@ == "PDF"@,
    {
        match self {
            FormatRenderer::Html(h) => h.name(),
            FormatRenderer::Pdf(p) => p.name(),
        }
    }
}

/// Factory function to instantiate the appropriate renderer for a given format.
pub fn create_renderer(format: &OutputFormat) -> (r: FormatRenderer)
    ensures
        r.format() == *format,
{
    match format {
        OutputFormat::Html => FormatRenderer::Html(html::HtmlRenderer),
        OutputFormat::Pdf => FormatRenderer::Pdf(pdf::PdfRenderer::new()),
    }
}

} // verus!

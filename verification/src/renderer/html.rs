//! HTML output: the page itself.
use vstd::prelude::*;
use vstd::string::StrSliceExecFns;
use super::{RenderOutput, Renderer};

verus! {

/// A renderer that produces standard HTML output.
///
/// This is a pass-through renderer: the page made from the template is the output.
pub struct HtmlRenderer;

impl HtmlRenderer {
    /// The output for the page `html`: its UTF-8 bytes, with the extension `html`.
    pub fn render(&self, html: &str) -> (r: RenderOutput)
        ensures
            r.bytes@ == vstd::utf8::encode_utf8(html@),
            r.extension@ == "html"@,
    {
        proof {
            reveal_strlit("html");
        }
        RenderOutput { bytes: html.as_bytes_vec(), extension: "html" }
    }
}

impl Renderer for HtmlRenderer {
    fn extension(&self) -> (r: &'static str)
        ensures
            r@ == "html"@,
    {
        proof {
            reveal_strlit("html");
        }
        "html"
    }

    fn name(&self) -> (r: &'static str)
        ensures
            r@ == "HTML"@,
    {
        proof {
            reveal_strlit("HTML");
        }
        "HTML"
    }
}

} // verus!
